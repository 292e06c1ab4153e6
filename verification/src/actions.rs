//! What a key or button binding does to the state of the window manager, and what it leaves
//! to the caller (closing or moving a window, running a command, showing and hiding windows).
use vstd::prelude::*;

use crate::client::ClientFlags;
use crate::layouts::{LayoutConfiguration, LayoutType, StackMode, StackPosition};
use crate::monitor::{
    lemma_moved_contains, lemma_switch_keeps_clients, moved_view, switched_view, Monitor, MonitorView, WorkspaceSwitch,
};
use crate::wm::{i32_min, spec_relative_workspace_idx};
use crate::geometry::i32_max;
use crate::wmstate::{
    first_monitor_with, lemma_first_monitor_with, lemma_wf_replace_same_clients, monitors_have_workspaces, raised_on, spec_cycle_target,
    switch_done, WmState, WmSwitch, WmView,
};
use crate::workspace::{not_floating, pinned, select, Workspace, WorkspaceView};

verus! {

/// A binding action, but for changing the main ratio (a floating point value that the caller
/// keeps).
#[derive(Clone, Debug, PartialEq)]
pub enum WmAction {
    CenterClient,
    CloseClient,
    CycleClient(i32),
    CycleLayout,
    CycleWorkspace(i32),
    Execute(String),
    Exit,
    IncNMain(i32),
    MoveWorkspace(u32),
    PreviousWorkspace,
    MouseMove,
    MouseResize,
    MoveMain,
    Restart,
    SetLayout(LayoutType),
    SetStackMode(StackMode),
    SetStackPosition(StackPosition),
    StackMove(i32),
    SwitchWorkspace(u32),
    ToggleFloating,
    ToggleFullscreen,
}

/// What is left to the caller after an action.
pub enum ActionEffect {
    /// nothing to do
    Nothing,
    /// the shown workspace of the current monitor changed: lay it out again
    Relayout,
    /// close the client
    Close(u64),
    /// run the command
    Spawn(String),
    /// leave the window manager
    Exit,
    /// start the window manager again
    Restart,
    /// center the client on its monitor
    Center(u64),
    /// switch the client between floating and tiled
    ToggleFloating(u64),
    /// switch the client into or out of fullscreen
    ToggleFullscreen(u64),
    /// move the client with the pointer
    MouseMove(u64),
    /// resize the client with the pointer
    MouseResize(u64),
    /// the client was raised on the shown workspace (move the pointer to it)
    Raised(u64),
    /// the current monitor showed another workspace
    MonitorSwitch(WorkspaceSwitch),
    /// another workspace was shown
    Switch(WmSwitch),
    /// the client went to another workspace of its monitor; hide it if that is not shown
    Moved { client: u64, hide: bool },
}

/// The shown workspace of monitor `m`.
pub open spec fn shown_workspace(o: WmView, m: int) -> WorkspaceView {
    o.monitors[m].workspaces[o.monitors[m].cur as int]
}

/// The state with workspace `k` of monitor `m` replaced by `w`.
pub open spec fn with_workspace(o: WmView, m: int, k: int, w: WorkspaceView) -> WmView {
    WmView {
        monitors: o.monitors.update(
            m,
            MonitorView { workspaces: o.monitors[m].workspaces.update(k, w), ..o.monitors[m] },
        ),
        ..o
    }
}

/// The state with the shown workspace of monitor `m` replaced by `w`.
pub open spec fn with_shown(o: WmView, m: int, w: WorkspaceView) -> WmView {
    with_workspace(o, m, o.monitors[m].cur as int, w)
}

/// The workspace after the client became a main window (see [Workspace::move_main]).
pub open spec fn spec_move_main(w: WorkspaceView, id: u64) -> WorkspaceView {
    if !w.clients.contains(id) {
        w
    } else {
        let i = w.clients.index_of(id);
        let nmain = w.config.nmain as int;
        let rest = w.clients.remove(i);
        w.with_lists(
            if i < nmain && w.clients.len() > nmain {
                rest.insert(nmain, id)
            } else {
                seq![id] + rest
            },
            w.stack,
        )
    }
}

/// The workspace after the client moved by `inc` places (see [Workspace::stack_move]).
pub open spec fn spec_stack_move(w: WorkspaceView, id: u64, inc: i32) -> WorkspaceView {
    if !w.clients.contains(id) {
        w
    } else {
        let pos = w.clients.index_of(id);
        let len = w.clients.len();
        let new_pos = (((pos + inc + len) as i32) as usize) % (len as usize);
        w.with_lists(w.clients.remove(pos).insert(new_pos as int, id), w.stack)
    }
}

/// The stack can be moved by `inc` places within `i32`.
pub open spec fn stack_move_fits(w: WorkspaceView, id: u64, inc: i32) -> bool {
    &&& w.clients.len() <= i32::MAX
    &&& w.clients.contains(id) ==> i32::MIN <= w.clients.index_of(id) + inc + w.clients.len() <= i32::MAX
}

/// The number of tiled clients on the shown workspace of monitor `m` lets cycling by `inc`
/// compute in `i32`.
pub open spec fn cycle_fits(o: WmView, m: int, table: Seq<ClientFlags>, inc: i32) -> bool {
    let n = select(shown_workspace(o, m).clients, table, |f: ClientFlags| not_floating(f)).len();
    &&& 2 * n <= i32_max()
    &&& i32_min() <= n + inc
    &&& 2 * n + inc <= i32_max() + 1
}

/// The global workspace that cycling by `inc` from the shown workspace of monitor `m` gives,
/// if it can be computed: the monitor's offset plus the shown index moved by `inc` and wrapped
/// around its workspaces.
pub open spec fn cycle_workspace_target(o: WmView, m: int, inc: i32) -> Option<u32> {
    let mon = o.monitors[m];
    let sum = mon.cur + inc;
    if i32_min() <= sum <= i32_max() && mon.offset + ((sum as i32) as u32) % (mon.workspaces.len() as u32)
        <= u32::MAX {
        let t = (mon.offset + ((sum as i32) as u32) % (mon.workspaces.len() as u32)) as u32;
        let rel = spec_relative_workspace_idx(o.config, t);
        if rel.0 < o.monitors.len() && rel.1 >= o.monitors[rel.0].workspaces.len() {
            None
        } else {
            Some(t)
        }
    } else {
        None
    }
}

/// The monitor switch `sw` is what showing workspace `k` of monitor view `m` did (see
/// [Monitor::switch_workspace]).
pub open spec fn monitor_switch_done(m: MonitorView, n: MonitorView, sw: WorkspaceSwitch, k: u32, table: Seq<ClientFlags>) -> bool {
    &&& sw.pinned@ == select(m.workspaces[m.cur as int].clients, table, |f: ClientFlags| pinned(f))
    &&& sw.hide@ == n.workspaces[m.cur as int].clients
    &&& sw.show@ == n.workspaces[k as int].clients
    &&& sw.global_index == m.workspaces[k as int].global_index
}

/// Running `action` (with the focused or clicked client `client`, on monitor `cm`) took the
/// state `o` to `n` and left the effect `e`.
pub open spec fn executed(
    o: WmView,
    n: WmView,
    e: ActionEffect,
    action: WmAction,
    client: Option<u64>,
    cm: int,
    table: Seq<ClientFlags>,
) -> bool {
    let w = shown_workspace(o, cm);
    match action {
        WmAction::CenterClient => n == o && e == match client {
            Some(c) => ActionEffect::Center(c),
            None => ActionEffect::Nothing,
        },
        WmAction::CloseClient => n == o && e == match client {
            Some(c) => ActionEffect::Close(c),
            None => ActionEffect::Nothing,
        },
        WmAction::ToggleFloating => n == o && e == match client {
            Some(c) => ActionEffect::ToggleFloating(c),
            None => ActionEffect::Nothing,
        },
        WmAction::ToggleFullscreen => n == o && e == match client {
            Some(c) => ActionEffect::ToggleFullscreen(c),
            None => ActionEffect::Nothing,
        },
        WmAction::MouseMove => n == o && e == match client {
            Some(c) => ActionEffect::MouseMove(c),
            None => ActionEffect::Nothing,
        },
        WmAction::MouseResize => n == o && e == match client {
            Some(c) => ActionEffect::MouseResize(c),
            None => ActionEffect::Nothing,
        },
        WmAction::Execute(cmd) => n == o && e == ActionEffect::Spawn(cmd),
        WmAction::Exit => n == o && e == ActionEffect::Exit,
        WmAction::Restart => n == o && e == ActionEffect::Restart,
        WmAction::CycleLayout => n == with_shown(
            o,
            cm,
            WorkspaceView { layout: LayoutType::spec_at(w.layout.spec_index() + 1), ..w },
        ) && e == ActionEffect::Relayout,
        WmAction::SetLayout(l) => n == with_shown(o, cm, WorkspaceView { layout: l, ..w }) && e
            == ActionEffect::Relayout,
        WmAction::SetStackMode(mode) => n == with_shown(
            o,
            cm,
            WorkspaceView { config: LayoutConfiguration { stack_mode: mode, ..w.config }, ..w },
        ) && e == ActionEffect::Relayout,
        WmAction::SetStackPosition(p) => n == with_shown(
            o,
            cm,
            WorkspaceView { config: LayoutConfiguration { stack_position: p, ..w.config }, ..w },
        ) && e == ActionEffect::Relayout,
        WmAction::IncNMain(i) => if i32::MIN <= (w.config.nmain as i32) + i <= i32::MAX {
            n == with_shown(
                o,
                cm,
                WorkspaceView {
                    config: LayoutConfiguration {
                        nmain: (((w.config.nmain as i32) + i) as i32) as u32,
                        ..w.config
                    },
                    ..w
                },
            ) && e == ActionEffect::Relayout
        } else {
            n == o && e == ActionEffect::Nothing
        },
        WmAction::MoveMain => match client {
            Some(c) => n == with_shown(o, cm, spec_move_main(w, c)) && e == ActionEffect::Relayout,
            None => n == o && e == ActionEffect::Nothing,
        },
        WmAction::StackMove(i) => match client {
            Some(c) => if stack_move_fits(w, c, i) {
                n == with_shown(o, cm, spec_stack_move(w, c, i)) && e == ActionEffect::Relayout
            } else {
                n == o && e == ActionEffect::Nothing
            },
            None => n == o && e == ActionEffect::Nothing,
        },
        WmAction::CycleClient(inc) => if cycle_fits(o, cm, table, inc) {
            match spec_cycle_target(o, cm, table, inc) {
                Some(c) => n == raised_on(o, cm, c) && e == ActionEffect::Raised(c),
                None => n == o && e == ActionEffect::Nothing,
            }
        } else {
            n == o && e == ActionEffect::Nothing
        },
        WmAction::CycleWorkspace(inc) => match cycle_workspace_target(o, cm, inc) {
            Some(t) => match e {
                ActionEffect::Switch(sw) => switch_done(o, n, Some(sw), t, cm, table),
                ActionEffect::Nothing => switch_done(o, n, None, t, cm, table),
                _ => false,
            },
            None => n == o && e == ActionEffect::Nothing,
        },
        WmAction::SwitchWorkspace(k) => {
            let m = o.monitors[cm];
            if k == m.cur || k >= m.workspaces.len() {
                n == o && e == ActionEffect::Nothing
            } else {
                let nm = switched_view(m, k, table);
                &&& n == WmView { monitors: o.monitors.update(cm, nm), ..o }
                &&& e matches ActionEffect::MonitorSwitch(sw) && monitor_switch_done(m, nm, sw, k, table)
            }
        },
        WmAction::PreviousWorkspace => {
            let m = o.monitors[cm];
            if m.prev == m.cur || m.prev >= m.workspaces.len() {
                n == o && e == ActionEffect::Nothing
            } else {
                let nm = switched_view(m, m.prev, table);
                &&& n == WmView { monitors: o.monitors.update(cm, nm), ..o }
                &&& e matches ActionEffect::MonitorSwitch(sw) && monitor_switch_done(m, nm, sw, m.prev, table)
            }
        },
        WmAction::MoveWorkspace(k) => match client {
            Some(c) => match first_monitor_with(o.monitors, c) {
                Some(cmon) => if k < o.monitors[cmon].workspaces.len() {
                    n == WmView { monitors: o.monitors.update(cmon, moved_view(o.monitors[cmon], c, k)), ..o }
                        && e == ActionEffect::Moved { client: c, hide: k != o.monitors[cmon].cur }
                } else {
                    n == o && e == ActionEffect::Nothing
                },
                None => n == o && e == ActionEffect::Nothing,
            },
            None => n == o && e == ActionEffect::Nothing,
        },
    }
}

/// Replacing a workspace by a well-formed one with the same clients keeps the state well
/// formed.
pub proof fn lemma_replace_workspace(o: WmView, m: int, k: int, w: WorkspaceView)
    requires
        o.wf(),
        0 <= m < o.monitors.len(),
        0 <= k < o.monitors[m].workspaces.len(),
        w.wf(),
        forall|x: u64| #[trigger] w.clients.contains(x) <==> o.monitors[m].workspaces[k].clients.contains(x),
    ensures
        with_workspace(o, m, k, w).wf(),
{
    let om = o.monitors[m];
    let nm = MonitorView { workspaces: om.workspaces.update(k, w), ..om };
    assert(om.wf());
    assert forall|i: int| 0 <= i < nm.workspaces.len() implies (#[trigger] nm.workspaces[i]).wf() by {
        if i != k {
            assert(nm.workspaces[i] == om.workspaces[i]);
        }
    }
    assert forall|i: int, j: int, id: u64|
        0 <= i < nm.workspaces.len() && 0 <= j < nm.workspaces.len() && i != j && #[trigger] nm.workspaces[i].clients.contains(id)
            implies !#[trigger] nm.workspaces[j].clients.contains(id) by {
        assert(om.workspaces[i].clients.contains(id)) by {
            if i != k {
                assert(nm.workspaces[i] == om.workspaces[i]);
            }
        }
        if j != k {
            assert(nm.workspaces[j] == om.workspaces[j]);
        }
    }
    assert forall|x: u64| #[trigger] nm.contains(x) <==> om.contains(x) by {
        if nm.contains(x) {
            let i = choose|i: int| 0 <= i < nm.workspaces.len() && #[trigger] nm.workspaces[i].clients.contains(x);
            if i != k {
                assert(nm.workspaces[i] == om.workspaces[i]);
            }
            assert(om.workspaces[i].clients.contains(x));
        }
        if om.contains(x) {
            let i = choose|i: int| 0 <= i < om.workspaces.len() && #[trigger] om.workspaces[i].clients.contains(x);
            if i != k {
                assert(nm.workspaces[i] == om.workspaces[i]);
            }
            assert(nm.workspaces[i].clients.contains(x));
        }
    }
    lemma_wf_replace_same_clients(o, m, nm);
}

/// Replacing the shown workspace of monitor `m` by a well-formed one with the same clients
/// keeps the state well formed.
pub proof fn lemma_shown_update(o: WmView, n: WmView, m: int)
    requires
        o.wf(),
        0 <= m < o.monitors.len(),
        o.monitors[m].workspaces.len() > 0,
        n == with_shown(o, m, shown_workspace(n, m)),
        shown_workspace(n, m).wf(),
        shown_workspace(n, m).clients.to_set() == shown_workspace(o, m).clients.to_set(),
    ensures
        n.wf(),
{
    let nw = shown_workspace(n, m);
    assert(o.monitors[m].wf());
    assert forall|x: u64| #[trigger] nw.clients.contains(x) <==> shown_workspace(o, m).clients.contains(x) by {
        assert(nw.clients.to_set().contains(x) == nw.clients.contains(x));
        assert(shown_workspace(o, m).clients.to_set().contains(x) == shown_workspace(o, m).clients.contains(x));
    }
    lemma_replace_workspace(o, m, o.monitors[m].cur as int, nw);
}

impl WmState {
    /// The shown workspace of monitor `m`, to be changed.
    pub fn shown_workspace_mut(&mut self, m: usize) -> (w: &mut Workspace)
        requires
            old(self)@.wf(),
            m < old(self)@.monitors.len(),
            old(self)@.monitors[m as int].workspaces.len() > 0,
        ensures
            w@ == shown_workspace(old(self)@, m as int),
            final(self)@ == with_shown(old(self)@, m as int, final(w)@),
    {
        let mon = self.monitor_mut(m);
        mon.current_workspace_mut()
    }

    /// Monitor `m`.
    pub fn monitor_ref(&self, m: usize) -> (r: &Monitor)
        requires
            m < self@.monitors.len(),
        ensures
            r@ == self@.monitors[m as int],
    {
        match self.monitor(m) {
            Some(r) => r,
            None => {
                assert(false);
                self.monitor(0).unwrap()
            },
        }
    }

    /// Run a binding action with the focused or clicked client `client` on monitor
    /// `current_monitor` (see [executed]): the state changes the action asks for are made, and
    /// what is left to the caller is returned. Steps that cannot be computed within the machine
    /// integers are skipped.
    #[verifier::spinoff_prover]
    #[verifier::rlimit(60)]
    pub fn execute(
        &mut self,
        action: WmAction,
        client: Option<u64>,
        current_monitor: usize,
        table: &Vec<ClientFlags>,
    ) -> (e: ActionEffect)
        requires
            old(self)@.wf(),
            current_monitor < old(self)@.monitors.len(),
            monitors_have_workspaces(old(self)@.monitors),
            old(self)@.config.primary_workspaces > 0,
            old(self)@.config.secondary_workspaces > 0,
        ensures
            final(self)@.wf(),
            executed(old(self)@, final(self)@, e, action, client, current_monitor as int, table@),
    {
        let ghost o = self@;
        let cm = current_monitor;
        assert(o.monitors[cm as int].workspaces.len() > 0);
        match action {
            WmAction::CenterClient => match client {
                Some(c) => ActionEffect::Center(c),
                None => ActionEffect::Nothing,
            },
            WmAction::CloseClient => match client {
                Some(c) => ActionEffect::Close(c),
                None => ActionEffect::Nothing,
            },
            WmAction::ToggleFloating => match client {
                Some(c) => ActionEffect::ToggleFloating(c),
                None => ActionEffect::Nothing,
            },
            WmAction::ToggleFullscreen => match client {
                Some(c) => ActionEffect::ToggleFullscreen(c),
                None => ActionEffect::Nothing,
            },
            WmAction::MouseMove => match client {
                Some(c) => ActionEffect::MouseMove(c),
                None => ActionEffect::Nothing,
            },
            WmAction::MouseResize => match client {
                Some(c) => ActionEffect::MouseResize(c),
                None => ActionEffect::Nothing,
            },
            WmAction::Execute(cmd) => ActionEffect::Spawn(cmd),
            WmAction::Exit => ActionEffect::Exit,
            WmAction::Restart => ActionEffect::Restart,
            WmAction::CycleLayout => {
                let w = self.shown_workspace_mut(cm);
                w.cycle_layout();
                proof {
                    lemma_shown_update(o, self@, cm as int);
                }
                ActionEffect::Relayout
            },
            WmAction::SetLayout(l) => {
                let w = self.shown_workspace_mut(cm);
                w.set_layout(l);
                proof {
                    lemma_shown_update(o, self@, cm as int);
                }
                ActionEffect::Relayout
            },
            WmAction::SetStackMode(mode) => {
                let w = self.shown_workspace_mut(cm);
                w.set_stack_mode(mode);
                proof {
                    lemma_shown_update(o, self@, cm as int);
                }
                ActionEffect::Relayout
            },
            WmAction::SetStackPosition(p) => {
                let w = self.shown_workspace_mut(cm);
                w.set_stack_position(p);
                proof {
                    lemma_shown_update(o, self@, cm as int);
                }
                ActionEffect::Relayout
            },
            WmAction::IncNMain(i) => {
                let nmain = self.monitor_ref(cm).current_workspace().layout_config().nmain;
                let sum = (nmain as i32) as i64 + i as i64;
                if sum < i32::MIN as i64 || sum > i32::MAX as i64 {
                    return ActionEffect::Nothing;
                }
                let w = self.shown_workspace_mut(cm);
                w.inc_nmain(i);
                proof {
                    lemma_shown_update(o, self@, cm as int);
                }
                ActionEffect::Relayout
            },
            WmAction::MoveMain => match client {
                Some(c) => {
                    let w = self.shown_workspace_mut(cm);
                    w.move_main(c);
                    proof {
                        lemma_shown_update(o, self@, cm as int);
                    }
                    ActionEffect::Relayout
                },
                None => ActionEffect::Nothing,
            },
            WmAction::StackMove(i) => match client {
                Some(c) => {
                    let ws = self.monitor_ref(cm).current_workspace();
                    let len = ws.clients().len();
                    if len > i32::MAX as usize {
                        return ActionEffect::Nothing;
                    }
                    match ws.index_of(c) {
                        Some(pos) => {
                            let v = pos as i64 + i as i64 + len as i64;
                            if v < i32::MIN as i64 || v > i32::MAX as i64 {
                                return ActionEffect::Nothing;
                            }
                        },
                        None => {},
                    }
                    let w = self.shown_workspace_mut(cm);
                    w.stack_move(c, i);
                    proof {
                        lemma_shown_update(o, self@, cm as int);
                    }
                    ActionEffect::Relayout
                },
                None => ActionEffect::Nothing,
            },
            WmAction::CycleClient(inc) => {
                let tiled = self.monitor_ref(cm).current_workspace().tiled_clients(table);
                if tiled.len() > i32::MAX as usize {
                    return ActionEffect::Nothing;
                }
                let n = tiled.len() as i64;
                if 2 * n > i32::MAX as i64 || n + (inc as i64) < i32::MIN as i64 || 2 * n + (inc as i64) > i32::MAX as i64 + 1 {
                    return ActionEffect::Nothing;
                }
                assert(cycle_fits(o, cm as int, table@, inc));
                match self.cycle_client(cm, table, inc) {
                    Some(c) => ActionEffect::Raised(c),
                    None => ActionEffect::Nothing,
                }
            },
            WmAction::CycleWorkspace(inc) => {
                let offset = self.monitor_ref(cm).workspace_offset();
                let count = self.monitor_ref(cm).workspace_count();
                let cur = self.monitor_ref(cm).current_workspace_index();
                let sum = cur as i64 + inc as i64;
                if sum < i32::MIN as i64 || sum > i32::MAX as i64 {
                    return ActionEffect::Nothing;
                }
                let step = ((sum as i32) as u32) % count;
                if offset as u64 + step as u64 > u32::MAX as u64 {
                    return ActionEffect::Nothing;
                }
                let target = offset + step;
                let (mon, rel) = crate::wm::relative_workspace_idx(self.config(), target);
                if mon < self.monitor_count() {
                    if rel >= self.monitor_ref(mon).workspace_count() {
                        return ActionEffect::Nothing;
                    }
                }
                match self.switch_workspace(target, cm, table) {
                    Some(sw) => ActionEffect::Switch(sw),
                    None => ActionEffect::Nothing,
                }
            },
            WmAction::SwitchWorkspace(k) => {
                let m = self.monitor_mut(cm);
                let r = m.switch_workspace(k, table);
                proof {
                    if r is Some {
                        lemma_switch_keeps_clients(o.monitors[cm as int], k, table@);
                        lemma_wf_replace_same_clients(o, cm as int, self@.monitors[cm as int]);
                    }
                    assert(self@.monitors =~= o.monitors.update(cm as int, self@.monitors[cm as int]));
                    if r is None {
                        assert(self@.monitors =~= o.monitors);
                    }
                }
                match r {
                    Some(sw) => ActionEffect::MonitorSwitch(sw),
                    None => ActionEffect::Nothing,
                }
            },
            WmAction::PreviousWorkspace => {
                let prev = self.monitor_ref(cm).prev_workspace_index();
                let m = self.monitor_mut(cm);
                let r = m.switch_workspace(prev, table);
                proof {
                    if r is Some {
                        lemma_switch_keeps_clients(o.monitors[cm as int], prev, table@);
                        lemma_wf_replace_same_clients(o, cm as int, self@.monitors[cm as int]);
                    }
                    assert(self@.monitors =~= o.monitors.update(cm as int, self@.monitors[cm as int]));
                    if r is None {
                        assert(self@.monitors =~= o.monitors);
                    }
                }
                match r {
                    Some(sw) => ActionEffect::MonitorSwitch(sw),
                    None => ActionEffect::Nothing,
                }
            },
            WmAction::MoveWorkspace(k) => match client {
                Some(c) => match self.get_monitor(c) {
                    Some(cmon) => {
                        proof {
                            lemma_first_monitor_with(o.monitors, c);
                        }
                        let m = self.monitor_mut(cmon);
                        let r = m.move_to_workspace(c, k);
                        proof {
                            if r is Some {
                                lemma_moved_contains(o.monitors[cmon as int], c, k);
                                lemma_wf_replace_same_clients(o, cmon as int, self@.monitors[cmon as int]);
                            }
                            assert(self@.monitors =~= o.monitors.update(cmon as int, self@.monitors[cmon as int]));
                            if r is None {
                                assert(self@.monitors =~= o.monitors);
                            }
                        }
                        match r {
                            Some(hide) => ActionEffect::Moved { client: c, hide },
                            None => ActionEffect::Nothing,
                        }
                    },
                    None => ActionEffect::Nothing,
                },
                None => ActionEffect::Nothing,
            },
        }
    }
}

} // verus!
