//! The state of the window manager: its monitors with their workspaces, the managed clients
//! and the active client; and what managing, switching and moving clients does to it.
use vstd::prelude::*;

use crate::client::{
    centering_fits, flags_of, lookup_flags, min_size, spec_centering_fits, Attributes, ClientFlags, X11Client,
};
use crate::layouts::LayoutType;
use crate::config::Configuration;
use crate::geometry::MonitorConfig;
use crate::monitor::{
    all_clients, attached_view, detached_view, lemma_all_clients_contains, lemma_attached_contains,
    lemma_moved_contains, lemma_reconfigured_contains, lemma_switch_keeps_clients, moved_view,
    raised_view, reconfigured_view, switched_view, Monitor, MonitorView, WorkspaceSwitch,
};
use crate::workspace::{
    first_by_main, fullscreen, not_floating, pinned, restack_raise, restack_unset_fullscreen, select, RestackPlan,
};
use crate::config::ThemingConfiguration;
use crate::rules::{apply_window_rules, fold_rules, rule_workspaces_fit, spec_place, Rule, WindowPlacement};
use crate::wm::{
    cycle_monitor_index, i32_min, relative_workspace_idx, spec_relative_workspace_idx, spec_workspace_offset,
    workspace_offset,
};
use crate::geometry::{i32_max, Dimensions};
use crate::seqs::{first_position, position, remove_value};

verus! {

/// The abstract state of the window manager.
#[verifier::ext_equal]
pub struct WmView {
    pub config: Configuration,
    pub monitors: Seq<MonitorView>,
    /// the managed clients, in the order they were managed
    pub clients: Seq<u64>,
    pub active: Option<u64>,
}

/// No client is on two monitors.
pub open spec fn disjoint_monitors(ms: Seq<MonitorView>) -> bool {
    forall|m1: int, m2: int, id: u64|
        0 <= m1 < ms.len() && 0 <= m2 < ms.len() && m1 != m2 && #[trigger] ms[m1].contains(id)
            ==> !#[trigger] ms[m2].contains(id)
}

impl WmView {
    /// Every monitor is well formed, no client is on two monitors, every client on a monitor is
    /// managed, and no client is managed twice.
    pub open spec fn wf(self) -> bool {
        &&& forall|m: int| 0 <= m < self.monitors.len() ==> (#[trigger] self.monitors[m]).wf()
        &&& disjoint_monitors(self.monitors)
        &&& self.clients.no_duplicates()
        &&& forall|m: int, id: u64|
            0 <= m < self.monitors.len() && #[trigger] self.monitors[m].contains(id) ==> self.clients.contains(id)
    }

    /// The client is on one of the monitors.
    pub open spec fn on_monitors(self, id: u64) -> bool {
        exists|m: int| 0 <= m < self.monitors.len() && #[trigger] self.monitors[m].contains(id)
    }
}

/// The first monitor that holds the client.
pub open spec fn first_monitor_with(ms: Seq<MonitorView>, id: u64) -> Option<int>
    decreases ms.len(),
{
    if ms.len() == 0 {
        None
    } else {
        match first_monitor_with(ms.drop_last(), id) {
            Some(i) => Some(i),
            None => if ms.last().contains(id) {
                Some(ms.len() - 1)
            } else {
                None
            },
        }
    }
}

/// The first monitor that holds the client holds it, and none before it does.
pub proof fn lemma_first_monitor_with(ms: Seq<MonitorView>, id: u64)
    ensures
        first_monitor_with(ms, id) matches Some(i) ==> 0 <= i < ms.len() && ms[i].contains(id) && forall|j: int|
            0 <= j < i ==> !(#[trigger] ms[j]).contains(id),
        first_monitor_with(ms, id) is None ==> forall|j: int| 0 <= j < ms.len() ==> !(#[trigger] ms[j]).contains(id),
    decreases ms.len(),
{
    if ms.len() > 0 {
        let d = ms.drop_last();
        lemma_first_monitor_with(d, id);
        assert forall|j: int| 0 <= j < d.len() implies #[trigger] ms[j] == d[j] by {}
    }
}

/// A monitor that holds the client, with none before it that does, is the first one.
proof fn lemma_first_monitor_at(ms: Seq<MonitorView>, id: u64, i: int)
    requires
        0 <= i < ms.len(),
        ms[i].contains(id),
        forall|j: int| 0 <= j < i ==> !(#[trigger] ms[j]).contains(id),
    ensures
        first_monitor_with(ms, id) == Some(i),
    decreases ms.len(),
{
    let d = ms.drop_last();
    if i < ms.len() - 1 {
        assert forall|j: int| 0 <= j <= i implies #[trigger] d[j] == ms[j] by {}
        lemma_first_monitor_at(d, id, i);
    } else {
        lemma_first_monitor_with(d, id);
        if let Some(j) = first_monitor_with(d, id) {
            assert(d[j] == ms[j]);
        }
    }
}

/// What a change of focus asks for.
#[derive(Clone, Copy, Debug, PartialEq, Eq, Structural)]
pub enum FocusChange {
    /// the client is focused already
    Unchanged,
    /// focus the client (decorate it as active and give it the input focus); the previously
    /// active client, if any, is to be decorated as inactive
    Focus { client: u64, previous: Option<u64> },
    /// no client is active any more
    Clear,
}

/// The client lies on a workspace in the floating layout.
pub open spec fn in_floating_layout(v: WmView, id: u64) -> bool {
    exists|m: int, k: int|
        0 <= m < v.monitors.len() && 0 <= k < v.monitors[m].workspaces.len()
            && #[trigger] v.monitors[m].workspaces[k].clients.contains(id) && v.monitors[m].workspaces[k].layout
            == LayoutType::Floating
}

/// The state with a client on top of the stacking order of the workspace shown on monitor `m`.
pub open spec fn raised_on(v: WmView, m: int, id: u64) -> WmView {
    let mon = v.monitors[m];
    WmView {
        monitors: v.monitors.update(
            m,
            MonitorView {
                workspaces: mon.workspaces.update(mon.cur as int, raised_view(mon.workspaces[mon.cur as int], id)),
                ..mon
            },
        ),
        ..v
    }
}

/// The client to switch to from the active one on the shown workspace of monitor `cm`: the most
/// recently raised client outside the main area if the active one is a main client, else the
/// most recently raised main client; none when there is no active client, it is fullscreen, or
/// it is not on that workspace.
pub open spec fn spec_main_switch_target(v: WmView, cm: int, table: Seq<ClientFlags>) -> Option<u64> {
    let m = v.monitors[cm];
    let ws = m.workspaces[m.cur as int];
    match v.active {
        Some(a) => if flags_of(table, a).is_fullscreen || !ws.clients.contains(a) {
            None
        } else if ws.is_main(a) {
            first_by_main(ws, ws.stack, false)
        } else {
            first_by_main(ws, ws.stack, true)
        },
        None => None,
    }
}

/// The client `inc` places from the active one among the clients that do not float on the
/// shown workspace of monitor `cm` (wrapping around); none when there is no active client, it
/// is fullscreen, or it is not among those clients.
pub open spec fn spec_cycle_target(v: WmView, cm: int, table: Seq<ClientFlags>, inc: i32) -> Option<u64> {
    let m = v.monitors[cm];
    let t = select(m.workspaces[m.cur as int].clients, table, |f: ClientFlags| not_floating(f));
    match v.active {
        Some(a) => if flags_of(table, a).is_fullscreen || !t.contains(a) {
            None
        } else {
            Some(t[((((first_position(t, a) + t.len()) as i32) + inc) as usize) as int % t.len() as int])
        },
        None => None,
    }
}

/// The window area of the workspace that holds the client.
pub open spec fn workspace_area(v: WmView, id: u64) -> Dimensions {
    let (m, k) = choose|m: int, k: int|
        0 <= m < v.monitors.len() && 0 <= k < v.monitors[m].workspaces.len()
            && #[trigger] v.monitors[m].workspaces[k].clients.contains(id);
    v.monitors[m].workspaces[k].win_area
}

/// The window area of the first monitor that holds the client.
pub open spec fn client_area(v: WmView, id: u64) -> Option<Dimensions> {
    match first_monitor_with(v.monitors, id) {
        Some(m) => Some(v.monitors[m].config.win_area),
        None => None,
    }
}

/// In a well-formed state a client is on one workspace at most.
pub proof fn lemma_one_workspace(v: WmView, id: u64, m: int, k: int, m2: int, k2: int)
    requires
        v.wf(),
        0 <= m < v.monitors.len() && 0 <= k < v.monitors[m].workspaces.len(),
        0 <= m2 < v.monitors.len() && 0 <= k2 < v.monitors[m2].workspaces.len(),
        v.monitors[m].workspaces[k].clients.contains(id),
        v.monitors[m2].workspaces[k2].clients.contains(id),
    ensures
        m == m2 && k == k2,
{
    assert(v.monitors[m].contains(id));
    assert(v.monitors[m2].contains(id));
    assert(m == m2);
    assert(v.monitors[m].wf());
}

/// The state of the window manager.
pub struct WmState {
    config: Configuration,
    monitors: Vec<Monitor>,
    clients: Vec<u64>,
    active_client: Option<u64>,
}

impl View for WmState {
    type V = WmView;

    closed spec fn view(&self) -> WmView {
        WmView {
            config: self.config,
            monitors: self.monitors@.map_values(|m: Monitor| m@),
            clients: self.clients@,
            active: self.active_client,
        }
    }
}

impl WmState {
    /// A window manager without monitors and clients.
    pub fn new(config: Configuration) -> (s: WmState)
        ensures
            s@.wf(),
            s@.config == config,
            s@.monitors.len() == 0,
            s@.clients.len() == 0,
            s@.active is None,
    {
        let s = WmState { config, monitors: Vec::new(), clients: Vec::new(), active_client: None };
        assert(s@.monitors =~= Seq::<MonitorView>::empty());
        s
    }

    pub fn config(&self) -> (c: &Configuration)
        ensures
            *c == self@.config,
    {
        &self.config
    }

    /// The managed clients, in the order they were managed.
    pub fn clients(&self) -> (c: &Vec<u64>)
        ensures
            c@ == self@.clients,
    {
        &self.clients
    }

    pub fn active_client(&self) -> (a: Option<u64>)
        ensures
            a == self@.active,
    {
        self.active_client
    }

    pub fn monitor_count(&self) -> (n: usize)
        ensures
            n == self@.monitors.len(),
    {
        self.monitors.len()
    }

    /// Monitor `index`, if there is one.
    pub fn monitor(&self, index: usize) -> (m: Option<&Monitor>)
        ensures
            index < self@.monitors.len() ==> (m matches Some(mon) && mon@ == self@.monitors[index as int]),
            index >= self@.monitors.len() ==> m is None,
    {
        if index < self.monitors.len() {
            Some(&self.monitors[index])
        } else {
            None
        }
    }

    /// Monitor `index`, for changing it. Whatever the caller does to it, the other monitors and
    /// the rest of the state stay as they are.
    pub fn monitor_mut(&mut self, index: usize) -> (m: &mut Monitor)
        requires
            index < old(self)@.monitors.len(),
        ensures
            m@ == old(self)@.monitors[index as int],
            final(self)@ == (WmView {
                monitors: old(self)@.monitors.update(index as int, final(m)@),
                ..old(self)@
            }),
    {
        &mut self.monitors[index]
    }

    /// Index of the monitor that holds the client.
    pub fn get_monitor(&self, id: u64) -> (r: Option<usize>)
        ensures
            r matches Some(i) ==> first_monitor_with(self@.monitors, id) == Some(i as int),
            r is None ==> first_monitor_with(self@.monitors, id) is None,
    {
        let ghost ms = self@.monitors;
        let mut i: usize = 0;
        while i < self.monitors.len()
            invariant
                i <= self.monitors@.len(),
                ms == self@.monitors,
                forall|j: int| 0 <= j < i ==> !(#[trigger] ms[j]).contains(id),
            decreases self.monitors@.len() - i,
        {
            assert(ms[i as int] == self.monitors@[i as int]@);
            if self.monitors[i].contains(id) {
                proof {
                    lemma_first_monitor_at(ms, id, i as int);
                }
                return Some(i);
            }
            i += 1;
        }
        proof {
            lemma_first_monitor_with(ms, id);
            if let Some(j) = first_monitor_with(ms, id) {
                assert(!ms[j].contains(id));
            }
        }
        None
    }

    /// Manage a new client: it joins the managed clients and goes to a workspace (see
    /// [manage_placement]); returns the monitor it went to.
    pub fn manage(&mut self, id: u64, workspace_idx: u32, fallback_monitor: Option<u32>, current_monitor: usize) -> (placed: usize)
        requires
            old(self)@.wf(),
            !old(self)@.clients.contains(id),
            current_monitor < old(self)@.monitors.len(),
            monitors_have_workspaces(old(self)@.monitors),
            workspace_idx >= old(self)@.config.primary_workspaces ==> old(self)@.config.secondary_workspaces > 0
                && (workspace_idx - old(self)@.config.primary_workspaces) / (old(self)@.config.secondary_workspaces as int)
                < u32::MAX,
        ensures
            final(self)@.wf(),
            placed as int == manage_placement(old(self)@, workspace_idx, fallback_monitor, current_monitor as int).0,
            final(self)@ == managed_view(old(self)@, id, workspace_idx, fallback_monitor, current_monitor as int),
    {
        let ghost o = self@;
        proof {
            crate::workspace::lemma_push_back(o.clients, id);
            assert forall|m: int| 0 <= m < o.monitors.len() implies !(#[trigger] o.monitors[m]).contains(id) by {}
        }
        self.clients.push(id);
        let (mon, rel) = relative_workspace_idx(&self.config, workspace_idx);
        let placed = if mon < self.monitors.len() && rel < self.monitors[mon].workspace_count() {
            proof {
                assert(self@.monitors[mon as int] == o.monitors[mon as int]);
                lemma_moved_contains(o.monitors[mon as int], id, rel);
                crate::monitor::lemma_move_places_client(o.monitors[mon as int], id, rel);
            }
            let ghost pv = self@;
            self.monitors[mon].move_to_workspace(id, rel);
            proof {
                assert(self@.monitors =~= pv.monitors.update(mon as int, moved_view(o.monitors[mon as int], id, rel)));
            }
            mon
        } else {
            let target = match fallback_monitor {
                Some(f) => if (f as usize) < self.monitors.len() {
                    f as usize
                } else {
                    current_monitor
                },
                None => current_monitor,
            };
            proof {
                assert(self@.monitors[target as int] == o.monitors[target as int]);
                lemma_attached_contains(o.monitors[target as int], id);
            }
            let ghost pv = self@;
            self.monitors[target].attach_client(id);
            proof {
                assert(self@.monitors =~= pv.monitors.update(target as int, attached_view(o.monitors[target as int], id)));
            }
            target
        };
        proof {
            let p = manage_placement(o, workspace_idx, fallback_monitor, current_monitor as int);
            assert(placed as int == p.0);
            let n = placed_view(o.monitors[placed as int], id, p.1);
            assert(self@ =~= (WmView { monitors: o.monitors.update(placed as int, n), clients: o.clients.push(id), ..o }));
            assert(o.clients.push(id).contains(id)) by {
                assert(o.clients.push(id)[o.clients.len() as int] == id);
            }
            assert forall|x: u64| #[trigger] o.clients.contains(x) implies o.clients.push(id).contains(x) by {
                let k = choose|k: int| 0 <= k < o.clients.len() && o.clients[k] == x;
                assert(o.clients.push(id)[k] == x);
            }
            match p.1 {
                Some(r) => {
                    lemma_moved_contains(o.monitors[placed as int], id, r);
                },
                None => {
                    lemma_attached_contains(o.monitors[placed as int], id);
                },
            }
            lemma_replace_monitor(o, placed as int, n, id, o.clients.push(id));
        }
        placed
    }

    /// Show workspace `workspace_idx` (a global index): nothing happens (`None`) when it is
    /// shown on the current monitor already or its monitor does not exist. Otherwise its
    /// monitor shows it (with the pinned clients moving along, see [switched_view], unless it
    /// is shown there already), and the first fullscreen client on it, else its first client,
    /// becomes the active one.
    #[verifier::spinoff_prover]
    #[verifier::rlimit(40)]
    pub fn switch_workspace(&mut self, workspace_idx: u32, current_monitor: usize, table: &Vec<ClientFlags>) -> (r:
        Option<WmSwitch>)
        requires
            old(self)@.wf(),
            current_monitor < old(self)@.monitors.len(),
            monitors_have_workspaces(old(self)@.monitors),
            workspace_idx >= old(self)@.config.primary_workspaces ==> old(self)@.config.secondary_workspaces > 0
                && (workspace_idx - old(self)@.config.primary_workspaces) / (old(self)@.config.secondary_workspaces as int)
                < u32::MAX,
            ({
                let rel = spec_relative_workspace_idx(old(self)@.config, workspace_idx);
                rel.0 < old(self)@.monitors.len() ==> rel.1 < old(self)@.monitors[rel.0].workspaces.len()
            }),
        ensures
            final(self)@.wf(),
            switch_done(old(self)@, final(self)@, r, workspace_idx, current_monitor as int, table@),
    {
        let ghost o = self@;
        assert(o.monitors[current_monitor as int] == self.monitors@[current_monitor as int]@);
        if self.monitors[current_monitor].current_workspace().global_index() == workspace_idx {
            return None;
        }
        let (mon, rel) = relative_workspace_idx(&self.config, workspace_idx);
        if mon >= self.monitors.len() {
            return None;
        }
        let warp = mon != current_monitor;
        let ghost m = o.monitors[mon as int];
        assert(m == self.monitors@[mon as int]@);
        let ghost pv = self@;
        let switch = self.monitors[mon].switch_workspace(rel, table);
        proof {
            if rel != m.cur {
                assert(self@.monitors =~= pv.monitors.update(mon as int, switched_view(m, rel, table@)));
            } else {
                assert(self@.monitors =~= o.monitors);
            }
        }
        let shown = self.monitors[mon].current_workspace().clients().clone();
        let candidate = pick_focus(&shown, table);
        let focus = self.focus_client(candidate);
        proof {
            if rel != m.cur {
                let n = switched_view(m, rel, table@);
                lemma_switch_keeps_clients(m, rel, table@);
                lemma_wf_replace_same_clients(o, mon as int, n);
            }
            let nm = if rel != m.cur {
                switched_view(m, rel, table@)
            } else {
                m
            };
            assert(self@.monitors =~= o.monitors.update(mon as int, nm));
        }
        Some(WmSwitch { monitor: mon, warp, switch, shown, focus })
    }

    /// Take a client off every monitor (it stays managed).
    fn detach_everywhere(&mut self, id: u64)
        requires
            old(self)@.wf(),
        ensures
            final(self)@.wf(),
            final(self)@.monitors.len() == old(self)@.monitors.len(),
            forall|m: int| 0 <= m < old(self)@.monitors.len() ==> #[trigger] final(self)@.monitors[m] == detached_view(old(self)@.monitors[m], id),
            final(self)@.clients == old(self)@.clients,
            final(self)@.config == old(self)@.config,
            final(self)@.active == old(self)@.active,
            !final(self)@.on_monitors(id),
            forall|m: int, x: u64| 0 <= m < old(self)@.monitors.len() ==> (#[trigger] final(self)@.monitors[m].contains(x) <==> old(self)@.monitors[m].contains(x) && x != id),
    {
        let ghost o = self@;
        let mut i: usize = 0;
        while i < self.monitors.len()
            invariant
                i <= self.monitors@.len(),
                self@.monitors.len() == o.monitors.len(),
                o.wf(),
                self@.config == o.config,
                self@.active == o.active,
                self@.clients == o.clients,
                forall|m: int| 0 <= m < i ==> #[trigger] self@.monitors[m] == detached_view(o.monitors[m], id),
                forall|m: int| i <= m < self@.monitors.len() ==> #[trigger] self@.monitors[m] == o.monitors[m],
            decreases self.monitors@.len() - i,
        {
            let ghost pv = self@;
            assert(pv.monitors[i as int].wf()) by {
                assert(pv.monitors[i as int] == o.monitors[i as int]);
            }
            self.monitors[i].detach_client(id);
            proof {
                assert(self@.monitors =~= pv.monitors.update(i as int, detached_view(pv.monitors[i as int], id)));
            }
            i += 1;
        }
        proof {
            let n = self@;
            assert forall|m: int| 0 <= m < n.monitors.len() implies (#[trigger] n.monitors[m]).wf() && !n.monitors[m].contains(id)
                && forall|x: u64| #[trigger] n.monitors[m].contains(x) <==> o.monitors[m].contains(x) && x != id by {
                lemma_detached_monitor(o.monitors[m], id);
            }
            assert forall|m1: int, m2: int, x: u64|
                0 <= m1 < n.monitors.len() && 0 <= m2 < n.monitors.len() && m1 != m2 && #[trigger] n.monitors[m1].contains(x)
                    implies !#[trigger] n.monitors[m2].contains(x) by {
                assert(o.monitors[m1].contains(x));
            }
            assert forall|m: int, x: u64| 0 <= m < n.monitors.len() && #[trigger] n.monitors[m].contains(x) implies n.clients.contains(x) by {
                assert(o.monitors[m].contains(x));
            }
            if n.on_monitors(id) {
                let m = choose|m: int| 0 <= m < n.monitors.len() && #[trigger] n.monitors[m].contains(id);
                assert(!n.monitors[m].contains(id));
            }
        }
    }

    /// Move a client to workspace `workspace_idx` (a global index): nothing happens (`None`)
    /// when the workspace's monitor does not exist or the client is on no workspace. Otherwise
    /// the client leaves its workspace, goes first on the new one, and no client is active any
    /// more; the result says whether the client is to be hidden (its new workspace is not
    /// shown).
    pub fn move_to_workspace(&mut self, id: u64, workspace_idx: u32) -> (hidden: Option<bool>)
        requires
            old(self)@.wf(),
            workspace_idx >= old(self)@.config.primary_workspaces ==> old(self)@.config.secondary_workspaces > 0
                && (workspace_idx - old(self)@.config.primary_workspaces) / (old(self)@.config.secondary_workspaces as int)
                < u32::MAX,
            ({
                let rel = spec_relative_workspace_idx(old(self)@.config, workspace_idx);
                rel.0 < old(self)@.monitors.len() && old(self)@.on_monitors(id) ==> rel.1
                    < old(self)@.monitors[rel.0].workspaces.len()
            }),
        ensures
            final(self)@.wf(),
            ({
                let o = old(self)@;
                let rel = spec_relative_workspace_idx(o.config, workspace_idx);
                &&& hidden is None <==> (rel.0 >= o.monitors.len() || !o.on_monitors(id))
                &&& hidden is None ==> final(self)@ == o
                &&& hidden matches Some(h) ==> {
                    &&& h == (rel.1 != o.monitors[rel.0].cur)
                    &&& final(self)@.monitors.len() == o.monitors.len()
                    &&& forall|m: int| 0 <= m < o.monitors.len() ==> #[trigger] final(self)@.monitors[m] == if m == rel.0 {
                        moved_view(detached_view(o.monitors[m], id), id, rel.1 as u32)
                    } else {
                        detached_view(o.monitors[m], id)
                    }
                    &&& final(self)@.clients == o.clients
                    &&& final(self)@.config == o.config
                    &&& final(self)@.active is None
                }
            }),
    {
        let ghost o = self@;
        let (mon, rel) = relative_workspace_idx(&self.config, workspace_idx);
        if mon >= self.monitors.len() {
            return None;
        }
        match self.get_workspace(id) {
            None => {
                return None;
            },
            Some((m, k)) => {
                proof {
                    assert(o.monitors[m as int].workspaces[k as int].clients.contains(id));
                    assert(o.monitors[m as int].contains(id));
                    assert(o.on_monitors(id));
                    assert(o.clients.contains(id));
                }
            },
        }
        self.detach_everywhere(id);
        let ghost d = self@;
        proof {
            assert(d.monitors[mon as int] == self.monitors@[mon as int]@);
            lemma_detached_monitor(o.monitors[mon as int], id);
            assert(d.monitors[mon as int].workspaces.len() == o.monitors[mon as int].workspaces.len());
        }
        let ghost pv = self@;
        self.monitors[mon].move_to_workspace(id, rel);
        proof {
            let n = moved_view(d.monitors[mon as int], id, rel);
            assert(self@.monitors =~= pv.monitors.update(mon as int, n));
            lemma_moved_contains(d.monitors[mon as int], id, rel);
            crate::monitor::lemma_move_places_client(d.monitors[mon as int], id, rel);
            assert forall|m2: int| 0 <= m2 < d.monitors.len() && m2 != mon implies !(#[trigger] d.monitors[m2]).contains(id) by {}
            lemma_replace_monitor(d, mon as int, n, id, d.clients);
        }
        self.active_client = None;
        let cur = self.monitors[mon].current_workspace_index();
        Some(rel != cur)
    }

    /// A client moved onto monitor `monitor` (with the mouse): it leaves its workspace and goes
    /// first on the workspace shown there.
    pub fn client_switches_monitor(&mut self, id: u64, monitor: usize)
        requires
            old(self)@.wf(),
            old(self)@.clients.contains(id),
            monitor < old(self)@.monitors.len(),
            old(self)@.monitors[monitor as int].workspaces.len() > 0,
        ensures
            final(self)@.wf(),
            final(self)@.monitors.len() == old(self)@.monitors.len(),
            forall|m: int| 0 <= m < old(self)@.monitors.len() ==> #[trigger] final(self)@.monitors[m] == if m == monitor {
                attached_view(detached_view(old(self)@.monitors[m], id), id)
            } else {
                detached_view(old(self)@.monitors[m], id)
            },
            final(self)@.clients == old(self)@.clients,
            final(self)@.config == old(self)@.config,
            final(self)@.active == old(self)@.active,
    {
        let ghost o = self@;
        self.detach_everywhere(id);
        let ghost d = self@;
        proof {
            assert(d.monitors[monitor as int] == self.monitors@[monitor as int]@);
            lemma_detached_monitor(o.monitors[monitor as int], id);
        }
        let ghost pv = self@;
        self.monitors[monitor].attach_client(id);
        proof {
            let n = attached_view(d.monitors[monitor as int], id);
            assert(self@.monitors =~= pv.monitors.update(monitor as int, n));
            lemma_attached_contains(d.monitors[monitor as int], id);
            assert forall|m2: int| 0 <= m2 < d.monitors.len() && m2 != monitor implies !(#[trigger] d.monitors[m2]).contains(id) by {}
            lemma_replace_monitor(d, monitor as int, n, id, d.clients);
        }
    }

    /// Whether the client is on a workspace and not floating.
    pub fn is_tiled(&self, id: u64, table: &Vec<ClientFlags>) -> (b: bool)
        requires
            self@.wf(),
        ensures
            b == (self@.on_monitors(id) && !flags_of(table@, id).is_floating),
    {
        match self.get_workspace(id) {
            Some((m, k)) => {
                proof {
                    assert(self@.monitors[m as int].workspaces[k as int].clients.contains(id));
                    assert(self@.monitors[m as int].contains(id));
                }
                !lookup_flags(table, id).is_floating
            },
            None => false,
        }
    }

    /// The client to switch to from the active one on the shown workspace of monitor
    /// `current_monitor`: the most recently raised stack client if the active one is a main
    /// client, else the most recently raised main client; none when there is no active client,
    /// it is fullscreen, or it is not on that workspace.
    pub fn main_switch_target(&self, current_monitor: usize, table: &Vec<ClientFlags>) -> (r: Option<u64>)
        requires
            self@.wf(),
            current_monitor < self@.monitors.len(),
            self@.monitors[current_monitor as int].workspaces.len() > 0,
        ensures
            r == spec_main_switch_target(self@, current_monitor as int, table@),
    {
        let active = match self.active_client {
            Some(a) => a,
            None => return None,
        };
        if lookup_flags(table, active).is_fullscreen {
            return None;
        }
        assert(self@.monitors[current_monitor as int] == self.monitors@[current_monitor as int]@);
        let ws = self.monitors[current_monitor].current_workspace();
        if ws.contains(active) && ws.is_main(active) {
            ws.last_active_stack()
        } else if ws.contains(active) {
            ws.last_active_main()
        } else {
            None
        }
    }

    /// Put a client on top of the stacking order of the workspace shown on a monitor.
    fn raise_shown(&mut self, monitor: usize, id: u64)
        requires
            old(self)@.wf(),
            monitor < old(self)@.monitors.len(),
            old(self)@.monitors[monitor as int].workspaces.len() > 0,
        ensures
            final(self)@.wf(),
            final(self)@ == raised_on(old(self)@, monitor as int, id),
    {
        let ghost o = self@;
        assert(o.monitors[monitor as int] == self.monitors@[monitor as int]@);
        self.monitors[monitor].raise_current(id);
        proof {
            let n = raised_on(o, monitor as int, id).monitors[monitor as int];
            assert(self@.monitors =~= o.monitors.update(monitor as int, n));
            let om = o.monitors[monitor as int];
            assert forall|k: int| 0 <= k < n.workspaces.len() implies #[trigger] n.workspaces[k].clients
                == om.workspaces[k].clients by {}
            assert forall|x: u64| #[trigger] n.contains(x) <==> om.contains(x) by {
                if n.contains(x) {
                    let k = choose|k: int| 0 <= k < n.workspaces.len() && #[trigger] n.workspaces[k].clients.contains(x);
                    assert(om.workspaces[k].clients.contains(x));
                }
                if om.contains(x) {
                    let k = choose|k: int| 0 <= k < om.workspaces.len() && #[trigger] om.workspaces[k].clients.contains(x);
                    assert(n.workspaces[k].clients.contains(x));
                }
            }
            lemma_wf_replace_same_clients(o, monitor as int, n);
        }
    }

    /// Switch from the active client to the other area of the shown workspace (see
    /// [spec_main_switch_target]): that client goes on top of the stacking order; returns it
    /// (the pointer is to be moved there).
    pub fn switch_to_main(&mut self, current_monitor: usize, table: &Vec<ClientFlags>) -> (r: Option<u64>)
        requires
            old(self)@.wf(),
            current_monitor < old(self)@.monitors.len(),
            old(self)@.monitors[current_monitor as int].workspaces.len() > 0,
        ensures
            final(self)@.wf(),
            r == spec_main_switch_target(old(self)@, current_monitor as int, table@),
            r matches Some(c) ==> final(self)@ == raised_on(old(self)@, current_monitor as int, c),
            r is None ==> final(self)@ == old(self)@,
    {
        let target = self.main_switch_target(current_monitor, table);
        match target {
            Some(c) => {
                self.raise_shown(current_monitor, c);
                Some(c)
            },
            None => None,
        }
    }

    /// Cycle by `inc` through the clients that do not float on the shown workspace, from the
    /// active one (see [spec_cycle_target]): the client cycled to goes on top of the stacking
    /// order; returns it (the pointer is to be moved there).
    pub fn cycle_client(&mut self, current_monitor: usize, table: &Vec<ClientFlags>, inc: i32) -> (r: Option<u64>)
        requires
            old(self)@.wf(),
            current_monitor < old(self)@.monitors.len(),
            old(self)@.monitors[current_monitor as int].workspaces.len() > 0,
            ({
                let m = old(self)@.monitors[current_monitor as int];
                let n = select(m.workspaces[m.cur as int].clients, table@, |f: ClientFlags| not_floating(f)).len();
                &&& 2 * n <= i32_max()
                &&& i32_min() <= n + inc
                &&& 2 * n + inc <= i32_max() + 1
            }),
        ensures
            final(self)@.wf(),
            r == spec_cycle_target(old(self)@, current_monitor as int, table@, inc),
            r matches Some(c) ==> final(self)@ == raised_on(old(self)@, current_monitor as int, c),
            r is None ==> final(self)@ == old(self)@,
    {
        let active = match self.active_client {
            Some(a) => a,
            None => return None,
        };
        if lookup_flags(table, active).is_fullscreen {
            return None;
        }
        assert(self@.monitors[current_monitor as int] == self.monitors@[current_monitor as int]@);
        let tiled = self.monitors[current_monitor].current_workspace().tiled_clients(table);
        let old_idx = match position(&tiled, active) {
            Some(i) => i,
            None => return None,
        };
        proof {
            crate::seqs::lemma_position_is_first(tiled@, active, old_idx as int);
        }
        let n = tiled.len();
        let new_idx = crate::wm::cycle_client_index(old_idx, n, inc);
        let c = tiled[new_idx];
        self.raise_shown(current_monitor, c);
        Some(c)
    }

    /// Move a client to the monitor `inc` places after (or before) its own, wrapping around; it
    /// goes first on the workspace shown there. Returns that monitor; nothing happens (`None`)
    /// when the client is on no monitor.
    pub fn move_client_to_monitor(&mut self, id: u64, inc: i32) -> (target: Option<usize>)
        requires
            old(self)@.wf(),
            monitors_have_workspaces(old(self)@.monitors),
            first_monitor_with(old(self)@.monitors, id) matches Some(ci) ==> i32_min() <= (ci as i32) + inc <= i32_max(),
        ensures
            final(self)@.wf(),
            match first_monitor_with(old(self)@.monitors, id) {
                None => target is None && final(self)@ == old(self)@,
                Some(ci) => target matches Some(t) && t == (((ci as i32) + inc) as usize) % (old(self)@.monitors.len() as usize) && {
                    let d = old(self)@.monitors.update(ci, detached_view(old(self)@.monitors[ci], id));
                    &&& final(self)@.monitors == d.update(t as int, attached_view(d[t as int], id))
                    &&& final(self)@.clients == old(self)@.clients
                    &&& final(self)@.config == old(self)@.config
                    &&& final(self)@.active == old(self)@.active
                },
            },
    {
        let ghost o = self@;
        let ci = match self.get_monitor(id) {
            Some(ci) => ci,
            None => return None,
        };
        proof {
            lemma_first_monitor_with(o.monitors, id);
            assert(o.clients.contains(id));
        }
        let n = self.monitors.len();
        let t = cycle_monitor_index(ci, n, inc);
        assert(o.monitors[ci as int] == self.monitors@[ci as int]@);
        let ghost pv = self@;
        self.monitors[ci].detach_client(id);
        let ghost d = self@;
        proof {
            assert(d.monitors =~= o.monitors.update(ci as int, detached_view(o.monitors[ci as int], id)));
            lemma_detached_monitor(o.monitors[ci as int], id);
            assert forall|x: u64| #[trigger] detached_view(o.monitors[ci as int], id).contains(x) implies o.monitors[ci as int].contains(x) || x == id by {}
            lemma_replace_monitor(o, ci as int, detached_view(o.monitors[ci as int], id), id, o.clients);
            assert(d.monitors[t as int] == self.monitors@[t as int]@);
            assert(!d.monitors[t as int].contains(id)) by {
                if t == ci {
                } else {
                    assert(d.monitors[t as int] == o.monitors[t as int]);
                }
            }
            assert(d.monitors[t as int].workspaces.len() > 0);
        }
        self.monitors[t].attach_client(id);
        proof {
            let a = attached_view(d.monitors[t as int], id);
            assert(self@.monitors =~= d.monitors.update(t as int, a));
            lemma_attached_contains(d.monitors[t as int], id);
            assert forall|m2: int| 0 <= m2 < d.monitors.len() && m2 != t implies !(#[trigger] d.monitors[m2]).contains(id) by {
                if m2 == ci {
                } else {
                    assert(d.monitors[m2] == o.monitors[m2]);
                }
            }
            lemma_replace_monitor(d, t as int, a, id, d.clients);
        }
        Some(t)
    }

    /// The name of every workspace with the area of its monitor and the area that windows may
    /// occupy there, monitor after monitor.
    pub fn workspace_info(&self) -> (r: Vec<(String, Dimensions, Dimensions)>)
        ensures
            r@.len() == workspace_entries(self@.monitors).len(),
            forall|i: int| 0 <= i < r@.len() ==> (#[trigger] r@[i]).0@ == workspace_entries(self@.monitors)[i].0
                && r@[i].1 == workspace_entries(self@.monitors)[i].1 && r@[i].2 == workspace_entries(self@.monitors)[i].2,
    {
        let ghost ms = self@.monitors;
        let mut r: Vec<(String, Dimensions, Dimensions)> = Vec::new();
        let mut i: usize = 0;
        assert(ms.take(0) =~= Seq::<MonitorView>::empty());
        while i < self.monitors.len()
            invariant
                i <= self.monitors@.len(),
                ms == self@.monitors,
                r@.len() == workspace_entries(ms.take(i as int)).len(),
                forall|q: int| 0 <= q < r@.len() ==> (#[trigger] r@[q]).0@ == workspace_entries(ms.take(i as int))[q].0
                    && r@[q].1 == workspace_entries(ms.take(i as int))[q].1 && r@[q].2 == workspace_entries(ms.take(i as int))[q].2,
            decreases self.monitors@.len() - i,
        {
            let ghost before = r@;
            let ghost prefix = workspace_entries(ms.take(i as int));
            let m = &self.monitors[i];
            assert(ms[i as int] == m@);
            let dims = m.dimensions();
            let area = m.window_area();
            let wss = m.workspaces();
            let mut k: usize = 0;
            while k < wss.len()
                invariant
                    k <= wss@.len(),
                    wss@.len() == m@.workspaces.len(),
                    forall|q: int| 0 <= q < wss@.len() ==> #[trigger] wss@[q]@ == m@.workspaces[q],
                    dims == m@.config.dims,
                    area == m@.config.win_area,
                    r@.len() == before.len() + k,
                    forall|q: int| 0 <= q < before.len() ==> #[trigger] r@[q] == before[q],
                    forall|q: int| 0 <= q < k ==> (#[trigger] r@[before.len() + q]).0@ == m@.workspaces[q].name
                        && r@[before.len() + q].1 == dims && r@[before.len() + q].2 == area,
                decreases wss@.len() - k,
            {
                let name = wss[k].name().to_string();
                r.push((name, dims, area));
                k += 1;
            }
            proof {
                assert(ms.take(i + 1).drop_last() =~= ms.take(i as int));
                assert(ms.take(i + 1).last() == m@);
                let ext = workspace_entries(ms.take(i + 1));
                assert(ext == prefix + m@.workspaces.map_values(|w: crate::workspace::WorkspaceView| (w.name, m@.config.dims, m@.config.win_area)));
                assert forall|q: int| 0 <= q < r@.len() implies (#[trigger] r@[q]).0@ == ext[q].0 && r@[q].1 == ext[q].1 && r@[q].2 == ext[q].2 by {
                    if q >= before.len() {
                        assert(r@[before.len() + (q - before.len())] == r@[q]);
                    }
                }
            }
            i += 1;
        }
        assert(ms.take(ms.len() as int) =~= ms);
        r
    }

    /// The clients of all monitors, monitor after monitor (each in the order of its
    /// workspaces).
    pub fn clients_stacked(&self) -> (r: Vec<u64>)
        ensures
            r@ == monitors_clients(self@.monitors),
    {
        let ghost ms = self@.monitors;
        let mut r: Vec<u64> = Vec::new();
        let mut i: usize = 0;
        assert(ms.take(0) =~= Seq::<MonitorView>::empty());
        while i < self.monitors.len()
            invariant
                i <= self.monitors@.len(),
                ms == self@.monitors,
                r@ == monitors_clients(ms.take(i as int)),
            decreases self.monitors@.len() - i,
        {
            assert(ms[i as int] == self.monitors@[i as int]@);
            let cs = self.monitors[i].clients();
            let ghost before = r@;
            let mut k: usize = 0;
            while k < cs.len()
                invariant
                    k <= cs@.len(),
                    r@ == before + cs@.take(k as int),
                decreases cs@.len() - k,
            {
                r.push(cs[k]);
                assert(before + cs@.take(k + 1) =~= (before + cs@.take(k as int)).push(cs@[k as int]));
                k += 1;
            }
            proof {
                assert(cs@.take(cs@.len() as int) =~= cs@);
                assert(ms.take(i + 1).drop_last() =~= ms.take(i as int));
                assert(ms.take(i + 1).last() == ms[i as int]);
            }
            i += 1;
        }
        assert(ms.take(ms.len() as int) =~= ms);
        r
    }

    /// Move every client of monitor `from` to the shown workspace of monitor `to`.
    fn transfer_clients(&mut self, from: usize, to: usize)
        requires
            old(self)@.wf(),
            from < old(self)@.monitors.len(),
            to < old(self)@.monitors.len(),
            from != to,
            old(self)@.monitors[to as int].workspaces.len() > 0,
        ensures
            final(self)@.wf(),
            final(self)@.monitors.len() == old(self)@.monitors.len(),
            final(self)@.clients == old(self)@.clients,
            final(self)@.config == old(self)@.config,
            final(self)@.active == old(self)@.active,
            forall|x: u64| !(#[trigger] final(self)@.monitors[from as int].contains(x)),
            forall|x: u64| #[trigger] final(self)@.monitors[to as int].contains(x) <==> old(self)@.monitors[to as int].contains(x)
                || old(self)@.monitors[from as int].contains(x),
            forall|m: int| 0 <= m < old(self)@.monitors.len() && m != from && m != to ==> #[trigger] final(self)@.monitors[m]
                == old(self)@.monitors[m],
            final(self)@.monitors[to as int].config == old(self)@.monitors[to as int].config,
            final(self)@.monitors[to as int].workspaces.len() == old(self)@.monitors[to as int].workspaces.len(),
            final(self)@.monitors[from as int].config == old(self)@.monitors[from as int].config,
            final(self)@.monitors[to as int].cur == old(self)@.monitors[to as int].cur,
            forall|k: int, x: u64|
                0 <= k < old(self)@.monitors[to as int].workspaces.len() && k != old(self)@.monitors[to as int].cur ==> (
                #[trigger] final(self)@.monitors[to as int].workspaces[k].clients.contains(x)
                    <==> old(self)@.monitors[to as int].workspaces[k].clients.contains(x)),
            forall|x: u64| #[trigger] final(self)@.monitors[to as int].workspaces[old(self)@.monitors[to as int].cur as int].clients.contains(x)
                <==> old(self)@.monitors[to as int].workspaces[old(self)@.monitors[to as int].cur as int].clients.contains(x)
                || old(self)@.monitors[from as int].contains(x),
    {
        let ghost o = self@;
        let ghost cur = o.monitors[to as int].cur as int;
        assert(o.monitors[from as int] == self.monitors@[from as int]@);
        let moving = self.monitors[from].clients();
        proof {
            lemma_all_clients_contains(o.monitors[from as int].workspaces);
        }
        let mut j: usize = 0;
        while j < moving.len()
            invariant
                j <= moving@.len(),
                forall|x: u64| #[trigger] moving@.contains(x) <==> o.monitors[from as int].contains(x),
                self@.wf(),
                self@.monitors.len() == o.monitors.len(),
                self@.clients == o.clients,
                self@.config == o.config,
                self@.active == o.active,
                from < o.monitors.len(),
                to < o.monitors.len(),
                from != to,
                forall|m: int| 0 <= m < o.monitors.len() && m != from && m != to ==> #[trigger] self@.monitors[m] == o.monitors[m],
                self@.monitors[to as int].config == o.monitors[to as int].config,
                self@.monitors[to as int].workspaces.len() == o.monitors[to as int].workspaces.len(),
                o.monitors[to as int].workspaces.len() > 0,
                self@.monitors[from as int].config == o.monitors[from as int].config,
                forall|x: u64| #[trigger] self@.monitors[from as int].contains(x) <==> o.monitors[from as int].contains(x)
                    && !moving@.take(j as int).contains(x),
                forall|x: u64| #[trigger] self@.monitors[to as int].contains(x) <==> o.monitors[to as int].contains(x)
                    || (o.monitors[from as int].contains(x) && moving@.take(j as int).contains(x)),
                cur == o.monitors[to as int].cur,
                self@.monitors[to as int].cur == cur,
                forall|k: int, x: u64|
                    0 <= k < o.monitors[to as int].workspaces.len() && k != cur ==> (
                    #[trigger] self@.monitors[to as int].workspaces[k].clients.contains(x)
                        <==> o.monitors[to as int].workspaces[k].clients.contains(x)),
                forall|x: u64| #[trigger] self@.monitors[to as int].workspaces[cur].clients.contains(x)
                    <==> o.monitors[to as int].workspaces[cur].clients.contains(x)
                    || (o.monitors[from as int].contains(x) && moving@.take(j as int).contains(x)),
            decreases moving@.len() - j,
        {
            let x = moving[j];
            let ghost s0 = self@;
            proof {
                assert(moving@.take(j + 1) =~= moving@.take(j as int) + seq![x]);
                crate::seqs::lemma_concat_contains(moving@.take(j as int), seq![x]);
                assert(s0.monitors[from as int] == self.monitors@[from as int]@);
                assert(s0.monitors[to as int] == self.monitors@[to as int]@);
            }
            if self.monitors[from].contains(x) {
                self.monitors[from].detach_client(x);
                let ghost s1 = self@;
                proof {
                    assert(s1.monitors =~= s0.monitors.update(from as int, detached_view(s0.monitors[from as int], x)));
                    lemma_detached_monitor(s0.monitors[from as int], x);
                    assert forall|y: u64| #[trigger] detached_view(s0.monitors[from as int], x).contains(y) implies s0.monitors[from as int].contains(y) || y == x by {}
                    assert(s0.clients.contains(x));
                    lemma_replace_monitor(s0, from as int, detached_view(s0.monitors[from as int], x), x, s0.clients);
                    assert(!s1.monitors[to as int].contains(x)) by {
                        assert(s1.monitors[to as int] == s0.monitors[to as int]);
                        assert(s0.monitors[from as int].contains(x));
                    }
                    assert(s1.monitors[to as int] == self.monitors@[to as int]@);
                    assert(s1.monitors[to as int].workspaces.len() > 0);
                }
                self.monitors[to].attach_client(x);
                proof {
                    let a = attached_view(s1.monitors[to as int], x);
                    assert(self@.monitors =~= s1.monitors.update(to as int, a));
                    lemma_attached_contains(s1.monitors[to as int], x);
                    assert forall|m2: int| 0 <= m2 < s1.monitors.len() && m2 != to implies !(#[trigger] s1.monitors[m2]).contains(x) by {
                        if m2 != from {
                            assert(s1.monitors[m2] == s0.monitors[m2]);
                            assert(s0.monitors[from as int].contains(x));
                        }
                    }
                    lemma_replace_monitor(s1, to as int, a, x, s1.clients);
                    assert forall|y: u64| #[trigger] self@.monitors[from as int].contains(y) <==> o.monitors[from as int].contains(y)
                        && !moving@.take(j + 1).contains(y) by {
                        assert(self@.monitors[from as int] == s1.monitors[from as int]);
                        assert(seq![x].contains(y) <==> y == x) by {
                            if seq![x].contains(y) {
                                let k = choose|k: int| 0 <= k < 1 && seq![x][k] == y;
                            }
                            if y == x {
                                assert(seq![x][0] == x);
                            }
                        }
                    }
                    assert forall|y: u64| #[trigger] self@.monitors[to as int].contains(y) <==> o.monitors[to as int].contains(y)
                        || (o.monitors[from as int].contains(y) && moving@.take(j + 1).contains(y)) by {
                        assert(seq![x].contains(y) <==> y == x) by {
                            if seq![x].contains(y) {
                                let k = choose|k: int| 0 <= k < 1 && seq![x][k] == y;
                            }
                            if y == x {
                                assert(seq![x][0] == x);
                            }
                        }
                    }
                    let cw = s1.monitors[to as int].workspaces[cur];
                    assert(self@.monitors[to as int].workspaces[cur].clients == seq![x] + cw.clients);
                    crate::seqs::lemma_concat_contains(seq![x], cw.clients);
                    assert forall|y: u64| #[trigger] self@.monitors[to as int].workspaces[cur].clients.contains(y)
                        <==> o.monitors[to as int].workspaces[cur].clients.contains(y)
                        || (o.monitors[from as int].contains(y) && moving@.take(j + 1).contains(y)) by {
                        assert(seq![x].contains(y) <==> y == x) by {
                            if seq![x].contains(y) {
                                let k = choose|k: int| 0 <= k < 1 && seq![x][k] == y;
                            }
                            if y == x {
                                assert(seq![x][0] == x);
                            }
                        }
                    }
                }
            } else {
                proof {
                    assert forall|y: u64| #[trigger] self@.monitors[from as int].contains(y) <==> o.monitors[from as int].contains(y)
                        && !moving@.take(j + 1).contains(y) by {
                        assert(seq![x].contains(y) <==> y == x) by {
                            if seq![x].contains(y) {
                                let k = choose|k: int| 0 <= k < 1 && seq![x][k] == y;
                            }
                            if y == x {
                                assert(seq![x][0] == x);
                            }
                        }
                    }
                    assert forall|y: u64| #[trigger] self@.monitors[to as int].contains(y) <==> o.monitors[to as int].contains(y)
                        || (o.monitors[from as int].contains(y) && moving@.take(j + 1).contains(y)) by {
                        assert(seq![x].contains(y) <==> y == x) by {
                            if seq![x].contains(y) {
                                let k = choose|k: int| 0 <= k < 1 && seq![x][k] == y;
                            }
                            if y == x {
                                assert(seq![x][0] == x);
                            }
                        }
                        if y == x && o.monitors[from as int].contains(x) {
                            assert(!self@.monitors[from as int].contains(x));
                        }
                    }
                    assert forall|y: u64| #[trigger] self@.monitors[to as int].workspaces[cur].clients.contains(y)
                        <==> o.monitors[to as int].workspaces[cur].clients.contains(y)
                        || (o.monitors[from as int].contains(y) && moving@.take(j + 1).contains(y)) by {
                        assert(seq![x].contains(y) <==> y == x) by {
                            if seq![x].contains(y) {
                                let k = choose|k: int| 0 <= k < 1 && seq![x][k] == y;
                            }
                            if y == x {
                                assert(seq![x][0] == x);
                            }
                        }
                        if y == x && o.monitors[from as int].contains(x) {
                            assert(!self@.monitors[from as int].contains(x));
                        }
                    }
                }
            }
            j += 1;
        }
        assert(moving@.take(moving@.len() as int) =~= moving@);
    }

    /// Follow a new monitor configuration (nothing happens when there is no monitor): with
    /// fewer monitors, the clients of the monitors that go away move to the shown workspace of
    /// the last monitor that stays; with more monitors, new ones are made with their workspaces
    /// numbered after those of the monitors before them; every monitor takes its new
    /// configuration.
    #[verifier::rlimit(40)]
    pub fn update_monitor_config(&mut self, configs: Vec<MonitorConfig>)
        requires
            old(self)@.wf(),
            monitors_have_workspaces(old(self)@.monitors),
            forall|i: int|
                old(self)@.monitors.len() <= i < configs@.len() ==> #[trigger] spec_workspace_offset(old(self)@.config, i) + (
                if i == 0 {
                    old(self)@.config.primary_workspaces
                } else {
                    old(self)@.config.secondary_workspaces
                }) <= u32::MAX,
        ensures
            final(self)@.wf(),
            final(self)@.clients == old(self)@.clients,
            final(self)@.config == old(self)@.config,
            final(self)@.active == old(self)@.active,
            configs@.len() == 0 ==> final(self)@ == old(self)@,
            configs@.len() > 0 ==> {
                let o = old(self)@;
                let n = configs@.len();
                let shrink = n < o.monitors.len();
                &&& final(self)@.monitors.len() == n
                &&& forall|i: int| 0 <= i < n ==> (#[trigger] final(self)@.monitors[i]).config == configs@[i]
                &&& forall|x: u64| #[trigger] final(self)@.on_monitors(x) <==> o.on_monitors(x)
                &&& forall|i: int|
                    0 <= i < n && i < o.monitors.len() && !(shrink && i == n - 1) ==> #[trigger] final(self)@.monitors[i]
                        == reconfigured_view(o.monitors[i], configs@[i])
                &&& forall|i: int|
                    o.monitors.len() <= i < n ==> {
                        &&& (#[trigger] final(self)@.monitors[i]).offset == spec_workspace_offset(o.config, i)
                        &&& final(self)@.monitors[i].workspaces.len() == if i == 0 {
                            o.config.primary_workspaces
                        } else {
                            o.config.secondary_workspaces
                        }
                        &&& forall|x: u64| !final(self)@.monitors[i].contains(x)
                    }
                &&& shrink ==> {
                    let l = final(self)@.monitors[n - 1];
                    let ol = o.monitors[n - 1];
                    let c = ol.cur as int;
                    &&& l.cur == ol.cur
                    &&& l.workspaces.len() == ol.workspaces.len()
                    &&& forall|k: int, x: u64|
                        0 <= k < ol.workspaces.len() && k != c ==> (#[trigger] l.workspaces[k].clients.contains(x)
                            <==> ol.workspaces[k].clients.contains(x))
                    &&& forall|x: u64| #[trigger] l.workspaces[c].clients.contains(x) <==> ol.workspaces[c].clients.contains(x)
                        || exists|m: int| n <= m < o.monitors.len() && #[trigger] o.monitors[m].contains(x)
                }
            },
    {
        if configs.len() == 0 {
            return;
        }
        let ghost o = self@;
        let n = configs.len();
        let count = self.monitors.len();
        if n < count {
            let last = n - 1;
            let mut i = n;
            while i < count
                invariant
                    n <= i <= count,
                    last == n - 1,
                    count == o.monitors.len(),
                    self@.wf(),
                    self@.monitors.len() == count,
                    self@.clients == o.clients,
                    self@.config == o.config,
                    self@.active == o.active,
                    self@.monitors[last as int].config == o.monitors[last as int].config,
                    self@.monitors[last as int].workspaces.len() == o.monitors[last as int].workspaces.len(),
                    o.monitors[last as int].workspaces.len() > 0,
                    forall|m: int| 0 <= m < last ==> #[trigger] self@.monitors[m] == o.monitors[m],
                    forall|m: int| n <= m < i ==> forall|x: u64| !(#[trigger] self@.monitors[m]).contains(x),
                    forall|m: int| i <= m < count ==> #[trigger] self@.monitors[m] == o.monitors[m],
                    forall|x: u64| #[trigger] self@.on_monitors(x) <==> o.on_monitors(x),
                    forall|x: u64| #[trigger] self@.monitors[last as int].contains(x) <==> o.monitors[last as int].contains(x)
                        || exists|m: int| n <= m < i && #[trigger] o.monitors[m].contains(x),
                    self@.monitors[last as int].cur == o.monitors[last as int].cur,
                    forall|k: int, x: u64|
                        0 <= k < o.monitors[last as int].workspaces.len() && k != o.monitors[last as int].cur ==> (
                        #[trigger] self@.monitors[last as int].workspaces[k].clients.contains(x)
                            <==> o.monitors[last as int].workspaces[k].clients.contains(x)),
                    forall|x: u64| #[trigger] self@.monitors[last as int].workspaces[o.monitors[last as int].cur as int].clients.contains(x)
                        <==> o.monitors[last as int].workspaces[o.monitors[last as int].cur as int].clients.contains(x)
                        || exists|m: int| n <= m < i && #[trigger] o.monitors[m].contains(x),
                decreases count - i,
            {
                let ghost s0 = self@;
                self.transfer_clients(i, last);
                proof {
                    let s1 = self@;
                    assert forall|x: u64| #[trigger] s1.on_monitors(x) <==> o.on_monitors(x) by {
                        if s1.on_monitors(x) {
                            let m = choose|m: int| 0 <= m < s1.monitors.len() && #[trigger] s1.monitors[m].contains(x);
                            if m == last {
                                if !s0.monitors[last as int].contains(x) {
                                    assert(s0.monitors[i as int].contains(x));
                                }
                            } else {
                                assert(s0.monitors[m].contains(x));
                            }
                            assert(s0.on_monitors(x));
                        }
                        if s0.on_monitors(x) {
                            let m = choose|m: int| 0 <= m < s0.monitors.len() && #[trigger] s0.monitors[m].contains(x);
                            if m == i || m == last {
                                assert(s1.monitors[last as int].contains(x));
                            } else {
                                assert(s1.monitors[m].contains(x));
                            }
                        }
                    }
                    let c = o.monitors[last as int].cur as int;
                    assert forall|x: u64| #[trigger] s1.monitors[last as int].workspaces[c].clients.contains(x)
                        <==> o.monitors[last as int].workspaces[c].clients.contains(x)
                        || exists|m: int| n <= m < i + 1 && #[trigger] o.monitors[m].contains(x) by {
                        if o.monitors[i as int].contains(x) {
                            assert(s0.monitors[i as int] == o.monitors[i as int]);
                        }
                        if exists|m: int| n <= m < i + 1 && #[trigger] o.monitors[m].contains(x) {
                            let m = choose|m: int| n <= m < i + 1 && #[trigger] o.monitors[m].contains(x);
                            if m < i {
                                assert(s0.monitors[last as int].workspaces[c].clients.contains(x));
                            } else {
                                assert(s0.monitors[i as int] == o.monitors[i as int]);
                            }
                        }
                    }
                    assert forall|x: u64| #[trigger] s1.monitors[last as int].contains(x) <==> o.monitors[last as int].contains(x)
                        || exists|m: int| n <= m < i + 1 && #[trigger] o.monitors[m].contains(x) by {
                        if o.monitors[i as int].contains(x) {
                            assert(s0.monitors[i as int] == o.monitors[i as int]);
                        }
                        if exists|m: int| n <= m < i + 1 && #[trigger] o.monitors[m].contains(x) {
                            let m = choose|m: int| n <= m < i + 1 && #[trigger] o.monitors[m].contains(x);
                            if m < i {
                                assert(s0.monitors[last as int].contains(x));
                            } else {
                                assert(s0.monitors[i as int] == o.monitors[i as int]);
                            }
                        }
                    }
                }
                i += 1;
            }
            let ghost s2 = self@;
            self.monitors.truncate(n);
            proof {
                assert(self@.monitors =~= s2.monitors.take(n as int));
                let s3 = self@;
                assert(s3.monitors[last as int] == s2.monitors[last as int]);
                assert forall|x: u64| #[trigger] s3.on_monitors(x) <==> o.on_monitors(x) by {
                    if s2.on_monitors(x) {
                        let m = choose|m: int| 0 <= m < s2.monitors.len() && #[trigger] s2.monitors[m].contains(x);
                        assert(m < n);
                        assert(s3.monitors[m] == s2.monitors[m]);
                    }
                    if s3.on_monitors(x) {
                        let m = choose|m: int| 0 <= m < s3.monitors.len() && #[trigger] s3.monitors[m].contains(x);
                        assert(s2.monitors[m] == s3.monitors[m]);
                    }
                }
                assert forall|m: int| 0 <= m < s3.monitors.len() implies (#[trigger] s3.monitors[m]).wf() by {
                    assert(s2.monitors[m] == s3.monitors[m]);
                }
                assert forall|m1: int, m2: int, x: u64|
                    0 <= m1 < s3.monitors.len() && 0 <= m2 < s3.monitors.len() && m1 != m2 && #[trigger] s3.monitors[m1].contains(x)
                        implies !#[trigger] s3.monitors[m2].contains(x) by {
                    assert(s2.monitors[m1] == s3.monitors[m1]);
                    assert(s2.monitors[m2] == s3.monitors[m2]);
                }
                assert forall|m: int, x: u64| 0 <= m < s3.monitors.len() && #[trigger] s3.monitors[m].contains(x) implies s3.clients.contains(x) by {
                    assert(s2.monitors[m] == s3.monitors[m]);
                }
            }
        }
        let ghost s4 = self@;
        let ghost cfgs = configs@;
        let mut configs = configs;
        let mut i: usize = 0;
        while configs.len() > 0
            invariant
                configs@ == cfgs.skip(i as int),
                i <= cfgs.len(),
                cfgs.len() == n,
                configs@.len() == n - i,
                self@.wf(),
                self@.clients == o.clients,
                self@.config == o.config,
                self@.active == o.active,
                s4.monitors.len() == if n < count {
                    n as int
                } else {
                    count as int
                },
                self@.monitors.len() == if i < s4.monitors.len() {
                    s4.monitors.len() as int
                } else {
                    i as int
                },
                forall|m: int| 0 <= m < i && m < s4.monitors.len() ==> #[trigger] self@.monitors[m] == reconfigured_view(s4.monitors[m], cfgs[m]),
                forall|m: int| i <= m < s4.monitors.len() ==> #[trigger] self@.monitors[m] == s4.monitors[m],
                forall|m: int| s4.monitors.len() <= m < i ==> {
                    &&& (#[trigger] self@.monitors[m]).config == cfgs[m]
                    &&& self@.monitors[m].offset == spec_workspace_offset(o.config, m)
                    &&& self@.monitors[m].workspaces.len() == if m == 0 {
                        o.config.primary_workspaces
                    } else {
                        o.config.secondary_workspaces
                    }
                    &&& forall|x: u64| !self@.monitors[m].contains(x)
                },
                forall|x: u64| #[trigger] self@.on_monitors(x) <==> s4.on_monitors(x),
                forall|q: int|
                    o.monitors.len() <= q < n ==> #[trigger] spec_workspace_offset(o.config, q) + (if q == 0 {
                        o.config.primary_workspaces
                    } else {
                        o.config.secondary_workspaces
                    }) <= u32::MAX,
                o.monitors.len() == count,
            decreases configs@.len(),
        {
            let c = configs.remove(0);
            proof {
                assert(configs@ =~= cfgs.skip(i + 1));
                assert(c == cfgs[i as int]);
            }
            let ghost s5 = self@;
            if i < self.monitors.len() {
                assert(s5.monitors[i as int] == self.monitors@[i as int]@);
                self.monitors[i].update_config(c);
                proof {
                    let r = reconfigured_view(s5.monitors[i as int], cfgs[i as int]);
                    assert(self@.monitors =~= s5.monitors.update(i as int, r));
                    lemma_reconfigured_contains(s5.monitors[i as int], cfgs[i as int]);
                    lemma_wf_replace_same_clients(s5, i as int, r);
                    assert forall|x: u64| #[trigger] self@.on_monitors(x) <==> s4.on_monitors(x) by {
                        if self@.on_monitors(x) {
                            let m = choose|m: int| 0 <= m < self@.monitors.len() && #[trigger] self@.monitors[m].contains(x);
                            if m != i {
                                assert(s5.monitors[m] == self@.monitors[m]);
                            }
                            assert(s5.on_monitors(x));
                        }
                        if s5.on_monitors(x) {
                            let m = choose|m: int| 0 <= m < s5.monitors.len() && #[trigger] s5.monitors[m].contains(x);
                            if m != i {
                                assert(s5.monitors[m] == self@.monitors[m]);
                                assert(self@.monitors[m].contains(x));
                            } else {
                                assert(self@.monitors[i as int] == r);
                                assert(r.contains(x));
                                assert(self@.monitors[m].contains(x));
                            }
                            assert(self@.on_monitors(x));
                        }
                    }
                }
            } else {
                let off = workspace_offset(&self.config, i);
                let mon = Monitor::new(c, &self.config, i == 0, off);
                proof {
                    assert forall|x: u64| !mon@.contains(x) by {
                        if mon@.contains(x) {
                            let k = choose|k: int| 0 <= k < mon@.workspaces.len() && #[trigger] mon@.workspaces[k].clients.contains(x);
                            assert(mon@.workspaces[k].clients =~= Seq::<u64>::empty());
                        }
                    }
                }
                self.monitors.push(mon);
                proof {
                    assert(self@.monitors =~= s5.monitors.push(mon@));
                    let w = self@;
                    assert forall|m: int| 0 <= m < w.monitors.len() implies (#[trigger] w.monitors[m]).wf() by {
                        if m < s5.monitors.len() {
                            assert(w.monitors[m] == s5.monitors[m]);
                        }
                    }
                    assert forall|m1: int, m2: int, x: u64|
                        0 <= m1 < w.monitors.len() && 0 <= m2 < w.monitors.len() && m1 != m2 && #[trigger] w.monitors[m1].contains(x)
                            implies !#[trigger] w.monitors[m2].contains(x) by {
                        if m1 < s5.monitors.len() && m2 < s5.monitors.len() {
                            assert(w.monitors[m1] == s5.monitors[m1]);
                            assert(w.monitors[m2] == s5.monitors[m2]);
                        } else if m1 < s5.monitors.len() {
                            assert(w.monitors[m2] == mon@);
                        } else {
                            assert(w.monitors[m1] == mon@);
                        }
                    }
                    assert forall|m: int, x: u64| 0 <= m < w.monitors.len() && #[trigger] w.monitors[m].contains(x) implies w.clients.contains(x) by {
                        if m < s5.monitors.len() {
                            assert(w.monitors[m] == s5.monitors[m]);
                        } else {
                            assert(w.monitors[m] == mon@);
                        }
                    }
                    assert forall|x: u64| #[trigger] w.on_monitors(x) <==> s4.on_monitors(x) by {
                        if w.on_monitors(x) {
                            let m = choose|m: int| 0 <= m < w.monitors.len() && #[trigger] w.monitors[m].contains(x);
                            if m < s5.monitors.len() {
                                assert(s5.monitors[m] == w.monitors[m]);
                                assert(s5.on_monitors(x));
                            } else {
                                assert(w.monitors[m] == mon@);
                            }
                        }
                        if s5.on_monitors(x) {
                            let m = choose|m: int| 0 <= m < s5.monitors.len() && #[trigger] s5.monitors[m].contains(x);
                            assert(s5.monitors[m] == w.monitors[m]);
                        }
                    }
                }
            }
            i += 1;
        }
        proof {
            let f = self@;
            if n < o.monitors.len() {
                let q = n - 1;
                assert(f.monitors[q] == reconfigured_view(s4.monitors[q], cfgs[q]));
            }
            assert forall|q: int| 0 <= q < n implies (#[trigger] f.monitors[q]).config == cfgs[q] by {
                if q < s4.monitors.len() {
                    assert(f.monitors[q] == reconfigured_view(s4.monitors[q], cfgs[q]));
                }
            }
            assert forall|q: int|
                0 <= q < n && q < o.monitors.len() && !(n < o.monitors.len() && q == n - 1) implies #[trigger] f.monitors[q]
                    == reconfigured_view(o.monitors[q], cfgs[q]) by {
                assert(f.monitors[q] == reconfigured_view(s4.monitors[q], cfgs[q]));
            }
        }
    }

    /// Make a client the active one (or none). Nothing changes when it is active already.
    pub fn focus_client(&mut self, client: Option<u64>) -> (c: FocusChange)
        ensures
            client == old(self)@.active ==> c == FocusChange::Unchanged && final(self)@ == old(self)@,
            client != old(self)@.active ==> final(self)@ == (WmView { active: client, ..old(self)@ }) && c == match client {
                Some(id) => FocusChange::Focus { client: id, previous: old(self)@.active },
                None => FocusChange::Clear,
            },
    {
        if client == self.active_client {
            return FocusChange::Unchanged;
        }
        match client {
            Some(id) => {
                let previous = self.active_client;
                self.active_client = Some(id);
                FocusChange::Focus { client: id, previous }
            },
            None => {
                self.active_client = None;
                FocusChange::Clear
            },
        }
    }

    /// The monitor and the workspace on it that hold the client.
    pub fn get_workspace(&self, id: u64) -> (r: Option<(usize, u32)>)
        requires
            self@.wf(),
        ensures
            r matches Some((m, k)) ==> m < self@.monitors.len() && k < self@.monitors[m as int].workspaces.len()
                && self@.monitors[m as int].workspaces[k as int].clients.contains(id),
            r is None ==> !self@.on_monitors(id),
    {
        match self.get_monitor(id) {
            Some(m) => {
                proof {
                    lemma_first_monitor_with(self@.monitors, id);
                    assert(self@.monitors[m as int] == self.monitors@[m as int]@);
                }
                match self.monitors[m].workspace_index_of(id) {
                    Some(k) => Some((m, k)),
                    None => None,
                }
            },
            None => {
                proof {
                    lemma_first_monitor_with(self@.monitors, id);
                }
                None
            },
        }
    }

    /// The global index of the workspace shown on monitor `monitor`.
    pub fn active_workspace(&self, monitor: usize) -> (i: u32)
        requires
            self@.wf(),
            monitor < self@.monitors.len(),
            self@.monitors[monitor as int].workspaces.len() > 0,
        ensures
            i == self@.monitors[monitor as int].workspaces[self@.monitors[monitor as int].cur as int].global_index,
    {
        assert(self@.monitors[monitor as int] == self.monitors@[monitor as int]@);
        self.monitors[monitor].current_workspace().global_index()
    }

    /// Whether the client floats: it is marked floating, or its workspace is in the floating
    /// layout.
    pub fn is_floating(&self, client: &X11Client<Attributes>) -> (b: bool)
        requires
            self@.wf(),
        ensures
            b == (client.attributes.is_floating || in_floating_layout(self@, client.frame)),
    {
        let id = client.frame;
        let by_layout = match self.get_workspace(id) {
            Some((m, k)) => {
                assert(self@.monitors[m as int] == self.monitors@[m as int]@);
                let ws = self.monitors[m].workspace(k);
                let floating = match ws {
                    Some(w) => w.current_layout() == LayoutType::Floating,
                    None => false,
                };
                proof {
                    let w = self@.monitors[m as int].workspaces[k as int];
                    assert(w.clients.contains(id));
                    if in_floating_layout(self@, id) {
                        let (m2, k2) = choose|m2: int, k2: int|
                            0 <= m2 < self@.monitors.len() && 0 <= k2 < self@.monitors[m2].workspaces.len()
                                && #[trigger] self@.monitors[m2].workspaces[k2].clients.contains(id)
                                && self@.monitors[m2].workspaces[k2].layout == LayoutType::Floating;
                        lemma_one_workspace(self@, id, m as int, k as int, m2, k2);
                    }
                    if floating {
                        assert(w.layout == LayoutType::Floating);
                        assert(in_floating_layout(self@, id));
                    }
                }
                floating
            },
            None => {
                proof {
                    if in_floating_layout(self@, id) {
                        let (m2, k2) = choose|m2: int, k2: int|
                            0 <= m2 < self@.monitors.len() && 0 <= k2 < self@.monitors[m2].workspaces.len()
                                && #[trigger] self@.monitors[m2].workspaces[k2].clients.contains(id)
                                && self@.monitors[m2].workspaces[k2].layout == LayoutType::Floating;
                        assert(self@.monitors[m2].contains(id));
                    }
                }
                false
            },
        };
        client.attributes.is_floating || by_layout
    }

    /// The window area of the first monitor that holds the client.
    pub fn client_area(&self, id: u64) -> (a: Option<Dimensions>)
        ensures
            a == client_area(self@, id),
    {
        match self.get_monitor(id) {
            Some(m) => {
                proof {
                    lemma_first_monitor_with(self@.monitors, id);
                }
                assert(self@.monitors[m as int] == self.monitors@[m as int]@);
                Some(self.monitors[m].window_area())
            },
            None => None,
        }
    }

    /// A client asks to move to `(x, y)`: a floating client does (keeping its size); returns
    /// whether it moved.
    pub fn move_request(&self, client: &mut X11Client<Attributes>, x: i32, y: i32) -> (moved: bool)
        requires
            self@.wf(),
            old(client).move_fits(),
        ensures
            moved == (old(client).attributes.is_floating || in_floating_layout(self@, old(client).frame)),
            *final(client) == if moved {
                old(client).spec_moved(x, y, old(client).w, old(client).h)
            } else {
                *old(client)
            },
    {
        if self.is_floating(client) {
            let (w, h) = (client.w, client.h);
            client.move_resize(x, y, w, h);
            true
        } else {
            false
        }
    }

    /// A client asks for the size `width` x `height`: a floating client or a dialog gets it
    /// (keeping its position), and a dialog that was centered on the window area of its monitor
    /// is centered again; returns whether the size changed.
    pub fn resize_request(&self, client: &mut X11Client<Attributes>, width: u32, height: u32) -> (resized: bool)
        requires
            self@.wf(),
            old(client).move_fits(),
            forall|m: int|
                0 <= m < self@.monitors.len() ==> old(client).center_fits(#[trigger] self@.monitors[m].config.win_area)
                    && old(client).spec_moved(old(client).x, old(client).y, width, height).center_fits(
                    self@.monitors[m].config.win_area,
                ),
        ensures
            resized == (old(client).attributes.is_floating || in_floating_layout(self@, old(client).frame)
                || old(client).is_dialog),
            *final(client) == if resized {
                let c1 = old(client).spec_moved(old(client).x, old(client).y, width, height);
                match client_area(self@, old(client).frame) {
                    Some(a) => if old(client).is_dialog && old(client).x == old(client).spec_centered_pos(a).0
                        && old(client).y == old(client).spec_centered_pos(a).1 {
                        c1.spec_moved(
                            c1.spec_centered_pos(a).0 as i32,
                            c1.spec_centered_pos(a).1 as i32,
                            c1.w,
                            c1.h,
                        )
                    } else {
                        c1
                    },
                    None => c1,
                }
            } else {
                *old(client)
            },
    {
        let floating = self.is_floating(client);
        let is_dialog = client.is_dialog;
        if !(floating || is_dialog) {
            return false;
        }
        let area = self.client_area(client.frame);
        proof {
            lemma_first_monitor_with(self@.monitors, old(client).frame);
        }
        let was_centered = match area {
            Some(a) => client.is_centered_on_screen(a),
            None => false,
        };
        let (x, y) = (client.x, client.y);
        client.move_resize(x, y, width, height);
        if is_dialog && was_centered {
            match area {
                Some(a) => client.center_on_screen(a),
                None => {},
            }
        }
        true
    }

    /// Whether a window of width `w` and height `h` can be centered on the window area of every
    /// monitor without leaving `i32`.
    pub fn fits_on_monitors(&self, w: u32, h: u32) -> (b: bool)
        ensures
            b == forall|m: int|
                0 <= m < self@.monitors.len() ==> spec_centering_fits(w, h, #[trigger] self@.monitors[m].config.win_area),
    {
        let mut i: usize = 0;
        while i < self.monitors.len()
            invariant
                i <= self.monitors@.len(),
                self@.monitors.len() == self.monitors@.len(),
                forall|m: int| 0 <= m < i ==> spec_centering_fits(w, h, #[trigger] self@.monitors[m].config.win_area),
            decreases self.monitors@.len() - i,
        {
            assert(self@.monitors[i as int] == self.monitors@[i as int]@);
            if !centering_fits(w, h, self.monitors[i].window_area()) {
                return false;
            }
            i += 1;
        }
        true
    }

    /// Whether a window of width `w` and height `h` can be centered on the window area of every
    /// workspace without leaving `i32`.
    pub fn fits_on_workspaces(&self, w: u32, h: u32) -> (b: bool)
        requires
            self@.wf(),
        ensures
            b == forall|m: int, k: int|
                0 <= m < self@.monitors.len() && 0 <= k < self@.monitors[m].workspaces.len() ==> spec_centering_fits(
                    w,
                    h,
                    #[trigger] self@.monitors[m].workspaces[k].win_area,
                ),
    {
        let mut i: usize = 0;
        while i < self.monitors.len()
            invariant
                i <= self.monitors@.len(),
                self@.monitors.len() == self.monitors@.len(),
                self@.wf(),
                forall|m: int, k: int|
                    0 <= m < i && 0 <= k < self@.monitors[m].workspaces.len() ==> spec_centering_fits(
                        w,
                        h,
                        #[trigger] self@.monitors[m].workspaces[k].win_area,
                    ),
            decreases self.monitors@.len() - i,
        {
            assert(self@.monitors[i as int] == self.monitors@[i as int]@);
            let ws = self.monitors[i].workspaces();
            let mut k: usize = 0;
            while k < ws.len()
                invariant
                    k <= ws@.len(),
                    i < self@.monitors.len(),
                    self@.monitors.len() == self.monitors@.len(),
                    self@.monitors[i as int] == self.monitors@[i as int]@,
                    ws@.len() == self@.monitors[i as int].workspaces.len(),
                    forall|j: int| 0 <= j < ws@.len() ==> #[trigger] ws@[j]@ == self@.monitors[i as int].workspaces[j],
                    forall|j: int| 0 <= j < k ==> spec_centering_fits(w, h, #[trigger] self@.monitors[i as int].workspaces[j].win_area),
                decreases ws@.len() - k,
            {
                if !centering_fits(w, h, ws[k].window_area()) {
                    return false;
                }
                k += 1;
            }
            i += 1;
        }
        true
    }

    /// Whether a resize request of the client to `width` by `height` can be handled (see
    /// [WmState::resize_request]): its minimum size and its centered position before and after
    /// the resize can be computed on every monitor.
    pub fn resize_fits(&self, client: &X11Client<Attributes>, width: u32, height: u32) -> (b: bool)
        ensures
            b == (client.move_fits() && forall|m: int|
                0 <= m < self@.monitors.len() ==> client.center_fits(#[trigger] self@.monitors[m].config.win_area)
                    && client.spec_moved(client.x, client.y, width, height).center_fits(
                    self@.monitors[m].config.win_area,
                )),
    {
        if !client.can_move() {
            return false;
        }
        let min = 2 * client.obw + crate::client::WINDOW_MIN_SIZE;
        let w = if width < min {
            min
        } else {
            width
        };
        let h = if height < min {
            min
        } else {
            height
        };
        let before = self.fits_on_monitors(client.w, client.h);
        let after = self.fits_on_monitors(w, h);
        proof {
            assert(client.spec_moved(client.x, client.y, width, height).w == w);
            assert(client.spec_moved(client.x, client.y, width, height).h == h);
        }
        before && after
    }

    /// Center a floating client on the window area of its monitor; returns whether it was
    /// centered.
    pub fn center_client(&self, client: &mut X11Client<Attributes>) -> (centered: bool)
        requires
            self@.wf(),
            old(client).move_fits(),
            forall|m: int|
                0 <= m < self@.monitors.len() ==> old(client).center_fits(#[trigger] self@.monitors[m].config.win_area),
        ensures
            centered == ((old(client).attributes.is_floating || in_floating_layout(self@, old(client).frame))
                && client_area(self@, old(client).frame) is Some),
            *final(client) == if centered {
                let a = client_area(self@, old(client).frame)->0;
                old(client).spec_moved(
                    old(client).spec_centered_pos(a).0 as i32,
                    old(client).spec_centered_pos(a).1 as i32,
                    old(client).w,
                    old(client).h,
                )
            } else {
                *old(client)
            },
    {
        if !self.is_floating(client) {
            return false;
        }
        proof {
            lemma_first_monitor_with(self@.monitors, old(client).frame);
        }
        match self.client_area(client.frame) {
            Some(a) => {
                client.center_on_screen(a);
                true
            },
            None => false,
        }
    }

    /// Make a client fullscreen on its monitor (or leave fullscreen); returns whether the client
    /// is on a monitor (nothing happens otherwise).
    pub fn fullscreen_client(&self, client: &mut X11Client<Attributes>, state: bool) -> (done: bool)
        requires
            state ==> old(client).fullscreen_fits(),
            !state ==> old(client).unfullscreen_fits(),
        ensures
            done == first_monitor_with(self@.monitors, old(client).frame) is Some,
            *final(client) == if !done {
                *old(client)
            } else if state {
                old(client).spec_fullscreen(self@.monitors[first_monitor_with(self@.monitors, old(client).frame)->0].config)
            } else {
                old(client).spec_unfullscreen()
            },
    {
        match self.get_monitor(client.frame) {
            Some(m) => {
                proof {
                    lemma_first_monitor_with(self@.monitors, old(client).frame);
                }
                assert(self@.monitors[m as int] == self.monitors@[m as int]@);
                if state {
                    client.set_fullscreen(self.monitors[m].config());
                } else {
                    client.unset_fullscreen();
                }
                true
            },
            None => false,
        }
    }

    /// Tile a client (or make it float), unless its workspace is in the floating layout; returns
    /// whether its state changed, or `None` when it is on no workspace or its workspace floats.
    pub fn tile_client(&self, client: &mut X11Client<Attributes>, state: bool) -> (r: Option<bool>)
        requires
            self@.wf(),
            old(client).move_fits(),
            forall|m: int, k: int|
                0 <= m < self@.monitors.len() && 0 <= k < self@.monitors[m].workspaces.len() ==> old(client).center_fits(
                    #[trigger] self@.monitors[m].workspaces[k].win_area,
                ),
        ensures
            r is None <==> (!self@.on_monitors(old(client).frame) || in_floating_layout(self@, old(client).frame)),
            r is None ==> *final(client) == *old(client),
            r matches Some(changed) ==> {
                let area = workspace_area(self@, old(client).frame);
                let c = *old(client);
                &&& changed == (c.attributes.is_floating == state)
                &&& !changed ==> *final(client) == c
                &&& changed && !state ==> *final(client) == match c.attributes.floating_dimensions {
                    Some(d) => X11Client {
                        attributes: Attributes { is_floating: true, floating_dimensions: None, ..c.attributes },
                        ..c.spec_moved(d.x, d.y, d.w, d.h)
                    },
                    None => X11Client {
                        attributes: Attributes { is_floating: true, floating_dimensions: None, ..c.attributes },
                        ..c.spec_moved(
                            c.spec_centered_pos(area).0 as i32,
                            c.spec_centered_pos(area).1 as i32,
                            c.w,
                            c.h,
                        )
                    },
                }
                &&& changed && state ==> *final(client) == (X11Client {
                    attributes: Attributes {
                        is_floating: false,
                        floating_dimensions: Some(c.spec_dims()),
                        ..c.attributes
                    },
                    ..c
                })
            },
    {
        let id = client.frame;
        match self.get_workspace(id) {
            Some((m, k)) => {
                assert(self@.monitors[m as int] == self.monitors@[m as int]@);
                match self.monitors[m].workspace(k) {
                    Some(ws) => {
                        proof {
                            if in_floating_layout(self@, id) {
                                let (m2, k2) = choose|m2: int, k2: int|
                                    0 <= m2 < self@.monitors.len() && 0 <= k2 < self@.monitors[m2].workspaces.len()
                                        && #[trigger] self@.monitors[m2].workspaces[k2].clients.contains(id)
                                        && self@.monitors[m2].workspaces[k2].layout == LayoutType::Floating;
                                lemma_one_workspace(self@, id, m as int, k as int, m2, k2);
                            }
                            assert(self@.monitors[m as int].contains(id));
                        }
                        proof {
                            let (m2, k2) = choose|m2: int, k2: int|
                                0 <= m2 < self@.monitors.len() && 0 <= k2 < self@.monitors[m2].workspaces.len()
                                    && #[trigger] self@.monitors[m2].workspaces[k2].clients.contains(id);
                            lemma_one_workspace(self@, id, m as int, k as int, m2, k2);
                        }
                        if ws.current_layout() == LayoutType::Floating {
                            None
                        } else {
                            Some(ws.set_floating(client, !state))
                        }
                    },
                    None => None,
                }
            },
            None => None,
        }
    }

    /// Take a client off the window manager: out of the managed clients and off every monitor;
    /// returns whether it was the active client (which there is then none of).
    pub fn unmanage(&mut self, id: u64) -> (was_active: bool)
        requires
            old(self)@.wf(),
        ensures
            final(self)@.wf(),
            was_active == (old(self)@.active == Some(id)),
            final(self)@.clients == remove_value(old(self)@.clients, id),
            final(self)@.monitors.len() == old(self)@.monitors.len(),
            forall|m: int| 0 <= m < old(self)@.monitors.len() ==> #[trigger] final(self)@.monitors[m] == detached_view(old(self)@.monitors[m], id),
            final(self)@.active == if was_active {
                None
            } else {
                old(self)@.active
            },
            final(self)@.config == old(self)@.config,
            final(self)@ == unmanaged_view(old(self)@, id),
            !final(self)@.on_monitors(id),
            !final(self)@.clients.contains(id),
    {
        let ghost o = self@;
        if let Some(index) = position(&self.clients, id) {
            proof {
                crate::seqs::lemma_remove_at(self.clients@, index as int);
            }
            self.clients.remove(index);
        }
        let mut i: usize = 0;
        while i < self.monitors.len()
            invariant
                i <= self.monitors@.len(),
                self@.monitors.len() == o.monitors.len(),
                o.wf(),
                self@.config == o.config,
                self@.active == o.active,
                self@.clients == remove_value(o.clients, id),
                forall|m: int| 0 <= m < i ==> #[trigger] self@.monitors[m] == detached_view(o.monitors[m], id),
                forall|m: int| i <= m < self@.monitors.len() ==> #[trigger] self@.monitors[m] == o.monitors[m],
            decreases self.monitors@.len() - i,
        {
            let ghost pv = self@;
            assert(pv.monitors[i as int].wf()) by {
                assert(pv.monitors[i as int] == o.monitors[i as int]);
            }
            self.monitors[i].detach_client(id);
            proof {
                assert(self@.monitors =~= pv.monitors.update(i as int, detached_view(pv.monitors[i as int], id)));
            }
            i += 1;
        }
        let was_active = self.active_client == Some(id);
        if was_active {
            self.active_client = None;
        }
        proof {
            lemma_detached_wf(o, self@, id);
            assert(self@.monitors =~= unmanaged_view(o, id).monitors);
        }
        was_active
    }
}

/// Replacing one monitor by a well-formed one that holds only clients it held before, or the
/// client `id` that no other monitor holds, keeps the state well formed, with managed clients
/// that include the ones before and every client on the monitor.
pub proof fn lemma_replace_monitor(o: WmView, m: int, n: MonitorView, id: u64, clients: Seq<u64>)
    requires
        o.wf(),
        0 <= m < o.monitors.len(),
        n.wf(),
        forall|x: u64| #[trigger] n.contains(x) ==> o.monitors[m].contains(x) || x == id,
        forall|m2: int| 0 <= m2 < o.monitors.len() && m2 != m ==> !(#[trigger] o.monitors[m2]).contains(id),
        clients.no_duplicates(),
        clients.contains(id),
        forall|x: u64| #[trigger] o.clients.contains(x) ==> clients.contains(x),
    ensures
        (WmView { monitors: o.monitors.update(m, n), clients, ..o }).wf(),
{
    let w = WmView { monitors: o.monitors.update(m, n), clients, ..o };
    assert forall|m1: int| 0 <= m1 < w.monitors.len() implies (#[trigger] w.monitors[m1]).wf() by {
        if m1 != m {
            assert(w.monitors[m1] == o.monitors[m1]);
        }
    }
    assert forall|m1: int, m2: int, x: u64|
        0 <= m1 < w.monitors.len() && 0 <= m2 < w.monitors.len() && m1 != m2 && #[trigger] w.monitors[m1].contains(x)
            implies !#[trigger] w.monitors[m2].contains(x) by {
        if m1 == m {
            if x != id {
                assert(o.monitors[m].contains(x));
                assert(w.monitors[m2] == o.monitors[m2]);
            }
        } else if m2 == m {
            assert(w.monitors[m1] == o.monitors[m1]);
            if n.contains(x) && x != id {
                assert(o.monitors[m].contains(x));
            }
        } else {
            assert(w.monitors[m1] == o.monitors[m1]);
            assert(w.monitors[m2] == o.monitors[m2]);
        }
    }
    assert forall|m1: int, x: u64| 0 <= m1 < w.monitors.len() && #[trigger] w.monitors[m1].contains(x) implies w.clients.contains(x) by {
        if m1 == m {
            if x != id {
                assert(o.monitors[m].contains(x));
                assert(o.clients.contains(x));
            }
        } else {
            assert(w.monitors[m1] == o.monitors[m1]);
            assert(o.clients.contains(x));
        }
    }
}

/// Where a new client goes: to the workspace that the global index names, if it exists; else
/// to the shown workspace of the fallback monitor (the one under the client), if it exists;
/// else to the shown workspace of the current monitor. The monitor, and the workspace if it
/// was named.
pub open spec fn manage_placement(o: WmView, workspace_idx: u32, fallback: Option<u32>, current: int) -> (int, Option<u32>) {
    let r = spec_relative_workspace_idx(o.config, workspace_idx);
    if r.0 < o.monitors.len() && r.1 < o.monitors[r.0].workspaces.len() {
        (r.0, Some(r.1 as u32))
    } else if fallback matches Some(f) && f < o.monitors.len() {
        (fallback->0 as int, None)
    } else {
        (current, None)
    }
}

/// The monitor after a new client was placed on it (see [manage_placement]).
pub open spec fn placed_view(m: MonitorView, id: u64, ws: Option<u32>) -> MonitorView {
    match ws {
        Some(rel) => moved_view(m, id, rel),
        None => attached_view(m, id),
    }
}

/// The first client of `s` that is fullscreen.
pub open spec fn first_fullscreen(s: Seq<u64>, table: Seq<ClientFlags>) -> Option<u64>
    decreases s.len(),
{
    if s.len() == 0 {
        None
    } else if flags_of(table, s[0]).is_fullscreen {
        Some(s[0])
    } else {
        first_fullscreen(s.drop_first(), table)
    }
}

/// The client to focus on a workspace that was just shown: the first fullscreen client, else
/// the first client.
pub open spec fn spec_pick_focus(s: Seq<u64>, table: Seq<ClientFlags>) -> Option<u64> {
    match first_fullscreen(s, table) {
        Some(c) => Some(c),
        None => if s.len() > 0 {
            Some(s[0])
        } else {
            None
        },
    }
}

/// The first fullscreen client is the one at the first index whose flags say fullscreen; there
/// is none when no client is fullscreen.
proof fn lemma_first_fullscreen(s: Seq<u64>, table: Seq<ClientFlags>)
    ensures
        forall|i: int|
            0 <= i < s.len() && flags_of(table, s[i]).is_fullscreen && (forall|j: int|
                0 <= j < i ==> !(#[trigger] flags_of(table, s[j])).is_fullscreen) ==> first_fullscreen(s, table)
                == Some(s[i]),
        (forall|j: int| 0 <= j < s.len() ==> !(#[trigger] flags_of(table, s[j])).is_fullscreen) ==> first_fullscreen(
            s,
            table,
        ) is None,
    decreases s.len(),
{
    if s.len() > 0 {
        let t = s.drop_first();
        lemma_first_fullscreen(t, table);
        assert forall|i: int|
            0 <= i < s.len() && flags_of(table, s[i]).is_fullscreen && (forall|j: int|
                0 <= j < i ==> !(#[trigger] flags_of(table, s[j])).is_fullscreen) implies first_fullscreen(s, table)
            == Some(s[i]) by {
            if i > 0 {
                assert(!flags_of(table, s[0]).is_fullscreen);
                assert(t[i - 1] == s[i]);
                assert forall|j: int| 0 <= j < i - 1 implies !(#[trigger] flags_of(table, t[j])).is_fullscreen by {
                    assert(t[j] == s[j + 1]);
                }
            }
        }
        if forall|j: int| 0 <= j < s.len() ==> !(#[trigger] flags_of(table, s[j])).is_fullscreen {
            assert(!flags_of(table, s[0]).is_fullscreen);
            assert forall|j: int| 0 <= j < t.len() implies !(#[trigger] flags_of(table, t[j])).is_fullscreen by {
                assert(t[j] == s[j + 1]);
            }
        }
    }
}

/// The focus on a newly shown workspace: when some client is fullscreen, the first fullscreen
/// client in the user's order gets it; when none is, the first client; with no client, none.
pub proof fn law_pick_focus(s: Seq<u64>, table: Seq<ClientFlags>)
    ensures
        forall|i: int|
            0 <= i < s.len() && flags_of(table, s[i]).is_fullscreen && (forall|j: int|
                0 <= j < i ==> !(#[trigger] flags_of(table, s[j])).is_fullscreen) ==> spec_pick_focus(s, table)
                == Some(s[i]),
        (forall|j: int| 0 <= j < s.len() ==> !(#[trigger] flags_of(table, s[j])).is_fullscreen) ==> spec_pick_focus(
            s,
            table,
        ) == if s.len() > 0 {
            Some(s[0])
        } else {
            None
        },
{
    lemma_first_fullscreen(s, table);
}

/// The client to focus on a workspace that was just shown (see [spec_pick_focus]).
pub fn pick_focus(clients: &Vec<u64>, table: &Vec<ClientFlags>) -> (r: Option<u64>)
    ensures
        r == spec_pick_focus(clients@, table@),
{
    let mut i: usize = 0;
    assert(clients@.skip(0) =~= clients@);
    while i < clients.len()
        invariant
            i <= clients@.len(),
            first_fullscreen(clients@, table@) == first_fullscreen(clients@.skip(i as int), table@),
        decreases clients@.len() - i,
    {
        assert(clients@.skip(i as int).drop_first() =~= clients@.skip(i + 1));
        assert(clients@.skip(i as int)[0] == clients@[i as int]);
        if lookup_flags(table, clients[i]).is_fullscreen {
            return Some(clients[i]);
        }
        i += 1;
    }
    assert(clients@.skip(i as int) =~= Seq::<u64>::empty());
    if clients.len() > 0 {
        Some(clients[0])
    } else {
        None
    }
}

/// What showing a workspace by its global index asks for.
pub struct WmSwitch {
    /// the monitor of the workspace
    pub monitor: usize,
    /// the monitor is not the current one: move the pointer there
    pub warp: bool,
    /// what the monitor's switch did (none when the workspace is shown there already)
    pub switch: Option<WorkspaceSwitch>,
    /// the clients of the shown workspace
    pub shown: Vec<u64>,
    /// the change of focus to the client picked on the shown workspace
    pub focus: FocusChange,
}

/// The global index and the monitor of the workspace shown on monitor `m`.
pub open spec fn shown_global_index(o: WmView, m: int) -> u32 {
    o.monitors[m].workspaces[o.monitors[m].cur as int].global_index
}

/// The name of every workspace with the area of its monitor and the window area there.
pub open spec fn workspace_entries(ms: Seq<MonitorView>) -> Seq<(Seq<char>, Dimensions, Dimensions)>
    decreases ms.len(),
{
    if ms.len() == 0 {
        Seq::empty()
    } else {
        workspace_entries(ms.drop_last()) + ms.last().workspaces.map_values(
            |w: crate::workspace::WorkspaceView| (w.name, ms.last().config.dims, ms.last().config.win_area),
        )
    }
}

/// The clients of all monitors, monitor after monitor.
pub open spec fn monitors_clients(ms: Seq<MonitorView>) -> Seq<u64>
    decreases ms.len(),
{
    if ms.len() == 0 {
        Seq::empty()
    } else {
        monitors_clients(ms.drop_last()) + all_clients(ms.last().workspaces)
    }
}

/// Every monitor has a workspace.
pub open spec fn monitors_have_workspaces(ms: Seq<MonitorView>) -> bool {
    forall|m: int| 0 <= m < ms.len() ==> (#[trigger] ms[m]).workspaces.len() > 0
}

/// Replacing a monitor by a well-formed one that holds the same clients keeps the state well
/// formed.
pub proof fn lemma_wf_replace_same_clients(o: WmView, m: int, n: MonitorView)
    requires
        o.wf(),
        0 <= m < o.monitors.len(),
        n.wf(),
        forall|x: u64| #[trigger] n.contains(x) <==> o.monitors[m].contains(x),
    ensures
        (WmView { monitors: o.monitors.update(m, n), ..o }).wf(),
{
    let w = WmView { monitors: o.monitors.update(m, n), ..o };
    assert forall|m1: int| 0 <= m1 < w.monitors.len() implies (#[trigger] w.monitors[m1]).wf() by {
        if m1 != m {
            assert(w.monitors[m1] == o.monitors[m1]);
        }
    }
    assert forall|m1: int, m2: int, x: u64|
        0 <= m1 < w.monitors.len() && 0 <= m2 < w.monitors.len() && m1 != m2 && #[trigger] w.monitors[m1].contains(x)
            implies !#[trigger] w.monitors[m2].contains(x) by {
        if m1 == m {
            assert(o.monitors[m].contains(x));
            assert(w.monitors[m2] == o.monitors[m2]);
        } else {
            assert(w.monitors[m1] == o.monitors[m1]);
            if m2 == m {
                assert(!o.monitors[m].contains(x));
            } else {
                assert(w.monitors[m2] == o.monitors[m2]);
            }
        }
    }
    assert forall|m1: int, x: u64| 0 <= m1 < w.monitors.len() && #[trigger] w.monitors[m1].contains(x) implies w.clients.contains(x) by {
        if m1 == m {
            assert(o.monitors[m].contains(x));
        } else {
            assert(w.monitors[m1] == o.monitors[m1]);
        }
    }
}

/// Taking a client off every monitor and out of the managed clients keeps the state well formed.
proof fn lemma_detached_wf(o: WmView, n: WmView, id: u64)
    requires
        o.wf(),
        n.monitors.len() == o.monitors.len(),
        n.clients == remove_value(o.clients, id),
        forall|m: int| 0 <= m < o.monitors.len() ==> #[trigger] n.monitors[m] == detached_view(o.monitors[m], id),
    ensures
        n.wf(),
        !n.on_monitors(id),
        !n.clients.contains(id),
{
    assert forall|m: int| 0 <= m < n.monitors.len() implies (#[trigger] n.monitors[m]).wf() && !n.monitors[m].contains(id)
        && forall|x: u64| #[trigger] n.monitors[m].contains(x) <==> o.monitors[m].contains(x) && x != id by {
        lemma_detached_monitor(o.monitors[m], id);
    }
    if o.clients.contains(id) {
        crate::seqs::lemma_remove_at(o.clients, o.clients.index_of(id));
        assert(o.clients[o.clients.index_of(id)] == id);
    }
    assert forall|x: u64| #[trigger] n.clients.contains(x) <==> o.clients.contains(x) && x != id by {
        if o.clients.contains(id) {
            let i = o.clients.index_of(id);
            crate::seqs::lemma_remove_at(o.clients, i);
            assert(n.clients.contains(x) <==> n.clients.to_set().contains(x));
            assert(o.clients.contains(x) <==> o.clients.to_set().contains(x));
        }
    }
    assert forall|m1: int, m2: int, x: u64|
        0 <= m1 < n.monitors.len() && 0 <= m2 < n.monitors.len() && m1 != m2 && #[trigger] n.monitors[m1].contains(x)
            implies !#[trigger] n.monitors[m2].contains(x) by {
        assert(o.monitors[m1].contains(x));
    }
    assert forall|m: int, x: u64| 0 <= m < n.monitors.len() && #[trigger] n.monitors[m].contains(x) implies n.clients.contains(x) by {
        assert(o.monitors[m].contains(x));
    }
    if n.on_monitors(id) {
        let m = choose|m: int| 0 <= m < n.monitors.len() && #[trigger] n.monitors[m].contains(id);
        assert(!n.monitors[m].contains(id));
    }
}

/// A monitor with a client taken off every workspace is well formed, holds the client nowhere,
/// and holds every other client where it did.
pub proof fn lemma_detached_monitor(m: MonitorView, id: u64)
    requires
        m.wf(),
    ensures
        detached_view(m, id).wf(),
        !detached_view(m, id).contains(id),
        forall|x: u64| #[trigger] detached_view(m, id).contains(x) <==> m.contains(x) && x != id,
{
    let d = detached_view(m, id);
    assert forall|k: int, x: u64| 0 <= k < m.workspaces.len() implies (#[trigger] d.workspaces[k].clients.contains(x)
        <==> m.workspaces[k].clients.contains(x) && x != id) by {
        let w = m.workspaces[k];
        assert(w.wf());
        if w.clients.contains(id) {
            let i = w.clients.index_of(id);
            crate::seqs::lemma_remove_at(w.clients, i);
            assert(d.workspaces[k].clients.contains(x) <==> d.workspaces[k].clients.to_set().contains(x));
            assert(w.clients.contains(x) <==> w.clients.to_set().contains(x));
        }
    }
    assert forall|k: int| 0 <= k < d.workspaces.len() implies (#[trigger] d.workspaces[k]).wf() by {
        let w = m.workspaces[k];
        assert(w.wf());
        if w.clients.contains(id) {
            crate::seqs::lemma_remove_at(w.clients, w.clients.index_of(id));
            assert(w.stack.contains(id)) by {
                assert(w.clients.to_set().contains(id));
            }
            crate::seqs::lemma_remove_at(w.stack, w.stack.index_of(id));
            assert(w.clients[w.clients.index_of(id)] == id);
            assert(w.stack[w.stack.index_of(id)] == id);
        } else {
            assert(!w.stack.contains(id)) by {
                assert(!w.clients.to_set().contains(id));
            }
        }
    }
    assert forall|i1: int, j1: int, x: u64|
        0 <= i1 < d.workspaces.len() && 0 <= j1 < d.workspaces.len() && i1 != j1
            && #[trigger] d.workspaces[i1].clients.contains(x) implies !#[trigger] d.workspaces[j1].clients.contains(x) by {
        assert(m.workspaces[i1].clients.contains(x));
    }
    assert forall|x: u64| #[trigger] d.contains(x) <==> m.contains(x) && x != id by {
        if d.contains(x) {
            let k = choose|k: int| 0 <= k < d.workspaces.len() && #[trigger] d.workspaces[k].clients.contains(x);
            assert(m.workspaces[k].clients.contains(x));
        }
        if m.contains(x) && x != id {
            let k = choose|k: int| 0 <= k < m.workspaces.len() && #[trigger] m.workspaces[k].clients.contains(x);
            assert(d.workspaces[k].clients.contains(x));
        }
    }
}

/// Taking a client off a monitor that does not hold it changes nothing.
pub proof fn lemma_detach_absent(m: MonitorView, id: u64)
    requires
        m.wf(),
        !m.contains(id),
    ensures
        detached_view(m, id) == m,
{
    let d = detached_view(m, id);
    assert forall|k: int| 0 <= k < m.workspaces.len() implies #[trigger] d.workspaces[k] == m.workspaces[k] by {
        let w = m.workspaces[k];
        assert(w.wf());
        assert(!w.clients.contains(id));
        assert(!w.stack.contains(id)) by {
            assert(!w.clients.to_set().contains(id));
        }
        assert(w.with_lists(w.clients, w.stack) =~= w);
    }
    assert(d.workspaces =~= m.workspaces);
}

/// Taking a newly placed client off a monitor gives the monitor back as it was.
pub proof fn lemma_detach_placed(m: MonitorView, id: u64, ws: Option<u32>)
    requires
        m.wf(),
        !m.contains(id),
        m.workspaces.len() > 0,
        ws matches Some(t) ==> t < m.workspaces.len(),
    ensures
        detached_view(placed_view(m, id, ws), id) == m,
{
    lemma_detach_absent(m, id);
    let t: int = match ws {
        Some(t) => t as int,
        None => m.cur as int,
    };
    let w = m.workspaces[t];
    assert(w.wf());
    assert(!w.clients.contains(id));
    let a = w.with_lists(seq![id] + w.clients, seq![id] + w.stack);
    let pv = placed_view(m, id, ws);
    assert(pv.workspaces =~= m.workspaces.update(t, a)) by {
        if ws is Some {
            assert(detached_view(m, id).workspaces == m.workspaces);
        }
    }
    crate::workspace::lemma_attach_then_detach(w, id);
    let d = detached_view(pv, id);
    assert forall|k: int| 0 <= k < m.workspaces.len() implies #[trigger] d.workspaces[k] == m.workspaces[k] by {
        if k != t {
            assert(pv.workspaces[k] == m.workspaces[k]);
            assert(detached_view(m, id).workspaces[k] == m.workspaces[k]);
        }
    }
    assert(d.workspaces =~= m.workspaces);
}

/// What managing a new client makes of the state (see [manage_placement]).
pub open spec fn managed_view(o: WmView, id: u64, workspace_idx: u32, fallback: Option<u32>, current: int) -> WmView {
    let p = manage_placement(o, workspace_idx, fallback, current);
    WmView { monitors: o.monitors.update(p.0, placed_view(o.monitors[p.0], id, p.1)), clients: o.clients.push(id), ..o }
}

/// What taking a client off the window manager makes of the state.
pub open spec fn unmanaged_view(o: WmView, id: u64) -> WmView {
    WmView {
        monitors: Seq::new(o.monitors.len(), |k: int| detached_view(o.monitors[k], id)),
        clients: remove_value(o.clients, id),
        active: if o.active == Some(id) {
            None
        } else {
            o.active
        },
        ..o
    }
}

/// Managing a client that is not managed and then unmanaging it gives back the state as it was.
pub proof fn lemma_manage_then_unmanage(o: WmView, id: u64, workspace_idx: u32, fallback: Option<u32>, current: int)
    requires
        o.wf(),
        !o.clients.contains(id),
        o.active != Some(id),
        0 <= current < o.monitors.len(),
        monitors_have_workspaces(o.monitors),
        workspace_idx >= o.config.primary_workspaces ==> o.config.secondary_workspaces > 0,
    ensures
        unmanaged_view(managed_view(o, id, workspace_idx, fallback, current), id) == o,
{
    let p = manage_placement(o, workspace_idx, fallback, current);
    let managed = managed_view(o, id, workspace_idx, fallback, current);
    let r = spec_relative_workspace_idx(o.config, workspace_idx);
    if workspace_idx >= o.config.primary_workspaces {
        let d = workspace_idx - o.config.primary_workspaces;
        let s = o.config.secondary_workspaces as int;
        assert(0 <= d / s && 0 <= d % s < s) by (nonlinear_arith)
            requires
                d >= 0,
                s > 0,
        ;
    }
    assert(0 <= r.0 && 0 <= r.1 < 0x1_0000_0000);
    if r.0 < o.monitors.len() && r.1 < o.monitors[r.0].workspaces.len() {
        assert(p == (r.0, Some(r.1 as u32)));
    } else if fallback matches Some(f) && f < o.monitors.len() {
        assert(p.1 is None);
    } else {
        assert(p == (current, None::<u32>));
    }
    assert(0 <= p.0 < o.monitors.len());
    assert forall|k: int| 0 <= k < o.monitors.len() implies !(#[trigger] o.monitors[k]).contains(id) by {}
    assert forall|k: int| 0 <= k < o.monitors.len() implies #[trigger] detached_view(managed.monitors[k], id) == o.monitors[k] by {
        if k == p.0 {
            lemma_detach_placed(o.monitors[k], id, p.1);
        } else {
            lemma_detach_absent(o.monitors[k], id);
        }
    }
    let ms = Seq::new(managed.monitors.len(), |k: int| detached_view(managed.monitors[k], id));
    assert(ms =~= o.monitors);
    let c = o.clients.push(id);
    crate::workspace::lemma_push_back(o.clients, id);
    assert(c[o.clients.len() as int] == id);
    crate::seqs::lemma_index_unique(c, o.clients.len() as int);
    assert(c.remove(o.clients.len() as int) =~= o.clients);
}

/// The inner border, outer border and frame widths of a client, from the theming (or from
/// its part for windows that ask not to be decorated).
pub open spec fn decoration_of(t: ThemingConfiguration, dont_decorate: bool) -> (u32, u32, (u32, u32, u32, u32)) {
    if dont_decorate {
        let n = t.no_decoration;
        (n.inner_border_width, n.outer_border_width, (n.frame_width, n.frame_width, n.frame_width, n.frame_width))
    } else {
        (t.inner_border_width, t.outer_border_width, (t.frame_width, t.frame_width, t.frame_width, t.frame_width))
    }
}

/// Showing global workspace `workspace_idx` from state `o` gave state `n` and the result `r`
/// (see [WmState::switch_workspace]).
pub open spec fn switch_done(
    o: WmView,
    n: WmView,
    r: Option<WmSwitch>,
    workspace_idx: u32,
    current_monitor: int,
    table: Seq<ClientFlags>,
) -> bool {
    let rel = spec_relative_workspace_idx(o.config, workspace_idx);
    &&& r is None <==> (shown_global_index(o, current_monitor) == workspace_idx || rel.0 >= o.monitors.len())
    &&& r is None ==> n == o
    &&& r matches Some(sw) ==> {
        let m = o.monitors[rel.0];
        let nm = if rel.1 != m.cur {
            switched_view(m, rel.1 as u32, table)
        } else {
            m
        };
        &&& sw.monitor == rel.0
        &&& sw.warp == (rel.0 != current_monitor)
        &&& sw.switch is Some == (rel.1 != m.cur)
        &&& sw.shown@ == nm.workspaces[nm.cur as int].clients
        &&& n.monitors == o.monitors.update(rel.0, nm)
        &&& n.clients == o.clients
        &&& n.config == o.config
        &&& n.active == if spec_pick_focus(sw.shown@, table) == o.active {
            o.active
        } else {
            spec_pick_focus(sw.shown@, table)
        }
    }
}

/// What is left to do after a new client was managed.
pub struct ManagePlan<A> {
    /// global index of the workspace the rules chose
    pub workspace: u32,
    /// the monitor the client went to
    pub monitor: usize,
    /// the client's workspace is shown: map the client
    pub show: bool,
    /// where the client was placed, if the placement fits into `i32`
    pub position: Option<(i32, i32)>,
    /// the focus change (the client is focused when it is shown)
    pub focus: FocusChange,
    /// the clients of its workspace that leave fullscreen
    pub unset_fullscreen: Vec<u64>,
    /// what restacking its workspace asks for
    pub restack: RestackPlan,
    /// the actions of the matching rules, to run on the client in order
    pub actions: Vec<A>,
}

/// The workspace (on its monitor, see [manage_placement]) that a new client joins.
pub open spec fn manage_workspace(o: WmView, workspace: u32, fallback: Option<u32>, current: int) -> int {
    let p = manage_placement(o, workspace, fallback, current);
    match p.1 {
        Some(rel) => rel as int,
        None => o.monitors[p.0].cur as int,
    }
}

/// A new client's workspace is the one shown on the current monitor (a client that joins
/// another monitor stays unmapped until its workspace is switched to).
pub open spec fn manage_shown(o: WmView, workspace: u32, fallback: Option<u32>, current: int) -> bool {
    &&& manage_placement(o, workspace, fallback, current).0 == current
    &&& manage_workspace(o, workspace, fallback, current) == o.monitors[manage_placement(o, workspace, fallback, current).0].cur
}

/// Managing the client `c` (already set up by the rules and decorated) from state `o` to
/// workspace `workspace` gave the state `n`, the client `cf` and the plan: it joined its
/// workspace, was placed by `placement` (else the configured placement), its workspace
/// dropped fullscreen and was restacked, and it was focused if its workspace is shown.
pub open spec fn manage_done<A>(
    o: WmView,
    n: WmView,
    c: X11Client<Attributes>,
    cf: X11Client<Attributes>,
    plan: ManagePlan<A>,
    workspace: u32,
    placement: Option<WindowPlacement>,
    fallback: Option<u32>,
    current: int,
    pointer: (i32, i32),
    table: Seq<ClientFlags>,
) -> bool {
    let id = c.frame;
    let p = manage_placement(o, workspace, fallback, current);
    let mv = managed_view(o, id, workspace, fallback, current);
    let shown = manage_shown(o, workspace, fallback, current);
    let pl = match placement {
        Some(pl) => pl,
        None => o.config.initial_placement,
    };
    let area = o.monitors[p.0].config.win_area;
    let pos = spec_place(pl, c.spec_dims(), area, pointer);
    let wsv = mv.monitors[p.0].workspaces[manage_workspace(o, workspace, fallback, current)];
    let focused = shown && mv.active != Some(id);
    &&& plan.workspace == workspace
    &&& plan.monitor == p.0
    &&& plan.show == shown
    &&& plan.position == if pl.place_fits(c.spec_dims(), area, pointer) {
        Some((pos.0 as i32, pos.1 as i32))
    } else {
        None::<(i32, i32)>
    }
    &&& cf == match plan.position {
        Some(q) => c.spec_moved(q.0, q.1, c.w, c.h),
        None => c,
    }
    &&& n == if focused {
        WmView { active: Some(id), ..mv }
    } else {
        mv
    }
    &&& plan.focus == if focused {
        FocusChange::Focus { client: id, previous: mv.active }
    } else {
        FocusChange::Unchanged
    }
    &&& plan.unset_fullscreen@ == select(wsv.clients, table, |fl: ClientFlags| fullscreen(fl))
    &&& plan.restack.unset_fullscreen@ == restack_unset_fullscreen(wsv, table)
    &&& plan.restack.raise@ == restack_raise(wsv, table)
}

/// The client set up by the rules (whether it floats) and decorated by the theming.
pub open spec fn set_up_client(c: X11Client<Attributes>, floating: Option<bool>, t: ThemingConfiguration) -> X11Client<
    Attributes,
> {
    let c1 = X11Client {
        attributes: Attributes {
            is_floating: match floating {
                Some(b) => b,
                None => c.attributes.is_floating,
            },
            ..c.attributes
        },
        ..c
    };
    let d = decoration_of(t, c.dont_decorate);
    c1.spec_decorated(d.0, d.1, d.2)
}

impl WmState {
    /// Put a set-up client on its workspace, place it, and plan the rest (see [manage_done]).
    #[verifier::rlimit(40)]
    fn finish_manage<A>(
        &mut self,
        client: &mut X11Client<Attributes>,
        workspace: u32,
        placement: Option<WindowPlacement>,
        actions: Vec<A>,
        fallback_monitor: Option<u32>,
        current_monitor: usize,
        pointer: (i32, i32),
        table: &Vec<ClientFlags>,
    ) -> (plan: ManagePlan<A>)
        requires
            old(self)@.wf(),
            !old(self)@.clients.contains(old(client).frame),
            current_monitor < old(self)@.monitors.len(),
            monitors_have_workspaces(old(self)@.monitors),
            old(self)@.config.primary_workspaces > 0,
            old(self)@.config.secondary_workspaces > 0,
            old(client).move_fits(),
        ensures
            manage_done(
                old(self)@,
                final(self)@,
                *old(client),
                *final(client),
                plan,
                workspace,
                placement,
                fallback_monitor,
                current_monitor as int,
                pointer,
                table@,
            ),
            plan.actions == actions,
            final(self)@.wf(),
    {
        let ghost o = self@;
        let id = client.frame;
        let (mon, rel) = relative_workspace_idx(&self.config, workspace);
        proof {
            if mon < self.monitors@.len() {
                assert(o.monitors[mon as int] == self.monitors@[mon as int]@);
            }
        }
        let spot: Option<u32> = if mon < self.monitors.len() && rel < self.monitors[mon].workspace_count() {
            Some(rel)
        } else {
            None
        };
        let placed = self.manage(id, workspace, fallback_monitor, current_monitor);
        let ghost mv = self@;
        assert((placed as int) < o.monitors.len());
        assert(mv.monitors.len() == o.monitors.len());
        assert(self.monitors@.len() == mv.monitors.len());
        assert(mv.monitors[placed as int] == self.monitors@[placed as int]@);
        let cur = self.monitors[placed].current_workspace_index();
        let k = match spot {
            Some(r) => r,
            None => cur,
        };
        proof {
            assert(spot == manage_placement(o, workspace, fallback_monitor, current_monitor as int).1);
            assert(cur == o.monitors[placed as int].cur);
        }
        let show = placed == current_monitor && k == cur;
        let pl = match placement {
            Some(pl) => pl,
            None => self.config.initial_placement,
        };
        let area = self.monitors[placed].window_area();
        let dims = Dimensions::new(client.x, client.y, client.w, client.h);
        let position = pl.calc(dims, area, pointer);
        match position {
            Some((x, y)) => {
                let (w, h) = (client.w, client.h);
                client.move_resize(x, y, w, h);
            },
            None => {},
        }
        let (unset_fullscreen, restack) = match self.monitors[placed].workspace(k) {
            Some(ws) => (ws.drop_fullscreen(table), ws.restack(table)),
            None => (Vec::new(), RestackPlan { unset_fullscreen: Vec::new(), raise: Vec::new() }),
        };
        let focus = if show {
            self.focus_client(Some(id))
        } else {
            FocusChange::Unchanged
        };
        ManagePlan { workspace, monitor: placed, show, position, focus, unset_fullscreen, restack, actions }
    }

    /// Manage a new client: the rules decide whether it is managed, whether it floats, its
    /// workspace, its placement and the actions to run on it (see [fold_rules]); it gets the
    /// borders and frame of the theming ([set_up_client]); then it joins its workspace, is
    /// placed, its workspace drops fullscreen and is restacked, and it is focused if its
    /// workspace is shown ([manage_done]). `None` when a rule ignores the window (it is only
    /// made visible).
    #[verifier::spinoff_prover]
    #[verifier::rlimit(60)]
    pub fn manage_client<A: Clone>(
        &mut self,
        client: &mut X11Client<Attributes>,
        rules: &Vec<Rule<A>>,
        application: &str,
        title: &str,
        workspace_preference: Option<u32>,
        fallback_monitor: Option<u32>,
        current_monitor: usize,
        pointer: (i32, i32),
        table: &Vec<ClientFlags>,
    ) -> (r: Option<ManagePlan<A>>)
        requires
            old(self)@.wf(),
            !old(self)@.clients.contains(old(client).frame),
            current_monitor < old(self)@.monitors.len(),
            monitors_have_workspaces(old(self)@.monitors),
            old(self)@.config.primary_workspaces > 0,
            old(self)@.config.secondary_workspaces > 0,
            rule_workspaces_fit(rules@, old(self)@.monitors[current_monitor as int].offset),
            ({
                let d = decoration_of(old(self)@.config.theming, old(client).dont_decorate);
                old(client).decorate_fits(d.0, d.1, d.2)
            }),
        ensures
            ({
                let o = old(self)@;
                let cm = o.monitors[current_monitor as int];
                let start = match workspace_preference {
                    Some(ws) => ws as int,
                    None => cm.workspaces[cm.cur as int].global_index as int,
                };
                let f = fold_rules(rules@, application@, title@, start, cm.workspaces.len() as int, cm.offset as int);
                let d = decoration_of(o.config.theming, old(client).dont_decorate);
                &&& r is None <==> f.ignored
                &&& r is None ==> final(self)@ == o && *final(client) == (X11Client { visible: true, ..*old(client) })
                &&& r matches Some(plan) ==> {
                    &&& manage_done(
                        o,
                        final(self)@,
                        set_up_client(*old(client), f.floating, o.config.theming),
                        *final(client),
                        plan,
                        f.workspace as u32,
                        f.placement,
                        fallback_monitor,
                        current_monitor as int,
                        pointer,
                        table@,
                    )
                    &&& final(client).ibw == d.0 && final(client).obw == d.1 && final(client).fw == d.2
                    &&& plan.actions@.len() == f.actions.len()
                    &&& forall|i: int| 0 <= i < f.actions.len() ==> cloned(f.actions[i], #[trigger] plan.actions@[i])
                }
            }),
    {
        let ghost o = self@;
        assert(o.monitors[current_monitor as int] == self.monitors@[current_monitor as int]@);
        let cm = &self.monitors[current_monitor];
        let shown_ws = cm.current_workspace().global_index();
        let count = cm.workspace_count();
        let offset = cm.workspace_offset();
        let outcome = match apply_window_rules(rules, application, title, shown_ws, count, offset, workspace_preference) {
            Some(outcome) => outcome,
            None => {
                client.show();
                return None;
            },
        };
        match outcome.floating {
            Some(b) => {
                client.attributes.is_floating = b;
            },
            None => {},
        }
        let theming = self.config.theming;
        let (ibw, obw, fw) = if client.dont_decorate {
            let n = theming.no_decoration;
            (n.inner_border_width, n.outer_border_width, (n.frame_width, n.frame_width, n.frame_width, n.frame_width))
        } else {
            (theming.inner_border_width, theming.outer_border_width, (
                theming.frame_width,
                theming.frame_width,
                theming.frame_width,
                theming.frame_width,
            ))
        };
        client.decorate(ibw, obw, fw);
        let ghost c2 = *client;
        proof {
            assert(c2 == set_up_client(*old(client), outcome.floating, theming));
            assert(min_size(c2.obw) <= u32::MAX);
        }
        let plan = self.finish_manage(
            client,
            outcome.workspace,
            outcome.placement,
            outcome.actions,
            fallback_monitor,
            current_monitor,
            pointer,
            table,
        );
        Some(plan)
    }
}

} // verus!
