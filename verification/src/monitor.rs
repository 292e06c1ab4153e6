//! A monitor with its own set of workspaces, one of which is shown.
use vstd::prelude::*;

use crate::client::{flags_of, ClientFlags};
use crate::config::Configuration;
use crate::geometry::{Dimensions, MonitorConfig};
use crate::numbers::{decimal_string, spec_decimal};
use crate::seqs::{lemma_concat_contains, remove_value};
use crate::workspace::{
    lemma_select_all, lemma_select_keeps_wf, lemma_select_none, not_pinned, pinned, restack_raise, restack_unset_fullscreen, select, RestackPlan, Workspace, WorkspaceView,
};

verus! {

/// The abstract state of a monitor.
#[verifier::ext_equal]
pub struct MonitorView {
    pub config: MonitorConfig,
    pub workspaces: Seq<WorkspaceView>,
    pub cur: u32,
    pub prev: u32,
    pub offset: u32,
}

/// No client is on two workspaces.
pub open spec fn disjoint_workspaces(ws: Seq<WorkspaceView>) -> bool {
    forall|i: int, j: int, id: u64|
        0 <= i < ws.len() && 0 <= j < ws.len() && i != j && #[trigger] ws[i].clients.contains(id)
            ==> !#[trigger] ws[j].clients.contains(id)
}

impl MonitorView {
    /// Every workspace is well formed, no client is on two workspaces, and the current and
    /// previous workspace exist (if there is any workspace).
    pub open spec fn wf(self) -> bool {
        &&& forall|i: int| 0 <= i < self.workspaces.len() ==> (#[trigger] self.workspaces[i]).wf()
        &&& disjoint_workspaces(self.workspaces)
        &&& self.workspaces.len() > 0 ==> (self.cur < self.workspaces.len() && self.prev
            < self.workspaces.len())
        &&& self.workspaces.len() <= u32::MAX
    }

    /// The client is on one of the workspaces of this monitor.
    pub open spec fn contains(self, id: u64) -> bool {
        on_some_workspace(self.workspaces, id)
    }
}

/// The client is on one of the workspaces.
pub open spec fn on_some_workspace(ws: Seq<WorkspaceView>, id: u64) -> bool {
    exists|i: int| 0 <= i < ws.len() && #[trigger] ws[i].clients.contains(id)
}

/// The clients of all workspaces, workspace after workspace.
pub open spec fn all_clients(ws: Seq<WorkspaceView>) -> Seq<u64>
    decreases ws.len(),
{
    if ws.len() == 0 {
        Seq::empty()
    } else {
        all_clients(ws.drop_last()) + ws.last().clients
    }
}

/// A client is among all clients exactly when it is on one of the workspaces.
pub proof fn lemma_all_clients_contains(ws: Seq<WorkspaceView>)
    ensures
        forall|id: u64| #[trigger] all_clients(ws).contains(id) <==> on_some_workspace(ws, id),
    decreases ws.len(),
{
    if ws.len() > 0 {
        let d = ws.drop_last();
        lemma_all_clients_contains(d);
        let a = all_clients(d);
        let b = ws.last().clients;
        assert(all_clients(ws) == a + b);
        assert forall|id: u64| #[trigger] all_clients(ws).contains(id) <==> on_some_workspace(ws, id) by {
            if (a + b).contains(id) {
                let k = choose|k: int| 0 <= k < (a + b).len() && (a + b)[k] == id;
                if k < a.len() {
                    assert(a[k] == id);
                    assert(a.contains(id));
                    assert(on_some_workspace(d, id));
                    let w = choose|w: int| 0 <= w < d.len() && #[trigger] d[w].clients.contains(id);
                    assert(ws[w] == d[w]);
                } else {
                    assert(b[k - a.len()] == id);
                    assert(ws[ws.len() - 1].clients.contains(id));
                }
            }
            if on_some_workspace(ws, id) {
                let w = choose|w: int| 0 <= w < ws.len() && #[trigger] ws[w].clients.contains(id);
                if w < ws.len() - 1 {
                    assert(d[w] == ws[w]);
                    assert(d[w].clients.contains(id));
                    assert(on_some_workspace(d, id));
                    assert(a.contains(id));
                    let k = choose|k: int| 0 <= k < a.len() && a[k] == id;
                    assert((a + b)[k] == id);
                } else {
                    let k = choose|k: int| 0 <= k < b.len() && b[k] == id;
                    assert((a + b)[a.len() + k] == id);
                }
            }
        }
    } else {
        assert forall|id: u64| #[trigger] all_clients(ws).contains(id) <==> on_some_workspace(ws, id) by {
            assert(all_clients(ws) =~= Seq::<u64>::empty());
        }
    }
}

/// The name of workspace `i` of a monitor.
pub open spec fn workspace_name(monitor_name: Seq<char>, primary: bool, count: u32, i: int) -> Seq<
    char,
> {
    if primary {
        spec_decimal((i + 1) as nat)
    } else if count == 1 {
        monitor_name
    } else {
        monitor_name + ":"@ + spec_decimal((i + 1) as nat)
    }
}

/// The monitor after showing workspace `t`: the pinned clients of the shown workspace move to the
/// end of both orders of workspace `t`, and `t` becomes the shown workspace.
pub open spec fn switched_view(o: MonitorView, t: u32, table: Seq<ClientFlags>) -> MonitorView {
    let c = o.cur as int;
    let cw = o.workspaces[c];
    let moved = select(cw.clients, table, |f: ClientFlags| pinned(f));
    let from = cw.with_lists(
        select(cw.clients, table, |f: ClientFlags| not_pinned(f)),
        select(cw.stack, table, |f: ClientFlags| not_pinned(f)),
    );
    let tw = o.workspaces[t as int];
    let to = tw.with_lists(tw.clients + moved, tw.stack + moved);
    MonitorView { workspaces: o.workspaces.update(c, from).update(t as int, to), cur: t, prev: o.cur, ..o }
}

/// The monitor with a new configuration: every workspace takes its window area.
pub open spec fn reconfigured_view(o: MonitorView, config: MonitorConfig) -> MonitorView {
    MonitorView {
        config,
        workspaces: Seq::new(
            o.workspaces.len(),
            |k: int| WorkspaceView { win_area: config.win_area, ..o.workspaces[k] },
        ),
        ..o
    }
}

/// A monitor with a new configuration holds the clients it held, on the same workspaces.
pub proof fn lemma_reconfigured_contains(o: MonitorView, config: MonitorConfig)
    ensures
        forall|x: u64| #[trigger] reconfigured_view(o, config).contains(x) <==> o.contains(x),
{
    let n = reconfigured_view(o, config);
    assert forall|x: u64| #[trigger] n.contains(x) <==> o.contains(x) by {
        if n.contains(x) {
            let k = choose|k: int| 0 <= k < n.workspaces.len() && #[trigger] n.workspaces[k].clients.contains(x);
            assert(o.workspaces[k].clients.contains(x));
        }
        if o.contains(x) {
            let k = choose|k: int| 0 <= k < o.workspaces.len() && #[trigger] o.workspaces[k].clients.contains(x);
            assert(n.workspaces[k].clients.contains(x));
        }
    }
}

/// The monitor with a new client first on the shown workspace.
pub open spec fn attached_view(o: MonitorView, id: u64) -> MonitorView {
    let cw = o.workspaces[o.cur as int];
    MonitorView {
        workspaces: o.workspaces.update(o.cur as int, cw.with_lists(seq![id] + cw.clients, seq![id] + cw.stack)),
        ..o
    }
}

/// The monitor with a client taken off every workspace.
pub open spec fn detached_view(o: MonitorView, id: u64) -> MonitorView {
    MonitorView {
        workspaces: Seq::new(
            o.workspaces.len(),
            |k: int|
                o.workspaces[k].with_lists(
                    remove_value(o.workspaces[k].clients, id),
                    remove_value(o.workspaces[k].stack, id),
                ),
        ),
        ..o
    }
}

/// The monitor after a client moved to workspace `t`: it is off every workspace and first on `t`.
pub open spec fn moved_view(o: MonitorView, id: u64, t: u32) -> MonitorView {
    let detached = detached_view(o, id).workspaces;
    let tw = detached[t as int];
    MonitorView {
        workspaces: detached.update(t as int, tw.with_lists(seq![id] + tw.clients, seq![id] + tw.stack)),
        ..o
    }
}

/// The workspace with a client on top of its stacking order (unchanged when it does not hold the
/// client).
pub open spec fn raised_view(w: WorkspaceView, id: u64) -> WorkspaceView {
    if w.clients.contains(id) {
        w.with_lists(w.clients, seq![id] + remove_value(w.stack, id))
    } else {
        w
    }
}

/// What switching to another workspace asks for: the pinned clients that moved along, the
/// clients to hide, the clients to show, and the global index of the new workspace.
pub struct WorkspaceSwitch {
    pub pinned: Vec<u64>,
    pub hide: Vec<u64>,
    pub show: Vec<u64>,
    pub global_index: u32,
}

/// A monitor with its workspaces.
pub struct Monitor {
    config: MonitorConfig,
    workspaces: Vec<Workspace>,
    cur_workspace: u32,
    prev_workspace: u32,
    workspace_offset: u32,
}

impl View for Monitor {
    type V = MonitorView;

    closed spec fn view(&self) -> MonitorView {
        MonitorView {
            config: self.config,
            workspaces: self.workspaces@.map_values(|w: Workspace| w@),
            cur: self.cur_workspace,
            prev: self.prev_workspace,
            offset: self.workspace_offset,
        }
    }
}

impl Monitor {
    /// A monitor with the configured number of workspaces (the primary monitor's count or the
    /// secondary monitors' count), numbered globally from `workspace_offset` on.
    pub fn new(monitor_config: MonitorConfig, config: &Configuration, primary: bool, workspace_offset: u32) -> (m:
        Monitor)
        requires
            workspace_offset + (if primary {
                config.primary_workspaces
            } else {
                config.secondary_workspaces
            }) <= u32::MAX,
        ensures
            m@.wf(),
            m@.config == monitor_config,
            m@.cur == 0 && m@.prev == 0,
            m@.offset == workspace_offset,
            m@.workspaces.len() == (if primary {
                config.primary_workspaces
            } else {
                config.secondary_workspaces
            }),
            forall|i: int|
                0 <= i < m@.workspaces.len() ==> #[trigger] m@.workspaces[i] == (WorkspaceView {
                    name: workspace_name(
                        monitor_config.name@,
                        primary,
                        config.secondary_workspaces,
                        i,
                    ),
                    global_index: (workspace_offset + i) as u32,
                    clients: Seq::empty(),
                    stack: Seq::empty(),
                    win_area: monitor_config.win_area,
                    layout: config.layout.default,
                    config: config.layout,
                }),
    {
        let count = if primary {
            config.primary_workspaces
        } else {
            config.secondary_workspaces
        };
        let mut workspaces: Vec<Workspace> = Vec::new();
        let mut i: u32 = 0;
        while i < count
            invariant
                i <= count,
                workspace_offset + count <= u32::MAX,
                count == (if primary {
                    config.primary_workspaces
                } else {
                    config.secondary_workspaces
                }),
                workspaces@.len() == i,
                forall|k: int|
                    0 <= k < i ==> #[trigger] workspaces@[k]@ == (WorkspaceView {
                        name: workspace_name(
                            monitor_config.name@,
                            primary,
                            config.secondary_workspaces,
                            k,
                        ),
                        global_index: (workspace_offset + k) as u32,
                        clients: Seq::empty(),
                        stack: Seq::empty(),
                        win_area: monitor_config.win_area,
                        layout: config.layout.default,
                        config: config.layout,
                    }),
            decreases count - i,
        {
            let number = decimal_string(i as u64 + 1);
            let name = if primary {
                number
            } else if config.secondary_workspaces == 1 {
                monitor_config.name.clone()
            } else {
                let mut text = monitor_config.name.clone();
                text.append(":");
                text.append(number.as_str());
                text
            };
            let ws = Workspace::new(name, workspace_offset + i, monitor_config.window_area(), config.layout);
            workspaces.push(ws);
            i += 1;
        }
        let m = Monitor {
            config: monitor_config,
            workspaces,
            cur_workspace: 0,
            prev_workspace: 0,
            workspace_offset,
        };
        assert forall|k: int| 0 <= k < m@.workspaces.len() implies (#[trigger] m@.workspaces[k]).wf() by {
            assert(m@.workspaces[k] == workspaces@[k]@);
            assert(m@.workspaces[k].clients.to_set() =~= m@.workspaces[k].stack.to_set());
        }
        m
    }

    pub fn config(&self) -> (c: &MonitorConfig)
        ensures
            *c == self@.config,
    {
        &self.config
    }

    pub fn dimensions(&self) -> (d: Dimensions)
        ensures
            d == self@.config.dims,
    {
        self.config.dims
    }

    pub fn window_area(&self) -> (d: Dimensions)
        ensures
            d == self@.config.win_area,
    {
        self.config.win_area
    }

    pub fn workspace_count(&self) -> (n: u32)
        requires
            self@.wf(),
        ensures
            n == self@.workspaces.len(),
    {
        self.workspaces.len() as u32
    }

    pub fn workspace_offset(&self) -> (o: u32)
        ensures
            o == self@.offset,
    {
        self.workspace_offset
    }

    /// Index of the shown workspace (among the workspaces of this monitor).
    pub fn current_workspace_index(&self) -> (i: u32)
        ensures
            i == self@.cur,
    {
        self.cur_workspace
    }

    /// Index of the previously shown workspace.
    pub fn prev_workspace_index(&self) -> (i: u32)
        ensures
            i == self@.prev,
    {
        self.prev_workspace
    }

    pub fn workspace(&self, index: u32) -> (w: Option<&Workspace>)
        ensures
            index < self@.workspaces.len() ==> (w matches Some(ws) && ws@ == self@.workspaces[index as int]),
            index >= self@.workspaces.len() ==> w is None,
    {
        if (index as usize) < self.workspaces.len() {
            Some(&self.workspaces[index as usize])
        } else {
            None
        }
    }

    pub fn current_workspace(&self) -> (w: &Workspace)
        requires
            self@.wf(),
            self@.workspaces.len() > 0,
        ensures
            w@ == self@.workspaces[self@.cur as int],
    {
        &self.workspaces[self.cur_workspace as usize]
    }

    /// Whether the client is on one of the workspaces of this monitor.
    pub fn contains(&self, id: u64) -> (b: bool)
        ensures
            b == self@.contains(id),
    {
        let mut i: usize = 0;
        while i < self.workspaces.len()
            invariant
                i <= self.workspaces@.len(),
                forall|k: int| 0 <= k < i ==> !(#[trigger] self@.workspaces[k]).clients.contains(id),
            decreases self.workspaces@.len() - i,
        {
            if self.workspaces[i].contains(id) {
                assert(self@.workspaces[i as int].clients.contains(id));
                return true;
            }
            i += 1;
        }
        false
    }

    /// The clients of all workspaces, workspace after workspace.
    pub fn clients(&self) -> (r: Vec<u64>)
        ensures
            r@ == all_clients(self@.workspaces),
            forall|id: u64| r@.contains(id) <==> self@.contains(id),
    {
        let mut out: Vec<u64> = Vec::new();
        let mut i: usize = 0;
        while i < self.workspaces.len()
            invariant
                i <= self.workspaces@.len(),
                out@ == all_clients(self@.workspaces.take(i as int)),
            decreases self.workspaces@.len() - i,
        {
            let ws_clients = self.workspaces[i].clients();
            let ghost before = out@;
            let mut j: usize = 0;
            while j < ws_clients.len()
                invariant
                    j <= ws_clients@.len(),
                    out@ == before + ws_clients@.take(j as int),
                decreases ws_clients@.len() - j,
            {
                out.push(ws_clients[j]);
                assert(before + ws_clients@.take(j + 1) =~= (before + ws_clients@.take(j as int)).push(ws_clients@[j as int]));
                j += 1;
            }
            assert(ws_clients@.take(ws_clients@.len() as int) =~= ws_clients@);
            assert(self@.workspaces.take(i + 1).drop_last() =~= self@.workspaces.take(i as int));
            i += 1;
        }
        assert(self@.workspaces.take(self@.workspaces.len() as int) =~= self@.workspaces);
        proof {
            lemma_all_clients_contains(self@.workspaces);
        }
        out
    }

    /// Take a client off every workspace of this monitor.
    pub fn detach_client(&mut self, id: u64)
        requires
            old(self)@.wf(),
        ensures
            final(self)@.wf(),
            !final(self)@.contains(id),
            final(self)@ == detached_view(old(self)@, id),
            final(self)@.config == old(self)@.config,
            final(self)@.cur == old(self)@.cur,
            final(self)@.prev == old(self)@.prev,
            final(self)@.offset == old(self)@.offset,
            final(self)@.workspaces.len() == old(self)@.workspaces.len(),
            forall|k: int|
                0 <= k < old(self)@.workspaces.len() ==> #[trigger] final(self)@.workspaces[k]
                    == old(self)@.workspaces[k].with_lists(
                    remove_value(old(self)@.workspaces[k].clients, id),
                    remove_value(old(self)@.workspaces[k].stack, id),
                ),
            forall|k: int, x: u64|
                0 <= k < old(self)@.workspaces.len() ==> (#[trigger] final(self)@.workspaces[k].clients.contains(x)
                    <==> old(self)@.workspaces[k].clients.contains(x) && x != id),
    {
        let ghost old_view = self@;
        let mut i: usize = 0;
        while i < self.workspaces.len()
            invariant
                i <= self.workspaces@.len(),
                old_view.wf(),
                self@.workspaces.len() == old_view.workspaces.len(),
                self@.config == old_view.config,
                self@.cur == old_view.cur,
                self@.prev == old_view.prev,
                self@.offset == old_view.offset,
                forall|k: int| 0 <= k < self@.workspaces.len() ==> (#[trigger] self@.workspaces[k]).wf(),
                forall|k: int|
                    0 <= k < i ==> #[trigger] self@.workspaces[k] == old_view.workspaces[k].with_lists(
                        remove_value(old_view.workspaces[k].clients, id),
                        remove_value(old_view.workspaces[k].stack, id),
                    ),
                forall|k: int|
                    i <= k < self@.workspaces.len() ==> #[trigger] self@.workspaces[k] == old_view.workspaces[k],
                forall|k: int, x: u64|
                    0 <= k < i ==> (#[trigger] self@.workspaces[k].clients.contains(x)
                        <==> old_view.workspaces[k].clients.contains(x) && x != id),
            decreases self.workspaces@.len() - i,
        {
            let ghost pre = self@;
            let ghost pre_vec = self.workspaces@;
            assert(pre.workspaces[i as int].wf());
            let mut ws = self.workspaces.remove(i);
            assert(ws@ == pre.workspaces[i as int]);
            ws.detach_client(id);
            proof {
                assert forall|x: u64| ws@.clients.contains(x) <==> old_view.workspaces[i as int].clients.contains(x) && x != id by {
                    assert(pre.workspaces[i as int] == old_view.workspaces[i as int]);
                    assert(ws@.clients.contains(x) <==> ws@.clients.to_set().contains(x));
                    assert(old_view.workspaces[i as int].clients.contains(x) <==> old_view.workspaces[i as int].clients.to_set().contains(x));
                }
            }
            let ghost new_view = ws@;
            self.workspaces.insert(i, ws);
            proof {
                assert(self.workspaces@ =~= pre_vec.update(i as int, ws));
                assert(self@.workspaces =~= pre.workspaces.update(i as int, new_view));
            }
            i += 1;
        }
        proof {
            assert forall|i1: int, j1: int, x: u64|
                0 <= i1 < self@.workspaces.len() && 0 <= j1 < self@.workspaces.len() && i1 != j1
                    && #[trigger] self@.workspaces[i1].clients.contains(x) implies !#[trigger] self@.workspaces[j1].clients.contains(x) by {
                assert(old_view.workspaces[i1].clients.contains(x));
            }
            assert(!self@.contains(id));
        }
    }

    /// The workspace that is shown, for changing it. Whatever the caller does to it, the other
    /// workspaces and the rest of the monitor stay as they are.
    pub fn current_workspace_mut(&mut self) -> (w: &mut Workspace)
        requires
            old(self)@.wf(),
            old(self)@.workspaces.len() > 0,
        ensures
            w@ == old(self)@.workspaces[old(self)@.cur as int],
            final(self)@ == (MonitorView {
                workspaces: old(self)@.workspaces.update(old(self)@.cur as int, final(w)@),
                ..old(self)@
            }),
    {
        let i = self.cur_workspace as usize;
        &mut self.workspaces[i]
    }

    /// Index of the workspace that holds the client.
    pub fn workspace_index_of(&self, id: u64) -> (r: Option<u32>)
        requires
            self@.wf(),
        ensures
            r matches Some(k) ==> k < self@.workspaces.len() && self@.workspaces[k as int].clients.contains(id),
            r is None ==> !self@.contains(id),
    {
        let mut i: usize = 0;
        while i < self.workspaces.len()
            invariant
                i <= self.workspaces@.len(),
                self@.workspaces.len() <= u32::MAX,
                forall|k: int| 0 <= k < i ==> !(#[trigger] self@.workspaces[k]).clients.contains(id),
            decreases self.workspaces@.len() - i,
        {
            if self.workspaces[i].contains(id) {
                return Some(i as u32);
            }
            i += 1;
        }
        None
    }

    /// Workspace `index`, for changing it. Whatever the caller does to it, the other workspaces
    /// and the rest of the monitor stay as they are.
    pub fn workspace_mut(&mut self, index: u32) -> (w: &mut Workspace)
        requires
            index < old(self)@.workspaces.len(),
        ensures
            w@ == old(self)@.workspaces[index as int],
            final(self)@ == (MonitorView {
                workspaces: old(self)@.workspaces.update(index as int, final(w)@),
                ..old(self)@
            }),
    {
        &mut self.workspaces[index as usize]
    }

    /// Show another workspace of this monitor. Nothing happens (and `None` is returned) when it
    /// is the shown workspace already or there is no such workspace. Otherwise the pinned
    /// clients move along to the new workspace, and the result says which clients to hide and
    /// which to show.
    pub fn switch_workspace(&mut self, workspace_idx: u32, table: &Vec<ClientFlags>) -> (r: Option<
        WorkspaceSwitch,
    >)
        requires
            old(self)@.wf(),
        ensures
            final(self)@.wf(),
            r is None <==> (workspace_idx == old(self)@.cur || workspace_idx
                >= old(self)@.workspaces.len()),
            r is None ==> final(self)@ == old(self)@,
            r matches Some(sw) ==> {
                &&& final(self)@ == switched_view(old(self)@, workspace_idx, table@)
                &&& sw.pinned@ == select(
                    old(self)@.workspaces[old(self)@.cur as int].clients,
                    table@,
                    |f: ClientFlags| pinned(f),
                )
                &&& sw.hide@ == final(self)@.workspaces[old(self)@.cur as int].clients
                &&& sw.show@ == final(self)@.workspaces[workspace_idx as int].clients
                &&& sw.global_index == old(self)@.workspaces[workspace_idx as int].global_index
            },
    {
        if workspace_idx == self.cur_workspace || workspace_idx as usize >= self.workspaces.len() {
            return None;
        }
        let ghost o = self@;
        let c = self.cur_workspace as usize;
        let t = workspace_idx as usize;
        assert(o.workspaces[c as int].wf() && o.workspaces[t as int].wf());
        let pinned_clients = self.workspaces[c].pull_pinned(table);
        let moved = pinned_clients.clone();
        let ghost cw = o.workspaces[c as int];
        let ghost tw = o.workspaces[t as int];
        proof {
            assert(moved@ =~= pinned_clients@);
            lemma_select_keeps_wf(cw.clients, cw.stack, table@, |f: ClientFlags| pinned(f));
            lemma_select_keeps_wf(cw.clients, cw.stack, table@, |f: ClientFlags| not_pinned(f));
            assert(self@.workspaces[t as int] == tw);
            assert forall|i: int| 0 <= i < pinned_clients@.len() implies !tw.clients.contains(
                #[trigger] pinned_clients@[i],
            ) by {
                let x = pinned_clients@[i];
                assert(pinned_clients@.contains(x));
                assert(cw.clients.contains(x));
            }
        }
        self.workspaces[t].push_pinned(pinned_clients);
        let hide = self.workspaces[c].clients().clone();
        let show = self.workspaces[t].clients().clone();
        let global_index = self.workspaces[t].global_index();
        self.prev_workspace = self.cur_workspace;
        self.cur_workspace = workspace_idx;
        proof {
            let n = switched_view(o, workspace_idx, table@);
            assert(self@.workspaces =~= n.workspaces);
            assert(self@ == n);
            lemma_concat_contains(tw.clients, moved@);
            assert forall|k: int| 0 <= k < n.workspaces.len() implies (#[trigger] n.workspaces[k]).wf() by {
                if k != c && k != t {
                    assert(n.workspaces[k] == o.workspaces[k]);
                }
            }
            assert forall|i1: int, j1: int, x: u64|
                0 <= i1 < n.workspaces.len() && 0 <= j1 < n.workspaces.len() && i1 != j1
                    && #[trigger] n.workspaces[i1].clients.contains(x) implies !#[trigger] n.workspaces[j1].clients.contains(x) by {
                let was = |k: int| if k == t { tw.clients.contains(x) || cw.clients.contains(x) } else { o.workspaces[k].clients.contains(x) };
                if i1 == t {
                    if tw.clients.contains(x) {
                        assert(o.workspaces[t as int].clients.contains(x));
                    } else {
                        assert(moved@.contains(x));
                    }
                }
                if j1 == c && n.workspaces[j1].clients.contains(x) {
                    assert(cw.clients.contains(x));
                }
                if j1 == t && n.workspaces[j1].clients.contains(x) {
                    if moved@.contains(x) {
                        assert(cw.clients.contains(x));
                    }
                }
                if i1 == c {
                    assert(cw.clients.contains(x));
                }
            }
        }
        Some(WorkspaceSwitch { pinned: moved, hide, show, global_index })
    }

    /// Show the workspace that was shown before.
    pub fn switch_prev_workspace(&mut self, table: &Vec<ClientFlags>) -> (r: Option<WorkspaceSwitch>)
        requires
            old(self)@.wf(),
        ensures
            final(self)@.wf(),
            r is None <==> old(self)@.prev == old(self)@.cur || old(self)@.prev
                >= old(self)@.workspaces.len(),
            r is None ==> final(self)@ == old(self)@,
            r is Some ==> final(self)@ == switched_view(old(self)@, old(self)@.prev, table@),
    {
        let prev = self.prev_workspace;
        self.switch_workspace(prev, table)
    }

    /// Put a new client on the shown workspace; returns the global index of that workspace.
    pub fn attach_client(&mut self, id: u64) -> (global_index: u32)
        requires
            old(self)@.wf(),
            old(self)@.workspaces.len() > 0,
            !old(self)@.contains(id),
        ensures
            final(self)@.wf(),
            global_index == old(self)@.workspaces[old(self)@.cur as int].global_index,
            final(self)@ == attached_view(old(self)@, id),
    {
        let ghost o = self@;
        let c = self.cur_workspace as usize;
        assert(o.workspaces[c as int].wf());
        assert(!o.workspaces[c as int].clients.contains(id));
        let global_index = self.workspaces[c].global_index();
        self.workspaces[c].attach_client(id);
        proof {
            let cw = o.workspaces[c as int];
            assert(self@.workspaces =~= o.workspaces.update(c as int, cw.with_lists(seq![id] + cw.clients, seq![id] + cw.stack)));
            lemma_concat_contains(seq![id], cw.clients);
            assert forall|k: int| 0 <= k < self@.workspaces.len() implies (#[trigger] self@.workspaces[k]).wf() by {
                if k != c {
                    assert(self@.workspaces[k] == o.workspaces[k]);
                }
            }
            assert forall|i1: int, j1: int, x: u64|
                0 <= i1 < self@.workspaces.len() && 0 <= j1 < self@.workspaces.len() && i1 != j1
                    && #[trigger] self@.workspaces[i1].clients.contains(x) implies !#[trigger] self@.workspaces[j1].clients.contains(x) by {
                if i1 == c {
                    if x == id {
                        assert(!o.workspaces[j1].clients.contains(id));
                    } else {
                        assert(seq![id].contains(x) ==> x == id);
                        assert(cw.clients.contains(x));
                    }
                }
                if j1 == c && self@.workspaces[j1].clients.contains(x) {
                    if x == id {
                        assert(o.workspaces[i1].clients.contains(id));
                    } else {
                        assert(seq![id].contains(x) ==> x == id);
                        assert(cw.clients.contains(x));
                    }
                }
            }
        }
        global_index
    }

    /// Move a client (from whichever workspace holds it) to workspace `workspace_idx` of this
    /// monitor. Nothing happens (`None`) when there is no such workspace; otherwise the result
    /// says whether the client must be hidden (it is not on the shown workspace).
    pub fn move_to_workspace(&mut self, id: u64, workspace_idx: u32) -> (hide: Option<bool>)
        requires
            old(self)@.wf(),
        ensures
            final(self)@.wf(),
            hide is None <==> workspace_idx >= old(self)@.workspaces.len(),
            hide is None ==> final(self)@ == old(self)@,
            hide matches Some(h) ==> h == (workspace_idx != old(self)@.cur) && final(self)@
                == moved_view(old(self)@, id, workspace_idx),
    {
        if workspace_idx as usize >= self.workspaces.len() {
            return None;
        }
        let ghost o = self@;
        self.detach_client(id);
        let ghost d = self@;
        let t = workspace_idx as usize;
        assert(d.workspaces[t as int].wf());
        assert(!d.workspaces[t as int].clients.contains(id));
        self.workspaces[t].attach_client(id);
        proof {
            let tw = d.workspaces[t as int];
            let m = moved_view(o, id, workspace_idx);
            assert(d.workspaces =~= Seq::new(
                o.workspaces.len(),
                |k: int|
                    o.workspaces[k].with_lists(
                        remove_value(o.workspaces[k].clients, id),
                        remove_value(o.workspaces[k].stack, id),
                    ),
            ));
            assert(self@.workspaces =~= m.workspaces);
            assert(self@ == m);
            lemma_concat_contains(seq![id], tw.clients);
            assert forall|k: int| 0 <= k < self@.workspaces.len() implies (#[trigger] self@.workspaces[k]).wf() by {
                if k != t {
                    assert(self@.workspaces[k] == d.workspaces[k]);
                }
            }
            assert forall|i1: int, j1: int, x: u64|
                0 <= i1 < self@.workspaces.len() && 0 <= j1 < self@.workspaces.len() && i1 != j1
                    && #[trigger] self@.workspaces[i1].clients.contains(x) implies !#[trigger] self@.workspaces[j1].clients.contains(x) by {
                if i1 == t {
                    if x == id {
                        assert(!d.workspaces[j1].clients.contains(id));
                    } else {
                        assert(seq![id].contains(x) ==> x == id);
                        assert(tw.clients.contains(x));
                    }
                }
                if j1 == t && self@.workspaces[j1].clients.contains(x) {
                    if x == id {
                        assert(d.workspaces[i1].clients.contains(id));
                    } else {
                        assert(seq![id].contains(x) ==> x == id);
                        assert(tw.clients.contains(x));
                    }
                }
            }
        }
        Some(workspace_idx != self.cur_workspace)
    }

    /// Put a client on top of the stacking order of the shown workspace (nothing happens when it
    /// is not on it).
    pub fn raise_current(&mut self, id: u64)
        requires
            old(self)@.wf(),
            old(self)@.workspaces.len() > 0,
        ensures
            final(self)@.wf(),
            final(self)@ == (MonitorView {
                workspaces: old(self)@.workspaces.update(
                    old(self)@.cur as int,
                    raised_view(old(self)@.workspaces[old(self)@.cur as int], id),
                ),
                ..old(self)@
            }),
    {
        let ghost o = self@;
        let i = self.cur_workspace as usize;
        assert(o.workspaces[i as int].wf());
        self.workspaces[i].raise_client(id);
        proof {
            assert(self@.workspaces =~= o.workspaces.update(i as int, raised_view(o.workspaces[i as int], id)));
            assert forall|k: int| 0 <= k < self@.workspaces.len() implies (#[trigger] self@.workspaces[k]).wf() by {
                if k != i {
                    assert(self@.workspaces[k] == o.workspaces[k]);
                }
            }
            assert forall|k: int| 0 <= k < self@.workspaces.len() implies #[trigger] self@.workspaces[k].clients
                == o.workspaces[k].clients by {}
        }
    }

    /// What restacking the shown workspace asks for.
    pub fn restack_current(&self, table: &Vec<ClientFlags>) -> (plan: RestackPlan)
        requires
            self@.wf(),
            self@.workspaces.len() > 0,
        ensures
            plan.unset_fullscreen@ == restack_unset_fullscreen(self@.workspaces[self@.cur as int], table@),
            plan.raise@ == restack_raise(self@.workspaces[self@.cur as int], table@),
    {
        self.workspaces[self.cur_workspace as usize].restack(table)
    }

    /// Take a new monitor configuration; every workspace takes its window area.
    pub fn update_config(&mut self, config: MonitorConfig)
        requires
            old(self)@.wf(),
        ensures
            final(self)@.wf(),
            final(self)@.config == config,
            final(self)@.cur == old(self)@.cur,
            final(self)@.prev == old(self)@.prev,
            final(self)@.offset == old(self)@.offset,
            final(self)@.workspaces.len() == old(self)@.workspaces.len(),
            forall|k: int|
                0 <= k < old(self)@.workspaces.len() ==> #[trigger] final(self)@.workspaces[k] == (
                WorkspaceView { win_area: config.win_area, ..old(self)@.workspaces[k] }),
            final(self)@ == reconfigured_view(old(self)@, config),
    {
        let ghost o = self@;
        self.config = config;
        let area = self.config.window_area();
        let mut i: usize = 0;
        while i < self.workspaces.len()
            invariant
                i <= self.workspaces@.len(),
                self@.workspaces.len() == o.workspaces.len(),
                self@.config == config,
                area == config.win_area,
                self@.cur == o.cur,
                self@.prev == o.prev,
                self@.offset == o.offset,
                forall|k: int|
                    0 <= k < i ==> #[trigger] self@.workspaces[k] == (WorkspaceView {
                        win_area: config.win_area,
                        ..o.workspaces[k]
                    }),
                forall|k: int| i <= k < self@.workspaces.len() ==> #[trigger] self@.workspaces[k] == o.workspaces[k],
            decreases self.workspaces@.len() - i,
        {
            let ghost pv = self@;
            self.workspaces[i].update_window_area(area);
            proof {
                assert(self@.workspaces =~= pv.workspaces.update(
                    i as int,
                    WorkspaceView { win_area: area, ..pv.workspaces[i as int] },
                ));
            }
            i += 1;
        }
        proof {
            assert forall|k: int| 0 <= k < self@.workspaces.len() implies (#[trigger] self@.workspaces[k]).wf() by {
                assert(o.workspaces[k].wf());
            }
            assert forall|i1: int, j1: int, x: u64|
                0 <= i1 < self@.workspaces.len() && 0 <= j1 < self@.workspaces.len() && i1 != j1
                    && #[trigger] self@.workspaces[i1].clients.contains(x) implies !#[trigger] self@.workspaces[j1].clients.contains(x) by {
                assert(self@.workspaces[i1].clients == o.workspaces[i1].clients);
                assert(self@.workspaces[j1].clients == o.workspaces[j1].clients);
            }
        }
    }

    /// The workspaces of this monitor.
    pub fn workspaces(&self) -> (ws: &Vec<Workspace>)
        ensures
            ws@.len() == self@.workspaces.len(),
            forall|k: int| 0 <= k < ws@.len() ==> #[trigger] ws@[k]@ == self@.workspaces[k],
    {
        &self.workspaces
    }
}


/// Switching the shown workspace keeps every client on the monitor, and no other: pinned clients
/// only move from the old workspace to the new one.
pub proof fn lemma_switch_keeps_clients(o: MonitorView, t: u32, table: Seq<ClientFlags>)
    requires
        o.wf(),
        t < o.workspaces.len(),
        t != o.cur,
    ensures
        forall|x: u64| #[trigger] switched_view(o, t, table).contains(x) <==> o.contains(x),
{
    let n = switched_view(o, t, table);
    let c = o.cur as int;
    let cw = o.workspaces[c];
    let tw = o.workspaces[t as int];
    let moved = select(cw.clients, table, |f: ClientFlags| pinned(f));
    lemma_select_keeps_wf(cw.clients, cw.stack, table, |f: ClientFlags| pinned(f));
    lemma_select_keeps_wf(cw.clients, cw.stack, table, |f: ClientFlags| not_pinned(f));
    lemma_concat_contains(tw.clients, moved);
    assert forall|x: u64| #[trigger] n.contains(x) <==> o.contains(x) by {
        if n.contains(x) {
            let k = choose|k: int| 0 <= k < n.workspaces.len() && #[trigger] n.workspaces[k].clients.contains(x);
            if k == t {
                if tw.clients.contains(x) {
                    assert(o.workspaces[t as int].clients.contains(x));
                } else {
                    assert(o.workspaces[c].clients.contains(x));
                }
            } else if k == c {
                assert(o.workspaces[c].clients.contains(x));
            } else {
                assert(o.workspaces[k].clients.contains(x));
            }
        }
        if o.contains(x) {
            let k = choose|k: int| 0 <= k < o.workspaces.len() && #[trigger] o.workspaces[k].clients.contains(x);
            if k == t {
                assert(n.workspaces[t as int].clients.contains(x));
            } else if k == c {
                if pinned(flags_of(table, x)) {
                    assert(moved.contains(x));
                    assert(n.workspaces[t as int].clients.contains(x));
                } else {
                    assert(n.workspaces[c].clients.contains(x));
                }
            } else {
                assert(n.workspaces[k].clients.contains(x));
            }
        }
    }
}

/// Moving a client to a workspace puts it first on that workspace and on no other, and leaves
/// every other client where it was.
pub proof fn lemma_move_places_client(o: MonitorView, id: u64, t: u32)
    requires
        o.wf(),
        t < o.workspaces.len(),
    ensures
        ({
            let m = moved_view(o, id, t);
            &&& m.workspaces[t as int].clients[0] == id
            &&& forall|k: int| 0 <= k < m.workspaces.len() && k != t ==> !(#[trigger] m.workspaces[k]).clients.contains(id)
            &&& forall|k: int, x: u64|
                0 <= k < m.workspaces.len() && x != id ==> (#[trigger] m.workspaces[k].clients.contains(x)
                    <==> o.workspaces[k].clients.contains(x))
        }),
{
    let m = moved_view(o, id, t);
    assert forall|k: int, x: u64| 0 <= k < o.workspaces.len() implies
        (#[trigger] remove_value(o.workspaces[k].clients, id).contains(x) <==> o.workspaces[k].clients.contains(x) && x != id) by {
        let w = o.workspaces[k];
        assert(w.wf());
        if w.clients.contains(id) {
            let i = w.clients.index_of(id);
            crate::seqs::lemma_remove_at(w.clients, i);
            assert(remove_value(w.clients, id).contains(x) <==> remove_value(w.clients, id).to_set().contains(x));
            assert(w.clients.contains(x) <==> w.clients.to_set().contains(x));
        }
    }
    let tw = m.workspaces[t as int];
    assert(tw.clients[0] == id);
    lemma_concat_contains(seq![id], remove_value(o.workspaces[t as int].clients, id));
    assert forall|k: int, x: u64|
        0 <= k < m.workspaces.len() && x != id implies (#[trigger] m.workspaces[k].clients.contains(x)
            <==> o.workspaces[k].clients.contains(x)) by {
        assert(seq![id].contains(x) ==> x == id);
        assert(remove_value(o.workspaces[k].clients, id).contains(x) <==> o.workspaces[k].clients.contains(x));
    }
    assert forall|k: int| 0 <= k < m.workspaces.len() && k != t implies !(#[trigger] m.workspaces[k]).clients.contains(id) by {
        assert(!remove_value(o.workspaces[k].clients, id).contains(id));
    }
}

/// A client attached to the shown workspace is on the monitor, next to the clients that were.
pub proof fn lemma_attached_contains(o: MonitorView, id: u64)
    requires
        o.wf(),
        o.workspaces.len() > 0,
    ensures
        forall|x: u64| #[trigger] attached_view(o, id).contains(x) <==> o.contains(x) || x == id,
{
    let n = attached_view(o, id);
    let c = o.cur as int;
    let cw = o.workspaces[c];
    lemma_concat_contains(seq![id], cw.clients);
    assert forall|x: u64| #[trigger] n.contains(x) <==> o.contains(x) || x == id by {
        if n.contains(x) {
            let k = choose|k: int| 0 <= k < n.workspaces.len() && #[trigger] n.workspaces[k].clients.contains(x);
            if k == c && x != id {
                assert(seq![id].contains(x) ==> x == id);
                assert(o.workspaces[c].clients.contains(x));
            } else if k != c {
                assert(o.workspaces[k].clients.contains(x));
            }
        }
        if x == id {
            assert(seq![id].contains(id)) by {
                assert(seq![id][0] == id);
            }
            assert(n.workspaces[c].clients.contains(id));
        } else if o.contains(x) {
            let k = choose|k: int| 0 <= k < o.workspaces.len() && #[trigger] o.workspaces[k].clients.contains(x);
            assert(n.workspaces[k].clients.contains(x));
        }
    }
}

/// A client moved to a workspace is on the monitor, next to the clients that were.
pub proof fn lemma_moved_contains(o: MonitorView, id: u64, t: u32)
    requires
        o.wf(),
        t < o.workspaces.len(),
    ensures
        forall|x: u64| #[trigger] moved_view(o, id, t).contains(x) <==> o.contains(x) || x == id,
{
    lemma_move_places_client(o, id, t);
    let m = moved_view(o, id, t);
    assert forall|x: u64| #[trigger] m.contains(x) <==> o.contains(x) || x == id by {
        if m.contains(x) && x != id {
            let k = choose|k: int| 0 <= k < m.workspaces.len() && #[trigger] m.workspaces[k].clients.contains(x);
            assert(o.workspaces[k].clients.contains(x));
        }
        if x == id {
            assert(m.workspaces[t as int].clients[0] == id);
            assert(m.workspaces[t as int].clients.contains(id));
        } else if o.contains(x) {
            let k = choose|k: int| 0 <= k < o.workspaces.len() && #[trigger] o.workspaces[k].clients.contains(x);
            assert(m.workspaces[k].clients.contains(x));
        }
    }
}

/// No client on the monitor is pinned.
pub open spec fn none_pinned(o: MonitorView, table: Seq<ClientFlags>) -> bool {
    forall|k: int, x: u64|
        0 <= k < o.workspaces.len() && #[trigger] o.workspaces[k].clients.contains(x) ==> !flags_of(table, x).is_pinned
}

/// Without pinned clients, showing another workspace and then the one shown before gives back
/// the monitor as it was, except that the other workspace is now the previous one.
pub proof fn lemma_switch_and_back(o: MonitorView, t: u32, table: Seq<ClientFlags>)
    requires
        o.wf(),
        t < o.workspaces.len(),
        t != o.cur,
        none_pinned(o, table),
    ensures
        switched_view(switched_view(o, t, table), o.cur, table) == (MonitorView { prev: t, ..o }),
{
    let c = o.cur as int;
    assert forall|k: int| 0 <= k < o.workspaces.len() implies {
        let w = #[trigger] o.workspaces[k];
        &&& select(w.clients, table, |f: ClientFlags| pinned(f)) == Seq::<u64>::empty()
        &&& select(w.clients, table, |f: ClientFlags| not_pinned(f)) == w.clients
        &&& select(w.stack, table, |f: ClientFlags| not_pinned(f)) == w.stack
    } by {
        let w = o.workspaces[k];
        assert(w.wf());
        assert forall|i: int| 0 <= i < w.clients.len() implies !pinned(flags_of(table, #[trigger] w.clients[i])) by {
            assert(w.clients.contains(w.clients[i]));
        }
        assert forall|i: int| 0 <= i < w.stack.len() implies not_pinned(flags_of(table, #[trigger] w.stack[i])) by {
            assert(w.stack.to_set().contains(w.stack[i]));
            assert(w.clients.to_set().contains(w.stack[i]));
            assert(w.clients.contains(w.stack[i]));
        }
        lemma_select_none(w.clients, table, |f: ClientFlags| pinned(f));
        lemma_select_all(w.clients, table, |f: ClientFlags| not_pinned(f));
        lemma_select_all(w.stack, table, |f: ClientFlags| not_pinned(f));
    }
    let cw = o.workspaces[c];
    let tw = o.workspaces[t as int];
    assert(cw.with_lists(cw.clients, cw.stack) == cw);
    assert(tw.with_lists(tw.clients + Seq::<u64>::empty(), tw.stack + Seq::<u64>::empty()) =~= tw);
    let n = switched_view(o, t, table);
    assert(n.workspaces =~= o.workspaces);
    assert(cw.with_lists(cw.clients + Seq::<u64>::empty(), cw.stack + Seq::<u64>::empty()) =~= cw);
    let b = switched_view(n, o.cur, table);
    assert(b.workspaces =~= o.workspaces);
}

} // verus!
