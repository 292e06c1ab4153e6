//! A workspace: the clients on it in the user's order and in stacking order, and its layout.
//!
//! Clients are identified by their frame window. The flags of the clients (floating, dialog,
//! fullscreen, pinned) are handed in as a table where an operation reads them.
use vstd::prelude::*;

use crate::client::{flags_of, lookup_flags, pinned_desktop_value, Attributes, ClientFlags, X11Client, PINNED_DESKTOP};
use crate::geometry::Dimensions;
use crate::layouts::{
    apply_layout, layout_fits, layout_fits_check, spec_placement, LayoutConfiguration, LayoutType, StackMode,
    StackPosition,
};
use crate::seqs::{
    lemma_filter_drops_all, lemma_filter_keeps_all, lemma_index_unique, lemma_insert_at, lemma_push_front, lemma_remove_at, position,
    remove_value,
};

verus! {

/// The abstract state of a workspace.
#[verifier::ext_equal]
pub struct WorkspaceView {
    pub name: Seq<char>,
    pub global_index: u32,
    /// clients in the order the user arranged them
    pub clients: Seq<u64>,
    /// clients in stacking order, the most recently raised first
    pub stack: Seq<u64>,
    pub win_area: Dimensions,
    pub layout: LayoutType,
    pub config: LayoutConfiguration,
}

impl WorkspaceView {
    /// Both lists hold the same clients, each once.
    pub open spec fn wf(self) -> bool {
        &&& self.clients.no_duplicates()
        &&& self.stack.no_duplicates()
        &&& self.clients.to_set() == self.stack.to_set()
    }

    /// The client is one of the first `nmain` clients.
    pub open spec fn is_main(self, id: u64) -> bool {
        self.clients.contains(id) && self.clients.index_of(id) < self.config.nmain
    }

    /// Only the client lists differ.
    pub open spec fn with_lists(self, clients: Seq<u64>, stack: Seq<u64>) -> WorkspaceView {
        WorkspaceView { clients, stack, ..self }
    }
}

/// The first client in `s` that is (or, with `main == false`, is not) a main client of `v`.
pub open spec fn first_by_main(v: WorkspaceView, s: Seq<u64>, main: bool) -> Option<u64>
    decreases s.len(),
{
    if s.len() == 0 {
        None
    } else if v.is_main(s[0]) == main {
        Some(s[0])
    } else {
        first_by_main(v, s.drop_first(), main)
    }
}

/// The clients of `s` whose flags satisfy `pred`, in their order.
pub open spec fn select(
    s: Seq<u64>,
    table: Seq<ClientFlags>,
    pred: spec_fn(ClientFlags) -> bool,
) -> Seq<u64> {
    s.filter(|id: u64| pred(flags_of(table, id)))
}

/// Pinned clients.
pub open spec fn pinned(f: ClientFlags) -> bool {
    f.is_pinned
}

/// Clients that are not pinned.
pub open spec fn not_pinned(f: ClientFlags) -> bool {
    !f.is_pinned
}

/// Clients that are tiled (neither floating nor dialogs).
pub open spec fn tiled(f: ClientFlags) -> bool {
    !f.is_floating && !f.is_dialog
}

/// Clients that are not floating.
pub open spec fn not_floating(f: ClientFlags) -> bool {
    !f.is_floating
}

/// Floating clients.
pub open spec fn floating(f: ClientFlags) -> bool {
    f.is_floating
}

/// Fullscreen clients.
pub open spec fn fullscreen(f: ClientFlags) -> bool {
    f.is_fullscreen
}

/// What restacking a workspace asks for: which clients leave fullscreen (every fullscreen client
/// but the first), then the clients to raise, in this order (the floating clients from the
/// bottom of the stack upwards unless the layout is floating, then the remaining fullscreen
/// client).
pub struct RestackPlan {
    pub unset_fullscreen: Vec<u64>,
    pub raise: Vec<u64>,
}

/// The fullscreen clients that restacking takes out of fullscreen: all but the first.
pub open spec fn restack_unset_fullscreen(v: WorkspaceView, table: Seq<ClientFlags>) -> Seq<u64> {
    let fs = select(v.clients, table, |f: ClientFlags| fullscreen(f));
    if fs.len() > 0 {
        fs.drop_first()
    } else {
        fs
    }
}

/// The clients that restacking raises, in this order: the floating clients from the bottom of
/// the stack upwards (unless the layout is floating), then the first fullscreen client.
pub open spec fn restack_raise(v: WorkspaceView, table: Seq<ClientFlags>) -> Seq<u64> {
    let fs = select(v.clients, table, |f: ClientFlags| fullscreen(f));
    let fl = select(v.stack, table, |f: ClientFlags| floating(f));
    let raised_floating = if v.layout != LayoutType::Floating {
        fl.reverse()
    } else {
        Seq::empty()
    };
    if fs.len() > 0 {
        raised_floating.push(fs[0])
    } else {
        raised_floating
    }
}

/// A workspace with its clients and layout.
pub struct Workspace {
    name: String,
    global_index: u32,
    clients: Vec<u64>,
    clients_stack: Vec<u64>,
    win_area: Dimensions,
    cur_layout: LayoutType,
    layout_config: LayoutConfiguration,
}

impl View for Workspace {
    type V = WorkspaceView;

    closed spec fn view(&self) -> WorkspaceView {
        WorkspaceView {
            name: self.name@,
            global_index: self.global_index,
            clients: self.clients@,
            stack: self.clients_stack@,
            win_area: self.win_area,
            layout: self.cur_layout,
            config: self.layout_config,
        }
    }
}

/// Selecting by a predicate that every client passes keeps the sequence.
pub proof fn lemma_select_all(s: Seq<u64>, table: Seq<ClientFlags>, pred: spec_fn(ClientFlags) -> bool)
    requires
        forall|i: int| 0 <= i < s.len() ==> pred(flags_of(table, #[trigger] s[i])),
    ensures
        select(s, table, pred) == s,
{
    lemma_filter_keeps_all(s, |id: u64| pred(flags_of(table, id)));
}

/// Selecting by a predicate that no client passes leaves nothing.
pub proof fn lemma_select_none(s: Seq<u64>, table: Seq<ClientFlags>, pred: spec_fn(ClientFlags) -> bool)
    requires
        forall|i: int| 0 <= i < s.len() ==> !pred(flags_of(table, #[trigger] s[i])),
    ensures
        select(s, table, pred) == Seq::<u64>::empty(),
{
    lemma_filter_drops_all(s, |id: u64| pred(flags_of(table, id)));
}

/// Filter one step further: the filter of a prefix grows by the next element when it passes.
pub proof fn lemma_filter_step(s: Seq<u64>, i: int, pred: spec_fn(u64) -> bool)
    requires
        0 <= i < s.len(),
    ensures
        s.take(i + 1).filter(pred) == if pred(s[i]) {
            s.take(i).filter(pred).push(s[i])
        } else {
            s.take(i).filter(pred)
        },
{
    reveal(Seq::filter);
    assert(s.take(i + 1).drop_last() =~= s.take(i));
    assert(s.take(i + 1).last() == s[i]);
}

/// The filter of a whole sequence is the filter of its full prefix.
proof fn lemma_take_all(s: Seq<u64>)
    ensures
        s.take(s.len() as int) == s,
{
    assert(s.take(s.len() as int) =~= s);
}

/// The clients of `v` whose flags satisfy `pred`, in their order.
fn select_from(v: &Vec<u64>, table: &Vec<ClientFlags>, pred_pinned: bool, which: u8) -> (r: Vec<u64>)
    requires
        which < 5,
    ensures
        r@ == select(v@, table@, selector(pred_pinned, which)),
{
    let ghost pred = selector(pred_pinned, which);
    let ghost f = |id: u64| pred(flags_of(table@, id));
    let mut out: Vec<u64> = Vec::new();
    let mut i: usize = 0;
    assert(v@.take(0) =~= Seq::<u64>::empty());
    while i < v.len()
        invariant
            i <= v@.len(),
            which < 5,
            pred == selector(pred_pinned, which),
            f == (|id: u64| pred(flags_of(table@, id))),
            out@ == v@.take(i as int).filter(f),
        decreases v@.len() - i,
    {
        proof {
            lemma_filter_step(v@, i as int, f);
        }
        let flags = lookup_flags(table, v[i]);
        let keep = match which {
            0 => flags.is_pinned == pred_pinned,
            1 => !flags.is_floating && !flags.is_dialog,
            2 => !flags.is_floating,
            3 => flags.is_floating,
            _ => flags.is_fullscreen,
        };
        if keep {
            out.push(v[i]);
        }
        i += 1;
    }
    proof {
        lemma_take_all(v@);
    }
    out
}

/// The predicates that [select_from] offers.
pub open spec fn selector(pinned_state: bool, which: u8) -> spec_fn(ClientFlags) -> bool {
    if which == 0 {
        if pinned_state {
            |f: ClientFlags| pinned(f)
        } else {
            |f: ClientFlags| not_pinned(f)
        }
    } else if which == 1 {
        |f: ClientFlags| tiled(f)
    } else if which == 2 {
        |f: ClientFlags| not_floating(f)
    } else if which == 3 {
        |f: ClientFlags| floating(f)
    } else {
        |f: ClientFlags| fullscreen(f)
    }
}

impl Workspace {
    /// An empty workspace in the configured default layout.
    pub fn new(name: String, global_index: u32, win_area: Dimensions, layout_config: LayoutConfiguration) -> (ws:
        Workspace)
        ensures
            ws@ == (WorkspaceView {
                name: name@,
                global_index,
                clients: Seq::empty(),
                stack: Seq::empty(),
                win_area,
                layout: layout_config.default,
                config: layout_config,
            }),
            ws@.wf(),
    {
        let ws = Workspace {
            name,
            global_index,
            clients: Vec::new(),
            clients_stack: Vec::new(),
            win_area,
            cur_layout: layout_config.default,
            layout_config,
        };
        assert(ws@.clients.to_set() =~= ws@.stack.to_set());
        ws
    }

    pub fn name(&self) -> (n: &str)
        ensures
            n@ == self@.name,
    {
        self.name.as_str()
    }

    pub fn global_index(&self) -> (i: u32)
        ensures
            i == self@.global_index,
    {
        self.global_index
    }

    pub fn current_layout(&self) -> (l: LayoutType)
        ensures
            l == self@.layout,
    {
        self.cur_layout
    }

    /// The layout parameters of this workspace.
    pub fn layout_config(&self) -> (c: LayoutConfiguration)
        ensures
            c == self@.config,
    {
        self.layout_config
    }

    /// The area that the windows of this workspace may occupy.
    pub fn window_area(&self) -> (d: Dimensions)
        ensures
            d == self@.win_area,
    {
        self.win_area
    }

    /// The clients in the order the user arranged them.
    pub fn clients(&self) -> (c: &Vec<u64>)
        ensures
            c@ == self@.clients,
    {
        &self.clients
    }

    /// The clients in stacking order, the most recently raised first.
    pub fn clients_stack(&self) -> (c: &Vec<u64>)
        ensures
            c@ == self@.stack,
    {
        &self.clients_stack
    }

    pub fn contains(&self, id: u64) -> (b: bool)
        ensures
            b == self@.clients.contains(id),
    {
        position(&self.clients, id).is_some()
    }

    /// Position of the client in the user's order.
    pub fn index_of(&self, id: u64) -> (r: Option<usize>)
        requires
            self@.wf(),
        ensures
            r matches Some(i) ==> self@.clients.contains(id) && i == self@.clients.index_of(id),
            r is None ==> !self@.clients.contains(id),
    {
        let r = position(&self.clients, id);
        proof {
            if let Some(i) = r {
                lemma_index_unique(self@.clients, i as int);
            }
        }
        r
    }

    /// Whether the client is one of the main clients.
    pub fn is_main(&self, id: u64) -> (b: bool)
        requires
            self@.wf(),
        ensures
            b == self@.is_main(id),
    {
        match self.index_of(id) {
            Some(idx) => (idx as u64) < (self.layout_config.nmain as u64),
            None => false,
        }
    }

    fn first_in_stack_by_main(&self, main: bool) -> (r: Option<u64>)
        requires
            self@.wf(),
        ensures
            r == first_by_main(self@, self@.stack, main),
    {
        let mut i: usize = 0;
        assert(self@.stack.subrange(0, self@.stack.len() as int) =~= self@.stack);
        while i < self.clients_stack.len()
            invariant
                self@.wf(),
                i <= self@.stack.len(),
                first_by_main(self@, self@.stack, main) == first_by_main(
                    self@,
                    self@.stack.subrange(i as int, self@.stack.len() as int),
                    main,
                ),
            decreases self@.stack.len() - i,
        {
            let id = self.clients_stack[i];
            assert(self@.stack.subrange(i as int, self@.stack.len() as int).drop_first()
                =~= self@.stack.subrange(i + 1, self@.stack.len() as int));
            if self.is_main(id) == main {
                return Some(id);
            }
            i += 1;
        }
        None
    }

    /// The most recently raised main client.
    pub fn last_active_main(&self) -> (r: Option<u64>)
        requires
            self@.wf(),
        ensures
            r == first_by_main(self@, self@.stack, true),
    {
        self.first_in_stack_by_main(true)
    }

    /// The most recently raised client that is not a main client.
    pub fn last_active_stack(&self) -> (r: Option<u64>)
        requires
            self@.wf(),
        ensures
            r == first_by_main(self@, self@.stack, false),
    {
        self.first_in_stack_by_main(false)
    }

    /// Put a new client on the workspace: first in the user's order and on top of the stack.
    pub fn attach_client(&mut self, id: u64)
        requires
            old(self)@.wf(),
            !old(self)@.clients.contains(id),
        ensures
            final(self)@ == old(self)@.with_lists(
                seq![id] + old(self)@.clients,
                seq![id] + old(self)@.stack,
            ),
            final(self)@.wf(),
    {
        proof {
            assert(!self@.stack.contains(id)) by {
                assert(!self@.clients.to_set().contains(id));
            }
            lemma_push_front(self@.clients, id);
            lemma_push_front(self@.stack, id);
        }
        self.clients.insert(0, id);
        self.clients_stack.insert(0, id);
        assert(self@.clients =~= seq![id] + old(self)@.clients);
        assert(self@.stack =~= seq![id] + old(self)@.stack);
    }

    /// Take a client off the workspace (nothing happens when it is not on it).
    pub fn detach_client(&mut self, id: u64)
        requires
            old(self)@.wf(),
        ensures
            final(self)@ == old(self)@.with_lists(
                remove_value(old(self)@.clients, id),
                remove_value(old(self)@.stack, id),
            ),
            final(self)@.wf(),
            !final(self)@.clients.contains(id),
            final(self)@.clients.to_set() == old(self)@.clients.to_set().remove(id),
    {
        let ghost old_view = self@;
        if let Some(index) = position(&self.clients, id) {
            proof {
                lemma_remove_at(self@.clients, index as int);
            }
            self.clients.remove(index);
        }
        if let Some(index) = position(&self.clients_stack, id) {
            proof {
                lemma_remove_at(self@.stack, index as int);
            }
            self.clients_stack.remove(index);
        }
        proof {
            if !old_view.clients.contains(id) {
                assert(!old_view.stack.contains(id)) by {
                    assert(!old_view.clients.to_set().contains(id));
                }
                assert(old_view.clients.to_set().remove(id) =~= old_view.clients.to_set());
            } else {
                assert(old_view.stack.contains(id)) by {
                    assert(old_view.clients.to_set().contains(id));
                }
            }
        }
    }

    /// Move a client to the front of the user's order; a main client that is first moves to the
    /// start of the stack area instead (when there are stack clients).
    pub fn move_main(&mut self, id: u64)
        requires
            old(self)@.wf(),
        ensures
            final(self)@.wf(),
            final(self)@.clients.to_set() == old(self)@.clients.to_set(),
            !old(self)@.clients.contains(id) ==> final(self)@ == old(self)@,
            old(self)@.clients.contains(id) ==> {
                let i = old(self)@.clients.index_of(id);
                let nmain = old(self)@.config.nmain as int;
                let rest = old(self)@.clients.remove(i);
                final(self)@ == old(self)@.with_lists(
                    if i < nmain && old(self)@.clients.len() > nmain {
                        rest.insert(nmain, id)
                    } else {
                        seq![id] + rest
                    },
                    old(self)@.stack,
                )
            },
    {
        let nmain = self.layout_config.nmain as usize;
        if let Some(index) = position(&self.clients, id) {
            let ghost old_clients = self@.clients;
            proof {
                lemma_index_unique(old_clients, index as int);
                lemma_remove_at(old_clients, index as int);
            }
            let nclients = self.clients.len();
            self.clients.remove(index);
            if index < nmain && nclients > nmain {
                proof {
                    lemma_insert_at(old_clients.remove(index as int), nmain as int, id);
                }
                self.clients.insert(nmain, id);
            } else {
                proof {
                    lemma_push_front(old_clients.remove(index as int), id);
                }
                self.clients.insert(0, id);
                assert(self@.clients =~= seq![id] + old_clients.remove(index as int));
            }
            proof {
                assert(old_clients.to_set().remove(id).insert(id) =~= old_clients.to_set());
            }
        }
    }

    /// Put a client on top of the stacking order (nothing happens when it is not on the
    /// workspace).
    pub fn raise_client(&mut self, id: u64)
        requires
            old(self)@.wf(),
        ensures
            final(self)@.wf(),
            !old(self)@.clients.contains(id) ==> final(self)@ == old(self)@,
            old(self)@.clients.contains(id) ==> final(self)@ == old(self)@.with_lists(
                old(self)@.clients,
                seq![id] + remove_value(old(self)@.stack, id),
            ),
    {
        if !self.contains(id) {
            return;
        }
        let ghost old_stack = self@.stack;
        proof {
            assert(old_stack.contains(id)) by {
                assert(self@.clients.to_set().contains(id));
            }
        }
        if let Some(index) = position(&self.clients_stack, id) {
            proof {
                lemma_remove_at(old_stack, index as int);
                lemma_push_front(old_stack.remove(index as int), id);
                assert(old_stack.to_set().remove(id).insert(id) =~= old_stack.to_set());
            }
            self.clients_stack.remove(index);
            self.clients_stack.insert(0, id);
            assert(self@.stack =~= seq![id] + old_stack.remove(index as int));
        }
    }

    /// Move a client by `inc` places in the user's order, wrapping around at the ends.
    pub fn stack_move(&mut self, id: u64, inc: i32)
        requires
            old(self)@.wf(),
            old(self)@.clients.len() <= i32::MAX,
            old(self)@.clients.contains(id) ==> i32::MIN <= old(self)@.clients.index_of(id) + inc
                + old(self)@.clients.len() <= i32::MAX,
        ensures
            final(self)@.wf(),
            final(self)@.clients.to_set() == old(self)@.clients.to_set(),
            !old(self)@.clients.contains(id) ==> final(self)@ == old(self)@,
            old(self)@.clients.contains(id) ==> {
                let pos = old(self)@.clients.index_of(id);
                let len = old(self)@.clients.len();
                let new_pos = (((pos + inc + len) as i32) as usize) % (len as usize);
                final(self)@ == old(self)@.with_lists(
                    old(self)@.clients.remove(pos).insert(new_pos as int, id),
                    old(self)@.stack,
                )
            },
    {
        if let Some(pos) = position(&self.clients, id) {
            let ghost old_clients = self@.clients;
            proof {
                lemma_index_unique(old_clients, pos as int);
                lemma_remove_at(old_clients, pos as int);
            }
            let len = self.clients.len();
            let sum: i32 = pos as i32 + inc + len as i32;
            let new_pos = (sum as usize) % len;
            self.clients.remove(pos);
            proof {
                lemma_insert_at(old_clients.remove(pos as int), new_pos as int, id);
                assert(old_clients.to_set().remove(id).insert(id) =~= old_clients.to_set());
            }
            self.clients.insert(new_pos, id);
        }
    }

    /// Move a client to position `i` of the user's order.
    pub fn stack_set_pos(&mut self, id: u64, i: usize)
        requires
            old(self)@.wf(),
            old(self)@.clients.contains(id) ==> i < old(self)@.clients.len(),
        ensures
            final(self)@.wf(),
            final(self)@.clients.to_set() == old(self)@.clients.to_set(),
            !old(self)@.clients.contains(id) ==> final(self)@ == old(self)@,
            old(self)@.clients.contains(id) ==> final(self)@ == old(self)@.with_lists(
                old(self)@.clients.remove(old(self)@.clients.index_of(id)).insert(i as int, id),
                old(self)@.stack,
            ),
    {
        if let Some(pos) = position(&self.clients, id) {
            let ghost old_clients = self@.clients;
            proof {
                lemma_index_unique(old_clients, pos as int);
                lemma_remove_at(old_clients, pos as int);
                lemma_insert_at(old_clients.remove(pos as int), i as int, id);
                assert(old_clients.to_set().remove(id).insert(id) =~= old_clients.to_set());
            }
            self.clients.remove(pos);
            self.clients.insert(i, id);
        }
    }

    /// Take the pinned clients off the workspace; returns them in the user's order.
    pub fn pull_pinned(&mut self, table: &Vec<ClientFlags>) -> (pulled: Vec<u64>)
        requires
            old(self)@.wf(),
        ensures
            pulled@ == select(old(self)@.clients, table@, |f: ClientFlags| pinned(f)),
            final(self)@ == old(self)@.with_lists(
                select(old(self)@.clients, table@, |f: ClientFlags| not_pinned(f)),
                select(old(self)@.stack, table@, |f: ClientFlags| not_pinned(f)),
            ),
            final(self)@.wf(),
    {
        let ghost old_view = self@;
        let pulled = select_from(&self.clients, table, true, 0);
        let kept = select_from(&self.clients, table, false, 0);
        let kept_stack = select_from(&self.clients_stack, table, false, 0);
        self.clients = kept;
        self.clients_stack = kept_stack;
        proof {
            lemma_select_keeps_wf(old_view.clients, old_view.stack, table@, |f: ClientFlags| not_pinned(f));
        }
        pulled
    }

    /// Put clients (that are not on the workspace yet) at the end of both orders.
    pub fn push_pinned(&mut self, clients: Vec<u64>)
        requires
            old(self)@.wf(),
            clients@.no_duplicates(),
            forall|i: int| 0 <= i < clients@.len() ==> !old(self)@.clients.contains(#[trigger] clients@[i]),
        ensures
            final(self)@ == old(self)@.with_lists(
                old(self)@.clients + clients@,
                old(self)@.stack + clients@,
            ),
            final(self)@.wf(),
    {
        let ghost old_view = self@;
        let mut i: usize = 0;
        while i < clients.len()
            invariant
                i <= clients@.len(),
                old_view.wf(),
                self@ == old_view.with_lists(
                    old_view.clients + clients@.take(i as int),
                    old_view.stack + clients@.take(i as int),
                ),
                self@.wf(),
                clients@.no_duplicates(),
                forall|k: int| 0 <= k < clients@.len() ==> !old_view.clients.contains(#[trigger] clients@[k]),
            decreases clients@.len() - i,
        {
            let id = clients[i];
            proof {
                assert(!self@.clients.contains(id)) by {
                    if self@.clients.contains(id) {
                        let k = choose|k: int| 0 <= k < self@.clients.len() && self@.clients[k] == id;
                        if k < old_view.clients.len() {
                            assert(old_view.clients[k] == id);
                        } else {
                            assert(clients@[k - old_view.clients.len()] == id);
                        }
                    }
                }
                assert(!self@.stack.contains(id)) by {
                    assert(!self@.clients.to_set().contains(id));
                }
                lemma_push_back(self@.clients, id);
                lemma_push_back(self@.stack, id);
            }
            self.clients.push(id);
            self.clients_stack.push(id);
            assert(old_view.clients + clients@.take(i + 1) =~= (old_view.clients + clients@.take(
                i as int,
            )).push(id));
            assert(old_view.stack + clients@.take(i + 1) =~= (old_view.stack + clients@.take(
                i as int,
            )).push(id));
            i += 1;
        }
        assert(clients@.take(clients@.len() as int) =~= clients@);
    }

    /// The clients that are not floating, in the user's order.
    pub fn tiled_clients(&self, table: &Vec<ClientFlags>) -> (r: Vec<u64>)
        ensures
            r@ == select(self@.clients, table@, |f: ClientFlags| not_floating(f)),
    {
        select_from(&self.clients, table, false, 2)
    }

    /// The fullscreen clients, in the user's order (the ones that leave fullscreen when the
    /// workspace drops fullscreen).
    pub fn drop_fullscreen(&self, table: &Vec<ClientFlags>) -> (r: Vec<u64>)
        ensures
            r@ == select(self@.clients, table@, |f: ClientFlags| fullscreen(f)),
    {
        select_from(&self.clients, table, false, 4)
    }

    /// Where each tiled client (neither floating nor dialog, in the user's order) goes in the
    /// current layout; `None` leaves the client where it is.
    pub fn apply_layout(&self, table: &Vec<ClientFlags>, main_width: u32, main_height: u32) -> (r: Vec<
        (u64, Option<Dimensions>),
    >)
        requires
            layout_fits(
                self@.layout,
                self@.win_area,
                select(self@.clients, table@, |f: ClientFlags| tiled(f)).len() as int,
                self@.config,
                main_width,
                main_height,
            ),
        ensures
            ({
                let t = select(self@.clients, table@, |f: ClientFlags| tiled(f));
                let fs = t.map_values(|id: u64| flags_of(table@, id).is_fullscreen);
                &&& r@.len() == t.len()
                &&& forall|i: int|
                    0 <= i < t.len() ==> #[trigger] r@[i] == (
                        t[i],
                        spec_placement(
                            self@.layout,
                            self@.win_area,
                            fs,
                            self@.config,
                            main_width,
                            main_height,
                            i,
                        ),
                    )
            }),
    {
        let tiled_ids = select_from(&self.clients, table, false, 1);
        let ghost t = tiled_ids@;
        let mut fs: Vec<bool> = Vec::new();
        let mut i: usize = 0;
        while i < tiled_ids.len()
            invariant
                i <= t.len(),
                tiled_ids@ == t,
                fs@ == t.take(i as int).map_values(|id: u64| flags_of(table@, id).is_fullscreen),
            decreases t.len() - i,
        {
            let f = lookup_flags(table, tiled_ids[i]);
            fs.push(f.is_fullscreen);
            assert(t.take(i + 1).map_values(|id: u64| flags_of(table@, id).is_fullscreen)
                =~= t.take(i as int).map_values(|id: u64| flags_of(table@, id).is_fullscreen).push(
                f.is_fullscreen,
            ));
            i += 1;
        }
        assert(t.take(t.len() as int) =~= t);
        let placements = apply_layout(
            self.cur_layout,
            self.win_area,
            &fs,
            &self.layout_config,
            main_width,
            main_height,
        );
        let mut out: Vec<(u64, Option<Dimensions>)> = Vec::new();
        let mut j: usize = 0;
        while j < tiled_ids.len()
            invariant
                j <= t.len(),
                tiled_ids@ == t,
                placements@.len() == t.len(),
                out@.len() == j,
                forall|k: int| 0 <= k < j ==> #[trigger] out@[k] == (t[k], placements@[k]),
            decreases t.len() - j,
        {
            out.push((tiled_ids[j], placements[j]));
            j += 1;
        }
        out
    }

    /// Whether the current layout can be computed for the tiled clients (see [layout_fits]).
    pub fn layout_fits_now(&self, table: &Vec<ClientFlags>, main_width: u32, main_height: u32) -> (b: bool)
        ensures
            b == layout_fits(
                self@.layout,
                self@.win_area,
                select(self@.clients, table@, |f: ClientFlags| tiled(f)).len() as int,
                self@.config,
                main_width,
                main_height,
            ),
    {
        let tiled_ids = select_from(&self.clients, table, false, 1);
        layout_fits_check(self.cur_layout, self.win_area, tiled_ids.len(), &self.layout_config, main_width, main_height)
    }

    /// What restacking the workspace asks for (see [RestackPlan]).
    pub fn restack(&self, table: &Vec<ClientFlags>) -> (plan: RestackPlan)
        ensures
            plan.unset_fullscreen@ == restack_unset_fullscreen(self@, table@),
            plan.raise@ == restack_raise(self@, table@),
    {
        let fs = select_from(&self.clients, table, false, 4);
        let fl = select_from(&self.clients_stack, table, false, 3);
        let mut unset_fullscreen: Vec<u64> = Vec::new();
        if fs.len() > 0 {
            let mut k: usize = 1;
            while k < fs.len()
                invariant
                    1 <= k <= fs@.len(),
                    unset_fullscreen@ == fs@.subrange(1, k as int),
                decreases fs@.len() - k,
            {
                unset_fullscreen.push(fs[k]);
                assert(fs@.subrange(1, k + 1) =~= fs@.subrange(1, k as int).push(fs@[k as int]));
                k += 1;
            }
            assert(fs@.subrange(1, fs@.len() as int) =~= fs@.drop_first());
        } else {
            assert(unset_fullscreen@ =~= fs@);
        }
        let mut raise: Vec<u64> = Vec::new();
        if self.cur_layout != LayoutType::Floating {
            let mut m: usize = fl.len();
            while m > 0
                invariant
                    m <= fl@.len(),
                    raise@ == fl@.subrange(m as int, fl@.len() as int).reverse(),
                decreases m,
            {
                m -= 1;
                raise.push(fl[m]);
                assert(fl@.subrange(m as int, fl@.len() as int).reverse() =~= fl@.subrange(
                    m + 1,
                    fl@.len() as int,
                ).reverse().push(fl@[m as int]));
            }
            assert(fl@.subrange(0, fl@.len() as int) =~= fl@);
        }
        if fs.len() > 0 {
            raise.push(fs[0]);
        }
        RestackPlan { unset_fullscreen, raise }
    }

    pub fn set_layout(&mut self, layout: LayoutType)
        ensures
            final(self)@ == (WorkspaceView { layout, ..old(self)@ }),
    {
        self.cur_layout = layout;
    }

    /// Switch to the next layout in the list of all layouts.
    pub fn cycle_layout(&mut self)
        ensures
            final(self)@ == (WorkspaceView {
                layout: LayoutType::spec_at(old(self)@.layout.spec_index() + 1),
                ..old(self)@
            }),
    {
        self.cur_layout = self.cur_layout.next();
    }

    /// Change the number of main clients by `i` (the result wraps around like the `u32` it is
    /// stored in).
    pub fn inc_nmain(&mut self, i: i32)
        requires
            i32::MIN <= (old(self)@.config.nmain as i32) + i <= i32::MAX,
        ensures
            final(self)@ == (WorkspaceView {
                config: LayoutConfiguration {
                    nmain: (((old(self)@.config.nmain as i32) + i) as i32) as u32,
                    ..old(self)@.config
                },
                ..old(self)@
            }),
    {
        let n: i32 = self.layout_config.nmain as i32 + i;
        self.layout_config.nmain = n as u32;
    }

    /// Change the gap width by `i`, as long as it stays non-negative and at most half the width
    /// and half the height of the window area.
    pub fn inc_gaps(&mut self, i: i32)
        requires
            i32::MIN <= (old(self)@.config.gap_width as i32) + i <= i32::MAX,
        ensures
            ({
                let g = (old(self)@.config.gap_width as i32) + i;
                let ok = g >= 0 && g <= old(self)@.win_area.w / 2 && g <= old(self)@.win_area.h / 2;
                final(self)@ == if ok {
                    WorkspaceView {
                        config: LayoutConfiguration { gap_width: g as u32, ..old(self)@.config },
                        ..old(self)@
                    }
                } else {
                    old(self)@
                }
            }),
    {
        let new_gaps: i32 = self.layout_config.gap_width as i32 + i;
        if new_gaps >= 0 && new_gaps as u32 <= self.win_area.w / 2 && new_gaps as u32
            <= self.win_area.h / 2 {
            self.layout_config.gap_width = new_gaps as u32;
        }
    }

    pub fn set_stack_mode(&mut self, mode: StackMode)
        ensures
            final(self)@ == (WorkspaceView {
                config: LayoutConfiguration { stack_mode: mode, ..old(self)@.config },
                ..old(self)@
            }),
    {
        self.layout_config.stack_mode = mode;
    }

    pub fn set_stack_position(&mut self, position: StackPosition)
        ensures
            final(self)@ == (WorkspaceView {
                config: LayoutConfiguration { stack_position: position, ..old(self)@.config },
                ..old(self)@
            }),
    {
        self.layout_config.stack_position = position;
    }

    /// Make a client of this workspace floating or tiled. A client that starts floating gets
    /// back the dimensions it had when it last floated (or is centered on the window area); a
    /// client that stops floating keeps its dimensions for later. Returns whether the state
    /// changed (then the caller exports it and restacks); nothing happens for a client that is
    /// not on the workspace or is in that state already.
    pub fn set_floating(&self, client: &mut X11Client<Attributes>, state: bool) -> (changed: bool)
        requires
            old(client).move_fits(),
            old(client).center_fits(self@.win_area),
        ensures
            changed == (self@.clients.contains(old(client).frame) && old(client).attributes.is_floating != state),
            !changed ==> *final(client) == *old(client),
            changed && state ==> *final(client) == match old(client).attributes.floating_dimensions {
                Some(d) => X11Client {
                    attributes: Attributes { is_floating: true, floating_dimensions: None, ..old(client).attributes },
                    ..old(client).spec_moved(d.x, d.y, d.w, d.h)
                },
                None => X11Client {
                    attributes: Attributes { is_floating: true, floating_dimensions: None, ..old(client).attributes },
                    ..old(client).spec_moved(
                        old(client).spec_centered_pos(self@.win_area).0 as i32,
                        old(client).spec_centered_pos(self@.win_area).1 as i32,
                        old(client).w,
                        old(client).h,
                    )
                },
            },
            changed && !state ==> *final(client) == (X11Client {
                attributes: Attributes {
                    is_floating: false,
                    floating_dimensions: Some(old(client).spec_dims()),
                    ..old(client).attributes
                },
                ..*old(client)
            }),
    {
        if !self.contains(client.frame) {
            return false;
        }
        let is_currently_floating = client.attributes.is_floating;
        if state && !is_currently_floating {
            let saved = client.attributes.floating_dimensions;
            client.attributes.floating_dimensions = None;
            match saved {
                Some(d) => client.move_resize(d.x, d.y, d.w, d.h),
                None => client.center_on_screen(self.win_area),
            }
        } else if !state && is_currently_floating {
            client.attributes.floating_dimensions = Some(Dimensions::new(client.x, client.y, client.w, client.h));
        } else {
            return false;
        }
        client.attributes.is_floating = state;
        true
    }

    /// Pin a client to all workspaces (or unpin it); returns the desktop value to export for it
    /// (all desktops when pinned, else this workspace).
    pub fn set_pinned(&self, client: &mut X11Client<Attributes>, state: bool) -> (desktop: u64)
        ensures
            *final(client) == (X11Client { attributes: Attributes { is_pinned: state, ..old(client).attributes }, ..*old(client) }),
            desktop == if state {
                PINNED_DESKTOP as int
            } else {
                self@.global_index as int
            },
    {
        client.attributes.is_pinned = state;
        pinned_desktop_value(state, Some(self.global_index))
    }

    pub fn update_window_area(&mut self, win_area: Dimensions)
        ensures
            final(self)@ == (WorkspaceView { win_area, ..old(self)@ }),
    {
        self.win_area = win_area;
    }
}

/// Adding an element that does not occur at the end keeps a sequence free of duplicates.
pub proof fn lemma_push_back(s: Seq<u64>, id: u64)
    requires
        s.no_duplicates(),
        !s.contains(id),
    ensures
        s.push(id).no_duplicates(),
        s.push(id).to_set() == s.to_set().insert(id),
{
    let r = s.push(id);
    assert forall|a: int, b: int| 0 <= a < r.len() && 0 <= b < r.len() && a != b implies r[a]
        != r[b] by {
        if a == s.len() {
            assert(r[b] == s[b]);
        } else if b == s.len() {
            assert(r[a] == s[a]);
        } else {
            assert(r[a] == s[a] && r[b] == s[b]);
        }
    }
    assert(r.to_set() =~= s.to_set().insert(id)) by {
        assert forall|x: u64| r.contains(x) <==> s.to_set().insert(id).contains(x) by {
            if r.contains(x) {
                let k = choose|k: int| 0 <= k < r.len() && r[k] == x;
                if k < s.len() {
                    assert(s[k] == x);
                }
            }
            if s.contains(x) {
                let k = choose|k: int| 0 <= k < s.len() && s[k] == x;
                assert(r[k] == x);
            }
            if x == id {
                assert(r[s.len() as int] == x);
            }
        }
    }
}

/// Filtering two lists that hold the same clients (each once) by the same predicate leaves two
/// lists that hold the same clients, each once.
pub proof fn lemma_filter_keeps_wf(a: Seq<u64>, b: Seq<u64>, f: spec_fn(u64) -> bool)
    requires
        a.no_duplicates(),
        b.no_duplicates(),
        a.to_set() == b.to_set(),
    ensures
        a.filter(f).no_duplicates(),
        b.filter(f).no_duplicates(),
        a.filter(f).to_set() == b.filter(f).to_set(),
        forall|x: u64| #[trigger] a.filter(f).contains(x) <==> a.contains(x) && f(x),
{
    lemma_filter_facts(a, f);
    lemma_filter_facts(b, f);
    assert(a.filter(f).to_set() =~= b.filter(f).to_set()) by {
        assert forall|x: u64| a.filter(f).contains(x) <==> b.filter(f).contains(x) by {
            assert(a.contains(x) <==> a.to_set().contains(x));
            assert(b.contains(x) <==> b.to_set().contains(x));
        }
    }
}

/// Selecting by the same predicate from two lists that hold the same clients (each once)
/// leaves two lists that hold the same clients, each once.
pub proof fn lemma_select_keeps_wf(
    a: Seq<u64>,
    b: Seq<u64>,
    table: Seq<ClientFlags>,
    pred: spec_fn(ClientFlags) -> bool,
)
    requires
        a.no_duplicates(),
        b.no_duplicates(),
        a.to_set() == b.to_set(),
    ensures
        select(a, table, pred).no_duplicates(),
        select(b, table, pred).no_duplicates(),
        select(a, table, pred).to_set() == select(b, table, pred).to_set(),
        forall|x: u64| #[trigger] select(a, table, pred).contains(x) <==> a.contains(x) && pred(flags_of(table, x)),
{
    lemma_filter_keeps_wf(a, b, |id: u64| pred(flags_of(table, id)));
}

/// A filtered sequence holds exactly the elements that pass, and no duplicates if the
/// sequence had none.
pub proof fn lemma_filter_facts(s: Seq<u64>, f: spec_fn(u64) -> bool)
    requires
        s.no_duplicates(),
    ensures
        s.filter(f).no_duplicates(),
        forall|x: u64| #[trigger] s.filter(f).contains(x) <==> s.contains(x) && f(x),
    decreases s.len(),
{
    reveal(Seq::filter);
    if s.len() > 0 {
        let d = s.drop_last();
        assert(d.no_duplicates());
        lemma_filter_facts(d, f);
        assert(!d.contains(s.last()));
        assert forall|x: u64| s.contains(x) <==> d.contains(x) || x == s.last() by {
            if s.contains(x) {
                let k = choose|k: int| 0 <= k < s.len() && s[k] == x;
                if k < d.len() {
                    assert(d[k] == x);
                }
            }
            if d.contains(x) {
                let k = choose|k: int| 0 <= k < d.len() && d[k] == x;
                assert(s[k] == x);
            }
        }
        if f(s.last()) {
            lemma_push_back(d.filter(f), s.last());
            assert(s.filter(f) == d.filter(f).push(s.last()));
            assert forall|x: u64| #[trigger] s.filter(f).contains(x) <==> s.contains(x) && f(x) by {
                if s.filter(f).contains(x) && x != s.last() {
                    let k = choose|k: int| 0 <= k < s.filter(f).len() && s.filter(f)[k] == x;
                    assert(d.filter(f)[k] == x);
                }
                if x == s.last() {
                    assert(s.filter(f)[d.filter(f).len() as int] == x);
                } else if d.filter(f).contains(x) {
                    let k = choose|k: int| 0 <= k < d.filter(f).len() && d.filter(f)[k] == x;
                    assert(s.filter(f)[k] == x);
                }
            }
        } else {
            assert(s.filter(f) == d.filter(f));
        }
    } else {
        assert(s.filter(f) =~= s);
    }
}

/// Attaching a client that is not on a workspace and detaching it again gives the workspace
/// back as it was.
pub proof fn lemma_attach_then_detach(v: WorkspaceView, id: u64)
    requires
        v.wf(),
        !v.clients.contains(id),
    ensures
        ({
            let a = v.with_lists(seq![id] + v.clients, seq![id] + v.stack);
            a.with_lists(remove_value(a.clients, id), remove_value(a.stack, id)) == v
        }),
{
    assert(!v.stack.contains(id)) by {
        assert(!v.clients.to_set().contains(id));
    }
    lemma_push_front(v.clients, id);
    lemma_push_front(v.stack, id);
    let c = seq![id] + v.clients;
    let s = seq![id] + v.stack;
    assert(c[0] == id && s[0] == id);
    lemma_index_unique(c, 0);
    lemma_index_unique(s, 0);
    assert(c.remove(0) =~= v.clients);
    assert(s.remove(0) =~= v.stack);
    assert(v.with_lists(v.clients, v.stack) =~= v);
}

} // verus!
