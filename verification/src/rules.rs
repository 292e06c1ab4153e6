//! Window rules: what happens to new windows of a given application or title.
//!
//! The action type is a parameter: rules only collect actions, the caller runs them.
use vstd::prelude::*;

use crate::geometry::Dimensions;

verus! {

/// Where a new floating window is placed.
#[derive(Clone, Copy, Debug, PartialEq, Eq, Structural)]
pub enum WindowPlacement {
    /// center the window on the screen
    Center,
    /// place the window below the pointer
    Pointer,
    /// don't care about placing the window at a special position
    Wherever,
}

/// The position at which a placement puts a window with the given dimensions into `area`, the
/// pointer being at `pointer`: centered on the area, centered below the pointer, or where the
/// window already is.
pub open spec fn spec_place(
    placement: WindowPlacement,
    dimensions: Dimensions,
    area: Dimensions,
    pointer: (i32, i32),
) -> (int, int) {
    match placement {
        WindowPlacement::Center => (
            area.spec_center().0 - dimensions.w / 2,
            area.spec_center().1 - dimensions.h / 2,
        ),
        WindowPlacement::Pointer => (pointer.0 - dimensions.w / 2, pointer.1 - dimensions.h / 2),
        WindowPlacement::Wherever => (dimensions.x as int, dimensions.y as int),
    }
}

impl WindowPlacement {
    /// The placement can be computed in `i32` arithmetic.
    pub open spec fn place_fits(self, dimensions: Dimensions, area: Dimensions, pointer: (i32, i32)) -> bool {
        &&& (self is Center ==> area.center_fits())
        &&& i32::MIN <= spec_place(self, dimensions, area, pointer).0 <= i32::MAX
        &&& i32::MIN <= spec_place(self, dimensions, area, pointer).1 <= i32::MAX
    }

    /// The position at which this placement puts a window with the given dimensions into
    /// `area`, the pointer being at `pointer`; none when it does not fit into `i32`.
    pub fn calc(&self, dimensions: Dimensions, area: Dimensions, pointer: (i32, i32)) -> (pos: Option<(i32, i32)>)
        ensures
            pos is Some <==> self.place_fits(dimensions, area, pointer),
            pos matches Some(p) ==> p.0 == spec_place(*self, dimensions, area, pointer).0 && p.1
                == spec_place(*self, dimensions, area, pointer).1,
    {
        let half_w = (dimensions.w / 2) as i64;
        let half_h = (dimensions.h / 2) as i64;
        let (x, y): (i64, i64) = match self {
            WindowPlacement::Center => {
                let cx = area.x as i64 + (area.w / 2) as i64;
                let cy = area.y as i64 + (area.h / 2) as i64;
                if cx > i32::MAX as i64 || cy > i32::MAX as i64 {
                    return None;
                }
                (cx - half_w, cy - half_h)
            },
            WindowPlacement::Pointer => (pointer.0 as i64 - half_w, pointer.1 as i64 - half_h),
            WindowPlacement::Wherever => (dimensions.x as i64, dimensions.y as i64),
        };
        if x < i32::MIN as i64 || x > i32::MAX as i64 || y < i32::MIN as i64 || y > i32::MAX as i64 {
            None
        } else {
            Some((x as i32, y as i32))
        }
    }
}

/// Which windows a rule applies to; an identifier that is not given matches every window.
#[derive(Clone, Debug, PartialEq)]
pub struct Identifiers {
    /// application name - WM class for X11 (exact match)
    pub application: Option<String>,
    /// title (exact match)
    pub title: Option<String>,
}

/// An identifier matches a value when it is not given or holds exactly that value.
pub open spec fn identifier_matches(id: Option<String>, value: Seq<char>) -> bool {
    match id {
        None => true,
        Some(s) => s@ == value,
    }
}

/// Whether an optional identifier matches a value.
fn identifier_matches_exec(id: &Option<String>, value: &str) -> (b: bool)
    ensures
        b == identifier_matches(*id, value@),
{
    match id {
        None => true,
        Some(s) => s.as_str().to_owned() == value.to_owned(),
    }
}

impl Identifiers {
    /// Both identifiers match.
    pub open spec fn spec_matches(&self, application: Seq<char>, title: Seq<char>) -> bool {
        identifier_matches(self.application, application) && identifier_matches(self.title, title)
    }

    /// Whether a window of the application with the title matches.
    pub fn matches(&self, application: &str, title: &str) -> (b: bool)
        ensures
            b == self.spec_matches(application@, title@),
    {
        identifier_matches_exec(&self.application, application) && identifier_matches_exec(
            &self.title,
            title,
        )
    }
}

/// A window rule.
#[derive(Clone, Debug, PartialEq)]
pub struct Rule<A> {
    pub identifiers: Identifiers,
    pub actions: Vec<A>,
    /// do not manage this window
    pub ignore_window: bool,
    /// where should windows be placed initially
    pub initial_placement: Option<WindowPlacement>,
    /// initially make this window floating
    pub floating: Option<bool>,
    /// preferred workspace for the application to get launched on
    pub workspace: Option<u32>,
}

impl<A: Clone> Rule<A> {
    /// Whether the rule applies to a window of the application with the title.
    pub fn matches(&self, application: &str, title: &str) -> (b: bool)
        ensures
            b == self.identifiers.spec_matches(application@, title@),
    {
        self.identifiers.matches(application, title)
    }

    pub fn actions(&self) -> (a: &Vec<A>)
        ensures
            a@ == self.actions@,
    {
        &self.actions
    }

    pub fn floating(&self) -> (f: Option<bool>)
        ensures
            f == self.floating,
    {
        self.floating
    }

    pub fn ignore_window(&self) -> (b: bool)
        ensures
            b == self.ignore_window,
    {
        self.ignore_window
    }

    pub fn initial_placement(&self) -> (p: Option<WindowPlacement>)
        ensures
            p == self.initial_placement,
    {
        self.initial_placement
    }

    pub fn workspace(&self) -> (w: Option<u32>)
        ensures
            w == self.workspace,
    {
        self.workspace
    }
}

/// The state after going through some rules.
pub struct RuleFold<A> {
    /// a matching rule said not to manage the window
    pub ignored: bool,
    pub workspace: int,
    pub actions: Seq<A>,
    pub placement: Option<WindowPlacement>,
    pub floating: Option<bool>,
}

/// Going through the rules in order: a matching rule that ignores the window ends it; every
/// other matching rule may set the floating state, the placement and the workspace (a workspace
/// beyond the monitor's last one means the number of the last one, any other is counted from the
/// monitor's first workspace), and adds its actions.
pub open spec fn fold_rules<A>(
    rules: Seq<Rule<A>>,
    application: Seq<char>,
    title: Seq<char>,
    start_workspace: int,
    ws_count: int,
    ws_offset: int,
) -> RuleFold<A>
    decreases rules.len(),
{
    if rules.len() == 0 {
        RuleFold {
            ignored: false,
            workspace: start_workspace,
            actions: Seq::empty(),
            placement: None,
            floating: None,
        }
    } else {
        let p = fold_rules(rules.drop_last(), application, title, start_workspace, ws_count, ws_offset);
        let r = rules.last();
        if p.ignored || !r.identifiers.spec_matches(application, title) {
            p
        } else if r.ignore_window {
            RuleFold { ignored: true, ..p }
        } else {
            RuleFold {
                ignored: false,
                workspace: match r.workspace {
                    Some(ws) => if ws >= ws_count {
                        ws_count - 1
                    } else {
                        ws_offset + ws
                    },
                    None => p.workspace,
                },
                actions: p.actions + r.actions@,
                placement: if r.initial_placement is Some {
                    r.initial_placement
                } else {
                    p.placement
                },
                floating: if r.floating is Some {
                    r.floating
                } else {
                    p.floating
                },
            }
        }
    }
}

/// What the rules decide for a new window that is managed.
pub struct RuleOutcome<A> {
    /// global index of the workspace the window goes to
    pub workspace: u32,
    /// the actions of the matching rules, in order
    pub actions: Vec<A>,
    /// where to place the window, if a rule says so
    pub placement: Option<WindowPlacement>,
    /// whether the window floats, if a rule says so
    pub floating: Option<bool>,
}

/// All rule workspaces can be computed in `u32`.
pub open spec fn rule_workspaces_fit<A>(rules: Seq<Rule<A>>, ws_offset: u32) -> bool {
    forall|i: int|
        0 <= i < rules.len() ==> match (#[trigger] rules[i]).workspace {
            Some(ws) => ws_offset + ws <= u32::MAX,
            None => true,
        }
}

/// No matching rule ignores the window.
pub open spec fn none_ignores<A>(rules: Seq<Rule<A>>, application: Seq<char>, title: Seq<char>) -> bool {
    forall|i: int|
        0 <= i < rules.len() && (#[trigger] rules[i]).identifiers.spec_matches(application, title)
            ==> !rules[i].ignore_window
}

/// One more rule: when no matching rule ignores the window, it stays managed, and the last rule
/// sets the floating state and the placement where it matches and sets them.
proof fn lemma_fold_step<A>(
    rules: Seq<Rule<A>>,
    application: Seq<char>,
    title: Seq<char>,
    start: int,
    ws_count: int,
    ws_offset: int,
)
    requires
        none_ignores(rules, application, title),
    ensures
        ({
            let f = fold_rules(rules, application, title, start, ws_count, ws_offset);
            &&& !f.ignored
            &&& rules.len() > 0 ==> {
                let p = fold_rules(rules.drop_last(), application, title, start, ws_count, ws_offset);
                let r = rules.last();
                let m = r.identifiers.spec_matches(application, title);
                &&& none_ignores(rules.drop_last(), application, title)
                &&& f.floating == if m && r.floating is Some { r.floating } else { p.floating }
                &&& f.placement == if m && r.initial_placement is Some { r.initial_placement } else { p.placement }
            }
        }),
    decreases rules.len(),
{
    if rules.len() > 0 {
        let q = rules.drop_last();
        assert forall|i: int|
            0 <= i < q.len() && (#[trigger] q[i]).identifiers.spec_matches(application, title)
                implies !q[i].ignore_window by {
            assert(q[i] == rules[i]);
        }
        lemma_fold_step(q, application, title, start, ws_count, ws_offset);
        assert(rules.last() == rules[rules.len() - 1]);
    }
}

/// When no matching rule ignores the window, its floating state is the one set by the last
/// matching rule that sets one (a later matching rule overrides the earlier ones); when no
/// matching rule sets one, it stays unset.
#[verifier::spinoff_prover]
#[verifier::rlimit(40)]
pub proof fn law_rules_floating_last_wins<A>(
    rules: Seq<Rule<A>>,
    application: Seq<char>,
    title: Seq<char>,
    start: int,
    ws_count: int,
    ws_offset: int,
)
    requires
        none_ignores(rules, application, title),
    ensures
        ({
            let f = fold_rules(rules, application, title, start, ws_count, ws_offset);
            &&& !f.ignored
            &&& forall|i: int|
                0 <= i < rules.len() && (#[trigger] rules[i]).identifiers.spec_matches(application, title)
                    && rules[i].floating is Some && (forall|j: int|
                    i < j < rules.len() && (#[trigger] rules[j]).identifiers.spec_matches(application, title)
                        ==> rules[j].floating is None) ==> f.floating == rules[i].floating
            &&& (forall|i: int|
                0 <= i < rules.len() && (#[trigger] rules[i]).identifiers.spec_matches(application, title)
                    ==> rules[i].floating is None) ==> f.floating is None
        }),
    decreases rules.len(),
{
    lemma_fold_step(rules, application, title, start, ws_count, ws_offset);
    if rules.len() > 0 {
        let q = rules.drop_last();
        let n = rules.len() - 1;
        law_rules_floating_last_wins(q, application, title, start, ws_count, ws_offset);
        let f = fold_rules(rules, application, title, start, ws_count, ws_offset);
        assert(rules.last() == rules[n]);
        assert forall|i: int|
            0 <= i < rules.len() && (#[trigger] rules[i]).identifiers.spec_matches(application, title)
                && rules[i].floating is Some && (forall|j: int|
                i < j < rules.len() && (#[trigger] rules[j]).identifiers.spec_matches(application, title)
                    ==> rules[j].floating is None) implies f.floating == rules[i].floating by {
            if i < n {
                assert(q[i] == rules[i]);
                assert forall|j: int|
                    i < j < q.len() && (#[trigger] q[j]).identifiers.spec_matches(application, title)
                        implies q[j].floating is None by {
                    assert(q[j] == rules[j]);
                }
                if rules[n].identifiers.spec_matches(application, title) {
                    assert(rules[n].floating is None);
                }
            }
        }
        if forall|i: int|
            0 <= i < rules.len() && (#[trigger] rules[i]).identifiers.spec_matches(application, title)
                ==> rules[i].floating is None {
            assert forall|i: int|
                0 <= i < q.len() && (#[trigger] q[i]).identifiers.spec_matches(application, title)
                    implies q[i].floating is None by {
                assert(q[i] == rules[i]);
            }
            if rules[n].identifiers.spec_matches(application, title) {
                assert(rules[n].floating is None);
            }
        }
    }
}

/// When no matching rule ignores the window, its placement is the one set by the last matching
/// rule that sets one; when no matching rule sets one, it stays unset.
#[verifier::spinoff_prover]
#[verifier::rlimit(40)]
pub proof fn law_rules_placement_last_wins<A>(
    rules: Seq<Rule<A>>,
    application: Seq<char>,
    title: Seq<char>,
    start: int,
    ws_count: int,
    ws_offset: int,
)
    requires
        none_ignores(rules, application, title),
    ensures
        ({
            let f = fold_rules(rules, application, title, start, ws_count, ws_offset);
            &&& forall|i: int|
                0 <= i < rules.len() && (#[trigger] rules[i]).identifiers.spec_matches(application, title)
                    && rules[i].initial_placement is Some && (forall|j: int|
                    i < j < rules.len() && (#[trigger] rules[j]).identifiers.spec_matches(application, title)
                        ==> rules[j].initial_placement is None) ==> f.placement == rules[i].initial_placement
            &&& (forall|i: int|
                0 <= i < rules.len() && (#[trigger] rules[i]).identifiers.spec_matches(application, title)
                    ==> rules[i].initial_placement is None) ==> f.placement is None
        }),
    decreases rules.len(),
{
    lemma_fold_step(rules, application, title, start, ws_count, ws_offset);
    if rules.len() > 0 {
        let q = rules.drop_last();
        let n = rules.len() - 1;
        law_rules_placement_last_wins(q, application, title, start, ws_count, ws_offset);
        let f = fold_rules(rules, application, title, start, ws_count, ws_offset);
        assert(rules.last() == rules[n]);
        assert forall|i: int|
            0 <= i < rules.len() && (#[trigger] rules[i]).identifiers.spec_matches(application, title)
                && rules[i].initial_placement is Some && (forall|j: int|
                i < j < rules.len() && (#[trigger] rules[j]).identifiers.spec_matches(application, title)
                    ==> rules[j].initial_placement is None) implies f.placement == rules[i].initial_placement by {
            if i < n {
                assert(q[i] == rules[i]);
                assert forall|j: int|
                    i < j < q.len() && (#[trigger] q[j]).identifiers.spec_matches(application, title)
                        implies q[j].initial_placement is None by {
                    assert(q[j] == rules[j]);
                }
                if rules[n].identifiers.spec_matches(application, title) {
                    assert(rules[n].initial_placement is None);
                }
            }
        }
        if forall|i: int|
            0 <= i < rules.len() && (#[trigger] rules[i]).identifiers.spec_matches(application, title)
                ==> rules[i].initial_placement is None {
            assert forall|i: int|
                0 <= i < q.len() && (#[trigger] q[i]).identifiers.spec_matches(application, title)
                    implies q[i].initial_placement is None by {
                assert(q[i] == rules[i]);
            }
            if rules[n].identifiers.spec_matches(application, title) {
                assert(rules[n].initial_placement is None);
            }
        }
    }
}

/// Apply the rules to a new window of the application with the title. `None` when a matching
/// rule says not to manage the window. The window goes to the workspace the application asked
/// for, or else to the current one, unless a rule says otherwise (see [fold_rules]).
pub fn apply_window_rules<A: Clone>(
    rules: &Vec<Rule<A>>,
    application: &str,
    title: &str,
    current_workspace: u32,
    ws_count: u32,
    ws_offset: u32,
    app_workspace_pref: Option<u32>,
) -> (r: Option<RuleOutcome<A>>)
    requires
        ws_count > 0,
        rule_workspaces_fit(rules@, ws_offset),
    ensures
        ({
            let start = match app_workspace_pref {
                Some(ws) => ws as int,
                None => current_workspace as int,
            };
            let f = fold_rules(rules@, application@, title@, start, ws_count as int, ws_offset as int);
            &&& r is None <==> f.ignored
            &&& r matches Some(o) ==> {
                &&& o.workspace == f.workspace
                &&& o.placement == f.placement
                &&& o.floating == f.floating
                &&& o.actions@.len() == f.actions.len()
                &&& forall|i: int| 0 <= i < f.actions.len() ==> cloned(f.actions[i], #[trigger] o.actions@[i])
            }
        }),
{
    let start = match app_workspace_pref {
        Some(ws) => ws,
        None => current_workspace,
    };
    let ghost g_start = start as int;
    let mut workspace = start;
    let mut actions: Vec<A> = Vec::new();
    let mut placement: Option<WindowPlacement> = None;
    let mut floating: Option<bool> = None;
    let mut i: usize = 0;
    assert(rules@.take(0) =~= Seq::<Rule<A>>::empty());
    while i < rules.len()
        invariant
            i <= rules@.len(),
            ws_count > 0,
            rule_workspaces_fit(rules@, ws_offset),
            g_start == match app_workspace_pref {
                Some(ws) => ws as int,
                None => current_workspace as int,
            },
            ({
                let f = fold_rules(rules@.take(i as int), application@, title@, g_start, ws_count as int, ws_offset as int);
                &&& !f.ignored
                &&& workspace == f.workspace
                &&& placement == f.placement
                &&& floating == f.floating
                &&& actions@.len() == f.actions.len()
                &&& forall|k: int| 0 <= k < f.actions.len() ==> cloned(f.actions[k], #[trigger] actions@[k])
            }),
        decreases rules@.len() - i,
    {
        let ghost prev = fold_rules(rules@.take(i as int), application@, title@, g_start, ws_count as int, ws_offset as int);
        assert(rules@.take(i + 1).drop_last() =~= rules@.take(i as int));
        assert(rules@.take(i + 1).last() == rules@[i as int]);
        let rule = &rules[i];
        if rule.matches(application, title) {
            if rule.ignore_window {
                proof {
                    let f1 = fold_rules(rules@.take(i + 1), application@, title@, g_start, ws_count as int, ws_offset as int);
                    assert(f1.ignored);
                    lemma_fold_ignored_stays(rules@, application@, title@, g_start, ws_count as int, ws_offset as int, i as int + 1);
                }
                return None;
            }
            if let Some(state) = rule.floating {
                floating = Some(state);
            }
            if rule.initial_placement.is_some() {
                placement = rule.initial_placement;
            }
            if let Some(ws) = rule.workspace {
                if ws >= ws_count {
                    workspace = ws_count - 1;
                } else {
                    assert(rules@[i as int].workspace == Some(ws));
                    workspace = ws_offset + ws;
                }
            }
            let mut j: usize = 0;
            let ghost before = actions@;
            while j < rule.actions.len()
                invariant
                    j <= rule.actions@.len(),
                    actions@.len() == before.len() + j,
                    forall|k: int| 0 <= k < before.len() ==> #[trigger] actions@[k] == before[k],
                    forall|k: int| 0 <= k < j ==> cloned(rule.actions@[k], #[trigger] actions@[before.len() + k]),
                decreases rule.actions@.len() - j,
            {
                let a = rule.actions[j].clone();
                actions.push(a);
                j += 1;
            }
            proof {
                let f = fold_rules(rules@.take(i + 1), application@, title@, g_start, ws_count as int, ws_offset as int);
                assert(f.actions == prev.actions + rule.actions@);
                assert forall|k: int| 0 <= k < f.actions.len() implies cloned(f.actions[k], #[trigger] actions@[k]) by {
                    if k < prev.actions.len() {
                        assert(actions@[k] == before[k]);
                    } else {
                        assert(f.actions[k] == rule.actions@[k - prev.actions.len()]);
                        assert(actions@[before.len() + (k - before.len())] == actions@[k]);
                    }
                }
            }
        }
        i += 1;
    }
    assert(rules@.take(rules@.len() as int) =~= rules@);
    Some(RuleOutcome { workspace, actions, placement, floating })
}

/// Once a matching rule ignored the window, later rules change nothing.
proof fn lemma_fold_ignored_stays<A>(
    rules: Seq<Rule<A>>,
    application: Seq<char>,
    title: Seq<char>,
    start: int,
    ws_count: int,
    ws_offset: int,
    i: int,
)
    requires
        0 <= i <= rules.len(),
        fold_rules(rules.take(i), application, title, start, ws_count, ws_offset).ignored,
    ensures
        fold_rules(rules, application, title, start, ws_count, ws_offset).ignored,
    decreases rules.len() - i,
{
    if i < rules.len() {
        assert(rules.take(i + 1).drop_last() =~= rules.take(i));
        lemma_fold_ignored_stays(rules, application, title, start, ws_count, ws_offset, i + 1);
    } else {
        assert(rules.take(i) =~= rules);
    }
}


/// A window that some matching rule says to ignore is not managed, whatever the other rules say.
pub proof fn law_rules_ignore<A>(
    rules: Seq<Rule<A>>,
    application: Seq<char>,
    title: Seq<char>,
    start: int,
    ws_count: int,
    ws_offset: int,
    i: int,
)
    requires
        0 <= i < rules.len(),
        rules[i].identifiers.spec_matches(application, title),
        rules[i].ignore_window,
    ensures
        fold_rules(rules, application, title, start, ws_count, ws_offset).ignored,
{
    let t = rules.take(i + 1);
    assert(t.drop_last() =~= rules.take(i));
    assert(t.last() == rules[i]);
    lemma_fold_ignored_stays(rules, application, title, start, ws_count, ws_offset, i + 1);
}

/// Adding one more rule at the end: a rule that does not match, or a window that is already
/// ignored, changes nothing; a matching rule that ignores the window ends it; any other matching
/// rule appends its actions after the earlier ones, sets the workspace it names (the monitor's
/// last one when it names none of the monitor's, else counted from the monitor's first one),
/// and sets the placement and floating state it names, keeping the earlier ones otherwise.
pub proof fn law_rules_one_more<A>(
    rules: Seq<Rule<A>>,
    r: Rule<A>,
    application: Seq<char>,
    title: Seq<char>,
    start: int,
    ws_count: int,
    ws_offset: int,
)
    ensures
        ({
            let p = fold_rules(rules, application, title, start, ws_count, ws_offset);
            let f = fold_rules(rules.push(r), application, title, start, ws_count, ws_offset);
            &&& (p.ignored || !r.identifiers.spec_matches(application, title)) ==> f == p
            &&& (!p.ignored && r.identifiers.spec_matches(application, title) && r.ignore_window) ==> f.ignored
            &&& (!p.ignored && r.identifiers.spec_matches(application, title) && !r.ignore_window) ==> {
                &&& !f.ignored
                &&& f.actions == p.actions + r.actions@
                &&& f.workspace == match r.workspace {
                    Some(ws) => if ws >= ws_count { ws_count - 1 } else { ws_offset + ws },
                    None => p.workspace,
                }
                &&& f.placement == match r.initial_placement {
                    Some(pl) => Some(pl),
                    None => p.placement,
                }
                &&& f.floating == match r.floating {
                    Some(b) => Some(b),
                    None => p.floating,
                }
            }
        }),
{
    let q = rules.push(r);
    assert(q.drop_last() =~= rules);
    assert(q.last() == r);
}

} // verus!
