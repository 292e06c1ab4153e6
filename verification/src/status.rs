//! What the status bar reads from the window manager and what clicks on it ask for.
use vstd::prelude::*;
use vstd::string::StrSliceExecFns;

use crate::atoms::X11Atom;
use crate::numbers::{decimal_string, spec_decimal};
use crate::geometry::i32_max;
use crate::wm::i32_min;

verus! {

/// The character that separates the blocks of the status text.
pub open spec fn block_separator() -> char {
    '\u{1f}'
}

/// The parts of `s` between the occurrences of `sep` (one part more than there are
/// separators; an empty text has one empty part).
pub open spec fn spec_split(s: Seq<char>, sep: char) -> Seq<Seq<char>>
    decreases s.len(),
{
    if s.len() == 0 {
        seq![Seq::empty()]
    } else {
        let parts = spec_split(s.drop_last(), sep);
        if s.last() == sep {
            parts.push(Seq::empty())
        } else {
            parts.update(parts.len() - 1, parts.last().push(s.last()))
        }
    }
}

/// There is always at least one part.
pub proof fn lemma_split_nonempty(s: Seq<char>, sep: char)
    ensures
        spec_split(s, sep).len() >= 1,
    decreases s.len(),
{
    if s.len() > 0 {
        lemma_split_nonempty(s.drop_last(), sep);
    }
}

/// The parts joined again, with the separator between each two.
pub open spec fn spec_join(parts: Seq<Seq<char>>, sep: char) -> Seq<char>
    decreases parts.len(),
{
    if parts.len() == 0 {
        Seq::empty()
    } else if parts.len() == 1 {
        parts[0]
    } else {
        spec_join(parts.drop_last(), sep) + seq![sep] + parts.last()
    }
}

/// Splitting a text at a separator and joining the parts with it gives the text back, and no
/// part holds the separator.
pub proof fn lemma_split_join(s: Seq<char>, sep: char)
    ensures
        spec_join(spec_split(s, sep), sep) == s,
        forall|i: int| 0 <= i < spec_split(s, sep).len() ==> !(#[trigger] spec_split(s, sep)[i]).contains(sep),
    decreases s.len(),
{
    if s.len() > 0 {
        let d = s.drop_last();
        let c = s.last();
        lemma_split_join(d, sep);
        lemma_split_nonempty(d, sep);
        let pd = spec_split(d, sep);
        let p = spec_split(s, sep);
        if c == sep {
            assert(p == pd.push(Seq::<char>::empty()));
            assert(p.drop_last() =~= pd);
            assert(spec_join(p, sep) =~= spec_join(pd, sep) + seq![sep] + Seq::<char>::empty());
            assert(spec_join(pd, sep) + seq![sep] + Seq::<char>::empty() =~= s);
            assert forall|i: int| 0 <= i < p.len() implies !(#[trigger] p[i]).contains(sep) by {
                if i < pd.len() {
                    assert(p[i] == pd[i]);
                }
            }
        } else {
            let last = pd.last().push(c);
            assert(p == pd.update(pd.len() - 1, last));
            if pd.len() == 1 {
                assert(spec_join(pd, sep) == pd[0]);
                assert(spec_join(p, sep) == p[0]);
                assert(p[0] =~= d.push(c));
                assert(d.push(c) =~= s);
            } else {
                assert(p.drop_last() =~= pd.drop_last());
                assert(spec_join(p, sep) == spec_join(pd.drop_last(), sep) + seq![sep] + last);
                assert(spec_join(pd, sep) == spec_join(pd.drop_last(), sep) + seq![sep] + pd.last());
                assert(spec_join(pd.drop_last(), sep) + seq![sep] + last =~= (spec_join(pd.drop_last(), sep) + seq![sep] + pd.last()).push(c));
                assert(d.push(c) =~= s);
            }
            assert forall|i: int| 0 <= i < p.len() implies !(#[trigger] p[i]).contains(sep) by {
                if i < pd.len() - 1 {
                    assert(p[i] == pd[i]);
                } else {
                    assert(!pd.last().contains(sep));
                    if last.contains(sep) {
                        let k = choose|k: int| 0 <= k < last.len() && last[k] == sep;
                        if k < pd.last().len() {
                            assert(pd.last()[k] == sep);
                        }
                    }
                }
            }
        }
    }
}

/// The blocks of a status text: the parts between the separator characters.
pub fn split_status(status: &str) -> (blocks: Vec<String>)
    ensures
        blocks@.len() == spec_split(status@, block_separator()).len(),
        forall|i: int| 0 <= i < blocks@.len() ==> #[trigger] blocks@[i]@ == spec_split(status@, block_separator())[i],
{
    let n = status.unicode_len();
    let mut blocks: Vec<String> = Vec::new();
    let mut start: usize = 0;
    let mut i: usize = 0;
    while i < n
        invariant
            i <= n,
            n == status@.len(),
            start <= i,
            blocks@.len() + 1 == spec_split(status@.take(i as int), block_separator()).len(),
            forall|k: int| 0 <= k < blocks@.len() ==> #[trigger] blocks@[k]@ == spec_split(status@.take(i as int), block_separator())[k],
            spec_split(status@.take(i as int), block_separator()).last() == status@.subrange(start as int, i as int),
        decreases n - i,
    {
        proof {
            lemma_split_nonempty(status@.take(i as int), block_separator());
            assert(status@.take(i + 1).drop_last() =~= status@.take(i as int));
            assert(status@.take(i + 1).last() == status@[i as int]);
        }
        let c = status.get_char(i);
        if c == '\u{1f}' {
            let part = status.substring_char(start, i).to_owned();
            blocks.push(part);
            start = i + 1;
            assert(status@.subrange(start as int, i + 1) =~= Seq::<char>::empty());
        } else {
            assert(status@.subrange(start as int, i + 1) =~= status@.subrange(start as int, i as int).push(c));
        }
        i += 1;
    }
    let part = status.substring_char(start, n).to_owned();
    blocks.push(part);
    proof {
        assert(status@.take(n as int) =~= status@);
        lemma_split_nonempty(status@, block_separator());
    }
    blocks
}

/// What a change of a property of the root window asks the bar to update.
#[derive(Clone, Copy, Debug, PartialEq, Eq, Structural)]
pub enum RootUpdate {
    /// the active window changed: follow its title
    ActiveWindow,
    /// the shown workspace changed
    CurrentDesktop,
    /// the names of the workspaces changed
    DesktopNames,
    /// the status text changed
    Status,
    /// nothing to update
    Nothing,
}

/// What a change of the root window's property `atom` asks the bar to update.
pub fn root_property_update(atom: Option<X11Atom>) -> (u: RootUpdate)
    ensures
        u == match atom {
            Some(X11Atom::NetActiveWindow) => RootUpdate::ActiveWindow,
            Some(X11Atom::NetCurrentDesktop) => RootUpdate::CurrentDesktop,
            Some(X11Atom::NetDesktopNames) => RootUpdate::DesktopNames,
            Some(X11Atom::MarsStatus) => RootUpdate::Status,
            Some(X11Atom::WMName) => RootUpdate::Status,
            _ => RootUpdate::Nothing,
        },
{
    match atom {
        Some(X11Atom::NetActiveWindow) => RootUpdate::ActiveWindow,
        Some(X11Atom::NetCurrentDesktop) => RootUpdate::CurrentDesktop,
        Some(X11Atom::NetDesktopNames) => RootUpdate::DesktopNames,
        Some(X11Atom::MarsStatus) | Some(X11Atom::WMName) => RootUpdate::Status,
        _ => RootUpdate::Nothing,
    }
}

/// The shown workspace from the values of the current-desktop property: the first value (cut
/// to 32 bits); an error when there is none.
pub fn active_workspace_from(data: &Vec<u64>) -> (r: Result<u32, String>)
    ensures
        data@.len() > 0 ==> r == Ok::<u32, String>(data@[0] as u32),
        data@.len() == 0 ==> (r matches Err(msg) && msg@ == "unable to convert desktop index to u32"@),
{
    if data.len() > 0 {
        Ok(data[0] as u32)
    } else {
        Err("unable to convert desktop index to u32".to_string())
    }
}

/// The active window from the values of the active-window property, if they could be read: the
/// first value, unless it is 0 (no window).
pub fn active_window_from(data: Option<&Vec<u64>>) -> (r: Option<u64>)
    ensures
        r == match data {
            Some(d) => if d@.len() > 0 && d@[0] != 0 {
                Some(d@[0])
            } else {
                None
            },
            None => None,
        },
{
    match data {
        Some(d) => if d.len() > 0 && d[0] != 0 {
            Some(d[0])
        } else {
            None
        },
        None => None,
    }
}

/// What a click on a workspace button asks for.
#[derive(Clone, Copy, Debug, PartialEq, Eq, Structural)]
pub enum WorkspaceClick {
    /// show the workspace
    Switch(u32),
    /// send the active window to the workspace
    MoveClient(u32),
    /// show the workspace before or after the shown one
    Cycle(i32),
    /// the button means nothing here
    Unhandled,
}

/// A handler of clicks on the button of a workspace.
#[derive(Clone, Copy, Debug, PartialEq, Eq, Structural)]
pub struct WorkspaceEventHandler {
    pub workspace_idx: u32,
}

impl WorkspaceEventHandler {
    pub fn new(workspace_idx: u32) -> (h: Self)
        ensures
            h.workspace_idx == workspace_idx,
    {
        WorkspaceEventHandler { workspace_idx }
    }

    /// What a press of `button` on the workspace button asks for: the left and right button
    /// show the workspace, the middle button sends the active window there, the wheel cycles
    /// through the workspaces.
    pub fn click(&self, button: u32) -> (c: WorkspaceClick)
        ensures
            c == if button == 1 || button == 3 {
                WorkspaceClick::Switch(self.workspace_idx)
            } else if button == 2 {
                WorkspaceClick::MoveClient(self.workspace_idx)
            } else if button == 4 {
                WorkspaceClick::Cycle(-1i32)
            } else if button == 5 {
                WorkspaceClick::Cycle(1i32)
            } else {
                WorkspaceClick::Unhandled
            },
    {
        if button == 1 || button == 3 {
            WorkspaceClick::Switch(self.workspace_idx)
        } else if button == 2 {
            WorkspaceClick::MoveClient(self.workspace_idx)
        } else if button == 4 {
            WorkspaceClick::Cycle(-1)
        } else if button == 5 {
            WorkspaceClick::Cycle(1)
        } else {
            WorkspaceClick::Unhandled
        }
    }
}

/// The workspace after cycling by `inc` from `current` among `count` workspaces (the sum is
/// formed in `i32`, as a cast of `current + count`, and cut to `u32`).
pub fn cycle_workspace(current: u32, count: u32, inc: i32) -> (r: u32)
    requires
        count > 0,
        current + count <= u32::MAX,
        i32_min() <= ((current + count) as i32) + inc <= i32_max(),
    ensures
        r == ((((current + count) as i32) + inc) as u32) % count,
{
    let sum = (current + count) as i32 + inc;
    (sum as u32) % count
}

/// The workspace after moving by `inc` from `workspace` among `count` workspaces (the step is
/// formed as a cast of `count + inc` to `u32`).
pub fn switch_workspace_relative(workspace: u32, count: u32, inc: i32) -> (r: u32)
    requires
        count > 0,
        i32_min() <= (count as i32) + inc <= i32_max(),
        workspace + (((count as i32) + inc) as u32) <= u32::MAX,
    ensures
        r == (workspace + (((count as i32) + inc) as u32)) % (count as int),
{
    let step = (count as i32 + inc) as u32;
    (workspace + step) % count
}

/// What a click on a status block asks for.
#[derive(Clone, Debug, PartialEq)]
pub enum StatusClick {
    /// an earlier handler took the click
    AlreadyHandled,
    /// run the action command with `BLOCK` and `BUTTON` set to these values
    Run { block: String, button: String },
    /// not a click
    Ignored,
}

/// A handler of clicks on a status block: runs the action command for the block.
#[derive(Clone, Debug, PartialEq)]
pub struct StatusEventHandler {
    pub block: usize,
    pub command: String,
}

impl StatusEventHandler {
    pub fn new(block: usize, command: String) -> (h: Self)
        ensures
            h.block == block,
            h.command@ == command@,
    {
        StatusEventHandler { block, command }
    }

    /// The click handlers for the status blocks that a new status adds: when an action
    /// command is configured, each block from `existing` up to `blocks` gets a handler
    /// that runs the command for its index; without a command no block gets one.
    pub fn for_new_blocks(existing: usize, blocks: usize, action_cmd: &Option<String>) -> (hs: Vec<StatusEventHandler>)
        ensures
            (action_cmd.is_none() || blocks <= existing) ==> hs.len() == 0,
            (action_cmd.is_some() && existing < blocks) ==> hs.len() == blocks - existing,
            forall|i: int| 0 <= i < hs.len() ==> (#[trigger] hs[i]).block == existing + i
                && hs[i].command@ == action_cmd.unwrap()@,
    {
        let mut hs: Vec<StatusEventHandler> = Vec::new();
        match action_cmd {
            None => {},
            Some(cmd) => {
                let mut i: usize = existing;
                while i < blocks
                    invariant
                        existing <= i,
                        i >= blocks ==> i == existing || i == blocks,
                        existing < blocks ==> i <= blocks,
                        hs.len() == i - existing,
                        *action_cmd == Some(*cmd),
                        forall|k: int| 0 <= k < hs.len() ==> (#[trigger] hs[k]).block == existing + k
                            && hs[k].command@ == cmd@,
                    decreases blocks - i,
                {
                    hs.push(StatusEventHandler::new(i, cmd.clone()));
                    i = i + 1;
                }
            },
        }
        hs
    }

    /// What a widget event asks for: a click runs the command with the block and button
    /// numbers, unless an earlier handler took it.
    pub fn handle_action_event(&self, event: crate::widget::WidgetEvent, already_handled: bool) -> (c: StatusClick)
        requires
            self.block <= u64::MAX,
        ensures
            already_handled ==> c == StatusClick::AlreadyHandled,
            !already_handled ==> match event {
                crate::widget::WidgetEvent::ButtonPressed(b) => (c matches StatusClick::Run { block, button }
                    && block@ == spec_decimal(self.block as nat) && button@ == spec_decimal(b as nat)),
                _ => c == StatusClick::Ignored,
            },
    {
        if already_handled {
            return StatusClick::AlreadyHandled;
        }
        match event {
            crate::widget::WidgetEvent::ButtonPressed(button) => {
                let block = decimal_string(self.block as u64);
                let button = decimal_string(button as u64);
                StatusClick::Run { block, button }
            },
            _ => StatusClick::Ignored,
        }
    }
}

/// Which part of the bar an X event is for.
#[derive(Clone, Copy, Debug, PartialEq, Eq, Structural)]
pub enum BarEventTarget {
    /// a change on the root window
    Root,
    /// the bar window itself
    Bar,
    /// the title of the active window changed
    ActiveTitle,
    /// a message to the system tray
    TrayMessage,
    /// an icon of the system tray went away
    TrayIconGone,
    /// one of the widgets
    Widgets,
}

/// Which part of the bar an event on `event_window` is for. `title_changed` says whether it is
/// a change of a window's title, `tray_message` whether it is a client message with the tray
/// opcode, and `destroyed_in` the window whose child was destroyed, for a destroy event.
pub fn bar_event_target(
    event_window: u64,
    root: u64,
    bar_window: u64,
    active_window: Option<u64>,
    title_changed: bool,
    tray_window: Option<u64>,
    tray_message: bool,
    destroyed_in: Option<u64>,
) -> (t: BarEventTarget)
    ensures
        t == if event_window == root {
            BarEventTarget::Root
        } else if event_window == bar_window {
            BarEventTarget::Bar
        } else if active_window == Some(event_window) && title_changed {
            BarEventTarget::ActiveTitle
        } else if tray_message && tray_window == Some(event_window) {
            BarEventTarget::TrayMessage
        } else if destroyed_in is Some && destroyed_in == tray_window {
            BarEventTarget::TrayIconGone
        } else {
            BarEventTarget::Widgets
        },
{
    if event_window == root {
        BarEventTarget::Root
    } else if event_window == bar_window {
        BarEventTarget::Bar
    } else if active_window == Some(event_window) && title_changed {
        BarEventTarget::ActiveTitle
    } else if tray_message && tray_window == Some(event_window) {
        BarEventTarget::TrayMessage
    } else if destroyed_in.is_some() && destroyed_in == tray_window {
        BarEventTarget::TrayIconGone
    } else {
        BarEventTarget::Widgets
    }
}

} // verus!
