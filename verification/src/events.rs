//! Decisions of the X11 backend: what a request or message from a client asks the window
//! manager to do, how windows of special types are treated, and how monitors and docks shape
//! the areas that windows may occupy.
use vstd::prelude::*;

use crate::atoms::X11Atom;
use crate::geometry::{i32_max, inset_height, inset_top_y, Dimensions, MonitorConfig};
use crate::wm::{dims_fit, first_containing, i32_min, lemma_first_containing, lemma_first_containing_at};

verus! {

/// How a setting of a window changes.
#[derive(Clone, Copy, Debug, PartialEq, Eq, Structural)]
pub enum SettingMode {
    /// turn the setting on
    Enable,
    /// turn the setting off
    Disable,
    /// turn the setting over
    Toggle,
}

impl SettingMode {
    /// The number that stands for the mode in a client message.
    pub open spec fn spec_code(self) -> i64 {
        match self {
            SettingMode::Enable => 1,
            SettingMode::Disable => 0,
            SettingMode::Toggle => 2,
        }
    }

    /// The number that stands for the mode in a client message.
    pub fn code(&self) -> (c: i64)
        ensures
            c == self.spec_code(),
    {
        match self {
            SettingMode::Enable => 1,
            SettingMode::Disable => 0,
            SettingMode::Toggle => 2,
        }
    }

    /// The mode a number in a client message stands for.
    pub fn from_code(code: u64) -> (m: Option<SettingMode>)
        ensures
            m matches Some(mode) ==> mode.spec_code() == code,
            m is None <==> code > 2,
    {
        if code == 1 {
            Some(SettingMode::Enable)
        } else if code == 0 {
            Some(SettingMode::Disable)
        } else if code == 2 {
            Some(SettingMode::Toggle)
        } else {
            None
        }
    }

    /// Whether the setting is on after the change, given whether it is on now.
    pub fn resolve(&self, current: bool) -> (on: bool)
        ensures
            on == match self {
                SettingMode::Enable => true,
                SettingMode::Disable => false,
                SettingMode::Toggle => !current,
            },
    {
        match self {
            SettingMode::Enable => true,
            SettingMode::Disable => false,
            SettingMode::Toggle => !current,
        }
    }
}

/// A number read back from a client message gives the mode that was sent.
pub proof fn lemma_setting_mode_roundtrip(mode: SettingMode)
    ensures
        mode.spec_code() >= 0,
        forall|m: SettingMode| #[trigger] m.spec_code() == mode.spec_code() ==> m == mode,
{
}

/// How a new window is treated, by its window types.
#[derive(Clone, Copy, Debug, PartialEq, Eq, Structural)]
pub enum WindowKind {
    /// a desktop window: mapped below everything, not managed
    Desktop,
    /// a dock (such as a status bar): mapped on top, its area is kept free
    Dock,
    /// a menu: mapped on top, not managed
    Menu,
    /// a notification: mapped on top, not managed
    Notification,
    /// a window to manage, a dialog or not
    Managed { is_dialog: bool },
}

/// The kind of a window with the given window types: the first of desktop, dock, menu and
/// notification decides; otherwise the window is managed, as a dialog if one of its types says so.
pub open spec fn spec_window_kind(types: Seq<X11Atom>) -> WindowKind
    decreases types.len(),
{
    if types.len() == 0 {
        WindowKind::Managed { is_dialog: false }
    } else {
        match types[0] {
            X11Atom::NetWMWindowTypeDesktop => WindowKind::Desktop,
            X11Atom::NetWMWindowTypeDock => WindowKind::Dock,
            X11Atom::NetWMWindowTypeMenu => WindowKind::Menu,
            X11Atom::NetWMWindowTypeNotification => WindowKind::Notification,
            X11Atom::NetWMWindowTypeDialog => match spec_window_kind(types.drop_first()) {
                WindowKind::Managed { .. } => WindowKind::Managed { is_dialog: true },
                k => k,
            },
            _ => spec_window_kind(types.drop_first()),
        }
    }
}

/// The kind of a window with the given window types.
pub fn window_kind(types: &Vec<X11Atom>) -> (k: WindowKind)
    ensures
        k == spec_window_kind(types@),
{
    let mut is_dialog = false;
    let mut i: usize = 0;
    assert(types@.skip(0) =~= types@);
    while i < types.len()
        invariant
            i <= types@.len(),
            spec_window_kind(types@) == match spec_window_kind(types@.skip(i as int)) {
                WindowKind::Managed { is_dialog: d } => WindowKind::Managed { is_dialog: d || is_dialog },
                k => k,
            },
        decreases types@.len() - i,
    {
        assert(types@.skip(i as int).drop_first() =~= types@.skip(i + 1));
        assert(types@.skip(i as int)[0] == types@[i as int]);
        match types[i] {
            X11Atom::NetWMWindowTypeDesktop => {
                return WindowKind::Desktop;
            },
            X11Atom::NetWMWindowTypeDock => {
                return WindowKind::Dock;
            },
            X11Atom::NetWMWindowTypeMenu => {
                return WindowKind::Menu;
            },
            X11Atom::NetWMWindowTypeNotification => {
                return WindowKind::Notification;
            },
            X11Atom::NetWMWindowTypeDialog => {
                is_dialog = true;
            },
            _ => {},
        }
        i += 1;
    }
    assert(types@.skip(i as int) =~= Seq::<X11Atom>::empty());
    WindowKind::Managed { is_dialog }
}

/// How the window manager closes a client.
#[derive(Clone, Copy, Debug, PartialEq, Eq, Structural)]
pub enum CloseMethod {
    /// ask the client to close itself with a `WM_DELETE_WINDOW` message
    DeleteMessage,
    /// kill the client's connection
    Kill,
}

/// How a client that lists the given window manager protocols is closed: politely when it takes
/// part in the `WM_DELETE_WINDOW` protocol, else by force.
pub fn close_method(protocols: &Vec<X11Atom>) -> (m: CloseMethod)
    ensures
        m == (if protocols@.contains(X11Atom::WMDeleteWindow) {
            CloseMethod::DeleteMessage
        } else {
            CloseMethod::Kill
        }),
{
    let mut i: usize = 0;
    while i < protocols.len()
        invariant
            i <= protocols@.len(),
            forall|k: int| 0 <= k < i ==> protocols@[k] != X11Atom::WMDeleteWindow,
        decreases protocols@.len() - i,
    {
        if protocols[i] == X11Atom::WMDeleteWindow {
            return CloseMethod::DeleteMessage;
        }
        i += 1;
    }
    CloseMethod::Kill
}

/// The workspace a new window asks for through its desktop property (the first value read):
/// none when all workspaces are asked for or the value does not fit below `u32::MAX`.
pub open spec fn spec_desktop_request(first: Option<u64>) -> Option<u32> {
    match first {
        Some(v) => if v == u64::MAX || v >= u32::MAX {
            None
        } else {
            Some(v as u32)
        },
        None => None,
    }
}

/// The workspace a new window asks for, from the values of its desktop property if it could be
/// read.
pub fn desktop_request(data: Option<&Vec<u64>>) -> (r: Option<u32>)
    requires
        data matches Some(d) ==> d@.len() > 0,
    ensures
        r == spec_desktop_request(
            match data {
                Some(d) => Some(d@[0]),
                None => None,
            },
        ),
{
    match data {
        Some(d) => {
            let v = d[0];
            if v == u64::MAX {
                None
            } else if v >= u32::MAX as u64 {
                None
            } else {
                Some(v as u32)
            }
        },
        None => None,
    }
}

/// Value mask bit of a configure request that asks for an x coordinate.
pub const CW_X: u64 = 1;

/// Value mask bit for a y coordinate.
pub const CW_Y: u64 = 2;

/// Value mask bit for a width.
pub const CW_WIDTH: u64 = 4;

/// Value mask bit for a height.
pub const CW_HEIGHT: u64 = 8;

/// A request of a client to change the geometry of its window.
#[derive(Clone, Copy, Debug, PartialEq, Eq, Structural)]
pub struct ConfigureRequest {
    pub value_mask: u64,
    pub x: i32,
    pub y: i32,
    pub width: i32,
    pub height: i32,
}

/// What a configure request of a managed client asks the window manager for: a move of the
/// frame and a resize of the frame, each only where the request differs from the client's
/// window.
#[derive(Clone, Copy, Debug)]
pub struct ConfigurePlan {
    pub move_to: Option<(i32, i32)>,
    pub resize_to: Option<(u32, u32)>,
}

/// The geometry a request asks for: the requested value where the value mask has its bit, else
/// the current one.
pub open spec fn requested_geometry(req: ConfigureRequest, inner: Dimensions) -> (i32, i32, u32, u32) {
    (
        if req.value_mask & CW_X != 0 { req.x } else { inner.x },
        if req.value_mask & CW_Y != 0 { req.y } else { inner.y },
        if req.value_mask & CW_WIDTH != 0 { req.width as u32 } else { inner.w },
        if req.value_mask & CW_HEIGHT != 0 { req.height as u32 } else { inner.h },
    )
}

/// The frame position and size for a requested window geometry: the position less the east
/// and north border, the size with the borders added.
pub open spec fn configure_fits(req: ConfigureRequest, inner: Dimensions, bw: (u32, u32, u32, u32)) -> bool {
    let g = requested_geometry(req, inner);
    &&& i32_min() <= g.0 - (bw.1 as i32) <= i32_max()
    &&& i32_min() <= g.1 - (bw.0 as i32) <= i32_max()
    &&& g.2 + bw.1 + bw.3 <= u32::MAX
    &&& g.3 + bw.0 + bw.2 <= u32::MAX
}

/// Whether the frame geometry for a request can be computed (see [configure_fits]).
pub fn configure_fits_check(req: ConfigureRequest, inner: Dimensions, bw: (u32, u32, u32, u32)) -> (b: bool)
    ensures
        b == configure_fits(req, inner, bw),
{
    let x = if req.value_mask & CW_X != 0 {
        req.x
    } else {
        inner.x
    };
    let y = if req.value_mask & CW_Y != 0 {
        req.y
    } else {
        inner.y
    };
    let width = if req.value_mask & CW_WIDTH != 0 {
        req.width as u32
    } else {
        inner.w
    };
    let height = if req.value_mask & CW_HEIGHT != 0 {
        req.height as u32
    } else {
        inner.h
    };
    let fx = x as i64 - (bw.1 as i32) as i64;
    let fy = y as i64 - (bw.0 as i32) as i64;
    i32::MIN as i64 <= fx && fx <= i32::MAX as i64 && i32::MIN as i64 <= fy && fy <= i32::MAX as i64
        && width as u64 + bw.1 as u64 + bw.3 as u64 <= u32::MAX as u64 && height as u64 + bw.0 as u64 + bw.2 as u64
        <= u32::MAX as u64
}

/// The plan for a configure request of a client whose window has the dimensions `inner` and
/// whose borders are `bw` (north, east, south, west).
pub open spec fn spec_configure_plan(req: ConfigureRequest, inner: Dimensions, bw: (u32, u32, u32, u32)) -> ConfigurePlan {
    let g = requested_geometry(req, inner);
    ConfigurePlan {
        move_to: if g.0 != inner.x || g.1 != inner.y {
            Some(((g.0 - (bw.1 as i32)) as i32, (g.1 - (bw.0 as i32)) as i32))
        } else {
            None
        },
        resize_to: if g.2 != inner.w || g.3 != inner.h {
            Some(((g.2 + bw.1 + bw.3) as u32, (g.3 + bw.0 + bw.2) as u32))
        } else {
            None
        },
    }
}

/// A configure request asks for a move exactly when the requested position (where the value
/// mask has the bit, else the current one) differs from the window's, and then the frame goes to
/// it less the west and north borders (as signed offsets); it asks for a resize exactly when the
/// requested width or the requested height differs from the window's, and then the frame gets
/// that size with the borders added.
pub proof fn law_configure_plan(req: ConfigureRequest, inner: Dimensions, bw: (u32, u32, u32, u32))
    requires
        configure_fits(req, inner, bw),
    ensures
        ({
            let p = spec_configure_plan(req, inner, bw);
            let x: int = if req.value_mask & CW_X != 0 { req.x as int } else { inner.x as int };
            let y: int = if req.value_mask & CW_Y != 0 { req.y as int } else { inner.y as int };
            let w: int = if req.value_mask & CW_WIDTH != 0 { (req.width as u32) as int } else { inner.w as int };
            let h: int = if req.value_mask & CW_HEIGHT != 0 { (req.height as u32) as int } else { inner.h as int };
            &&& (p.move_to is Some <==> (x != inner.x || y != inner.y))
            &&& p.move_to matches Some((fx, fy)) ==> fx == x - (bw.1 as i32) && fy == y - (bw.0 as i32)
            &&& (p.resize_to is Some <==> (w != inner.w || h != inner.h))
            &&& p.resize_to matches Some((fw, fh)) ==> fw == w + bw.1 + bw.3 && fh == h + bw.0 + bw.2
        }),
{
}

/// What a configure request of a managed client asks for.
pub fn configure_plan(req: ConfigureRequest, inner: Dimensions, bw: (u32, u32, u32, u32)) -> (p:
    ConfigurePlan)
    requires
        configure_fits(req, inner, bw),
    ensures
        p == spec_configure_plan(req, inner, bw),
{
    let x = if req.value_mask & CW_X != 0 {
        req.x
    } else {
        inner.x
    };
    let y = if req.value_mask & CW_Y != 0 {
        req.y
    } else {
        inner.y
    };
    let width = if req.value_mask & CW_WIDTH != 0 {
        req.width as u32
    } else {
        inner.w
    };
    let height = if req.value_mask & CW_HEIGHT != 0 {
        req.height as u32
    } else {
        inner.h
    };
    let (bw_north, bw_east, bw_south, bw_west) = bw;
    let move_to = if x != inner.x || y != inner.y {
        Some((x - bw_east as i32, y - bw_north as i32))
    } else {
        None
    };
    let resize_to = if width != inner.w || height != inner.h {
        Some((width + bw_east + bw_west, height + bw_north + bw_south))
    } else {
        None
    };
    ConfigurePlan { move_to, resize_to }
}

/// Whether a synthetic configure notification is owed to the client after a configure
/// request was handled by `plan`: exactly when the window was not changed, that is, when no
/// resize was asked for or the resize request was turned down (`resized` is what the resize
/// request answered; a move alone may not make the server notify the client).
pub fn configure_notify(plan: &ConfigurePlan, resized: bool) -> (notify: bool)
    ensures
        notify == !(plan.resize_to is Some && resized),
{
    !(plan.resize_to.is_some() && resized)
}

/// What a client message asks the window manager to do.
#[derive(Clone, Copy, Debug, PartialEq, Eq, Structural)]
pub enum ClientMessageAction {
    /// activate the window
    Activate,
    /// close the window
    Close,
    /// show this workspace
    SwitchWorkspace(u32),
    /// pin the window (or unpin it), and move it to a workspace
    SetDesktop { pinned: bool, workspace: Option<u32> },
    /// change the fullscreen state of the window
    Fullscreen(SettingMode),
    /// change the tiled state of the window
    Tile(SettingMode),
    /// nothing to do
    Ignore,
}

/// The setting mode a state message carries, as its first value.
pub open spec fn spec_mode_of(v: i64) -> Option<SettingMode> {
    let c = v as u64;
    if c == 1 {
        Some(SettingMode::Enable)
    } else if c == 0 {
        Some(SettingMode::Disable)
    } else if c == 2 {
        Some(SettingMode::Toggle)
    } else {
        None
    }
}

/// What a client message of type `atom` with the values `data` asks for; `fullscreen_atom` and
/// `tiled_atom` are the server's numbers of the fullscreen and tiled states.
pub open spec fn spec_client_message(atom: Option<X11Atom>, data: Seq<i64>, fullscreen_atom: u64, tiled_atom: u64) -> ClientMessageAction {
    match atom {
        Some(X11Atom::NetActiveWindow) => ClientMessageAction::Activate,
        Some(X11Atom::NetCloseWindow) => ClientMessageAction::Close,
        Some(X11Atom::NetCurrentDesktop) => if 0 <= data[0] <= u32::MAX {
            ClientMessageAction::SwitchWorkspace(data[0] as u32)
        } else {
            ClientMessageAction::Ignore
        },
        Some(X11Atom::NetWMDesktop) => ClientMessageAction::SetDesktop {
            pinned: data[0] == -1,
            workspace: if data[0] != -1 {
                Some(data[0] as u32)
            } else {
                None
            },
        },
        Some(X11Atom::NetWMState) => if data[1] as u64 == fullscreen_atom || data[2] as u64
            == fullscreen_atom {
            match spec_mode_of(data[0]) {
                Some(m) => ClientMessageAction::Fullscreen(m),
                None => ClientMessageAction::Ignore,
            }
        } else if data[1] as u64 == tiled_atom || data[2] as u64 == tiled_atom {
            match spec_mode_of(data[0]) {
                Some(m) => ClientMessageAction::Tile(m),
                None => ClientMessageAction::Ignore,
            }
        } else {
            ClientMessageAction::Ignore
        },
        _ => ClientMessageAction::Ignore,
    }
}

/// The setting mode a state message carries.
fn mode_of(v: i64) -> (m: Option<SettingMode>)
    ensures
        m == spec_mode_of(v),
{
    SettingMode::from_code(v as u64)
}

/// What a client message of type `atom` (if the library knows it) with the five values `data`
/// asks for.
pub fn decode_client_message(atom: Option<X11Atom>, data: &Vec<i64>, fullscreen_atom: u64, tiled_atom: u64) -> (a:
    ClientMessageAction)
    requires
        data@.len() == 5,
    ensures
        a == spec_client_message(atom, data@, fullscreen_atom, tiled_atom),
{
    match atom {
        Some(X11Atom::NetActiveWindow) => ClientMessageAction::Activate,
        Some(X11Atom::NetCloseWindow) => ClientMessageAction::Close,
        Some(X11Atom::NetCurrentDesktop) => {
            let v = data[0];
            if 0 <= v && v <= u32::MAX as i64 {
                ClientMessageAction::SwitchWorkspace(v as u32)
            } else {
                ClientMessageAction::Ignore
            }
        },
        Some(X11Atom::NetWMDesktop) => {
            let v = data[0];
            let workspace = if v != -1 {
                Some(v as u32)
            } else {
                None
            };
            ClientMessageAction::SetDesktop { pinned: v == -1, workspace }
        },
        Some(X11Atom::NetWMState) => {
            if data[1] as u64 == fullscreen_atom || data[2] as u64 == fullscreen_atom {
                match mode_of(data[0]) {
                    Some(m) => ClientMessageAction::Fullscreen(m),
                    None => ClientMessageAction::Ignore,
                }
            } else if data[1] as u64 == tiled_atom || data[2] as u64 == tiled_atom {
                match mode_of(data[0]) {
                    Some(m) => ClientMessageAction::Tile(m),
                    None => ClientMessageAction::Ignore,
                }
            } else {
                ClientMessageAction::Ignore
            }
        },
        _ => ClientMessageAction::Ignore,
    }
}

/// What an unmap notification about a client asks for.
#[derive(Clone, Copy, Debug, PartialEq, Eq, Structural)]
pub enum UnmapAction {
    /// the unmap came from reparenting: only clear the reparenting mark
    EndReparenting,
    /// the client withdrew its window: mark the window withdrawn
    Withdraw,
    /// the window is gone: stop managing the client
    Unmanage,
}

/// What an unmap notification asks for: one reported to the root window or about a client
/// that is being reparented only ends the reparenting; a synthetic one withdraws the window;
/// any other ends the management of the client.
pub fn unmap_action(reported_to_root: bool, is_reparenting: bool, send_event: bool) -> (a: UnmapAction)
    ensures
        a == if reported_to_root || is_reparenting {
            UnmapAction::EndReparenting
        } else if send_event {
            UnmapAction::Withdraw
        } else {
            UnmapAction::Unmanage
        },
{
    if reported_to_root || is_reparenting {
        UnmapAction::EndReparenting
    } else if send_event {
        UnmapAction::Withdraw
    } else {
        UnmapAction::Unmanage
    }
}

/// The kind of a window that is shown but not managed.
#[derive(Clone, Copy, Debug, PartialEq, Eq, Structural)]
pub enum UnmanagedType {
    Desktop,
    Dock,
    Notification,
}

/// Where a window goes in the stacking order.
#[derive(Clone, Copy, Debug, PartialEq, Eq, Structural)]
pub enum Stacking {
    Lower,
    Raise,
}

/// A window that is shown but not managed.
pub struct UnmanagedClient {
    window: u64,
    client_type: UnmanagedType,
}

impl UnmanagedClient {
    pub closed spec fn spec_window(&self) -> u64 {
        self.window
    }

    pub closed spec fn spec_type(&self) -> UnmanagedType {
        self.client_type
    }

    pub fn new(window: u64, client_type: UnmanagedType) -> (c: Self)
        ensures
            c.spec_window() == window,
            c.spec_type() == client_type,
    {
        UnmanagedClient { window, client_type }
    }

    pub fn get_type(&self) -> (t: UnmanagedType)
        ensures
            t == self.spec_type(),
    {
        self.client_type
    }

    pub fn window(&self) -> (w: u64)
        ensures
            w == self.spec_window(),
    {
        self.window
    }

    /// Desktop windows go below everything, docks and notifications above.
    pub fn stacking(&self) -> (s: Stacking)
        ensures
            s == if self.spec_type() == UnmanagedType::Desktop {
                Stacking::Lower
            } else {
                Stacking::Raise
            },
    {
        match self.client_type {
            UnmanagedType::Desktop => Stacking::Lower,
            UnmanagedType::Dock | UnmanagedType::Notification => Stacking::Raise,
        }
    }
}

/// The areas of the monitors.
pub open spec fn monitor_areas(monitors: Seq<MonitorConfig>) -> Seq<Dimensions> {
    monitors.map_values(|m: MonitorConfig| m.dims)
}

/// The monitor with an inset of `inset` at the top of its window area.
pub open spec fn with_inset_top(m: MonitorConfig, inset: u32) -> MonitorConfig {
    MonitorConfig {
        win_area: Dimensions {
            y: inset_top_y(m.win_area.y, inset) as i32,
            h: inset_height(m.win_area.h, inset) as u32,
            ..m.win_area
        },
        ..m
    }
}

/// The monitor with an inset of `inset` at the bottom of its window area.
pub open spec fn with_inset_bottom(m: MonitorConfig, inset: u32) -> MonitorConfig {
    MonitorConfig { win_area: Dimensions { h: inset_height(m.win_area.h, inset) as u32, ..m.win_area }, ..m }
}

/// The monitors after one dock reserved its space: on the first monitor that contains the
/// center of the dock, an inset at the top reaching to the bottom of the dock if the dock's
/// center is above the monitor's center, else an inset at the bottom reaching to the top of
/// the dock.
pub open spec fn apply_dock(monitors: Seq<MonitorConfig>, dock: Dimensions) -> Seq<MonitorConfig> {
    let c = dock.spec_center();
    match first_containing(monitor_areas(monitors), (c.0 as i32, c.1 as i32)) {
        Some(i) => {
            let m = monitors[i];
            if c.1 < m.dims.spec_center().1 {
                monitors.update(i, with_inset_top(m, (dock.spec_bottom() - m.dims.y) as u32))
            } else {
                monitors.update(i, with_inset_bottom(m, (m.dims.spec_bottom() - dock.y) as u32))
            }
        },
        None => monitors,
    }
}

/// The monitors with the insets of all docks, starting from monitors without insets.
pub open spec fn spec_dock_insets(monitors: Seq<MonitorConfig>, docks: Seq<Dimensions>) -> Seq<
    MonitorConfig,
>
    decreases docks.len(),
{
    if docks.len() == 0 {
        monitors.map_values(|m: MonitorConfig| MonitorConfig { win_area: m.dims, ..m })
    } else {
        apply_dock(spec_dock_insets(monitors, docks.drop_last()), docks.last())
    }
}

/// The arithmetic of reserving the space of the docks stays within `i32`.
pub open spec fn docks_fit(monitors: Seq<MonitorConfig>, docks: Seq<Dimensions>) -> bool {
    &&& monitors.len() <= u32::MAX
    &&& forall|i: int| 0 <= i < monitors.len() ==> dims_fit(#[trigger] monitors[i].dims)
    &&& forall|j: int| 0 <= j < docks.len() ==> dims_fit(#[trigger] docks[j])
    &&& forall|i: int, j: int|
        0 <= i < monitors.len() && 0 <= j < docks.len() ==> {
            &&& i32_min() <= (#[trigger] docks[j]).spec_bottom() - (#[trigger] monitors[i]).dims.y
            &&& monitors[i].dims.spec_bottom() - docks[j].y <= i32_max()
        }
}

/// Spec of the monitor areas is kept by insets.
proof fn lemma_areas_update(monitors: Seq<MonitorConfig>, i: int, m: MonitorConfig)
    requires
        0 <= i < monitors.len(),
        m.dims == monitors[i].dims,
    ensures
        monitor_areas(monitors.update(i, m)) == monitor_areas(monitors),
{
    assert(monitor_areas(monitors.update(i, m)) =~= monitor_areas(monitors));
}

/// Index of the first monitor whose area contains the point.
fn find_monitor(monitors: &Vec<MonitorConfig>, point: (i32, i32)) -> (r: Option<usize>)
    requires
        forall|i: int| 0 <= i < monitors@.len() ==> dims_fit(#[trigger] monitors@[i].dims),
    ensures
        r matches Some(i) ==> first_containing(monitor_areas(monitors@), point) == Some(i as int),
        r is None ==> first_containing(monitor_areas(monitors@), point) is None,
{
    let ghost areas = monitor_areas(monitors@);
    let mut k: usize = 0;
    while k < monitors.len()
        invariant
            k <= monitors@.len(),
            areas == monitor_areas(monitors@),
            forall|i: int| 0 <= i < monitors@.len() ==> dims_fit(#[trigger] monitors@[i].dims),
            first_containing(areas.take(k as int), point) is None,
        decreases monitors@.len() - k,
    {
        assert(areas.take(k + 1).drop_last() =~= areas.take(k as int));
        assert(areas[k as int] == monitors@[k as int].dims);
        if monitors[k].contains_point(point) {
            proof {
                lemma_first_containing(areas.take(k as int), point);
                assert forall|q: int| 0 <= q < k implies !(#[trigger] areas[q]).spec_contains_point(point) by {
                    assert(areas.take(k as int)[q] == areas[q]);
                }
                lemma_first_containing_at(areas, point, k as int);
            }
            return Some(k);
        }
        k += 1;
    }
    assert(areas.take(areas.len() as int) =~= areas);
    None
}

/// Reserve the space of docks (given by their dimensions) on the monitors: first every monitor
/// gives its whole area back to windows, then each dock reserves its space (see [apply_dock]).
pub fn apply_dock_insets(monitors: &mut Vec<MonitorConfig>, docks: &Vec<Dimensions>)
    requires
        docks_fit(old(monitors)@, docks@),
    ensures
        final(monitors)@ == spec_dock_insets(old(monitors)@, docks@),
{
    let ghost orig = monitors@;
    let mut i: usize = 0;
    while i < monitors.len()
        invariant
            i <= monitors@.len(),
            monitors@.len() == orig.len(),
            forall|k: int| 0 <= k < i ==> #[trigger] monitors@[k] == (MonitorConfig { win_area: orig[k].dims, ..orig[k] }),
            forall|k: int| i <= k < monitors@.len() ==> #[trigger] monitors@[k] == orig[k],
        decreases monitors@.len() - i,
    {
        monitors[i].remove_insets();
        i += 1;
    }
    assert(monitors@ =~= spec_dock_insets(orig, docks@.take(0)));
    let mut j: usize = 0;
    while j < docks.len()
        invariant
            j <= docks@.len(),
            docks_fit(orig, docks@),
            monitors@ == spec_dock_insets(orig, docks@.take(j as int)),
            monitor_areas(monitors@) == monitor_areas(orig),
            monitors@.len() == orig.len(),
        decreases docks@.len() - j,
    {
        assert(docks@.take(j + 1).drop_last() =~= docks@.take(j as int));
        assert(docks@.take(j + 1).last() == docks@[j as int]);
        let dock = docks[j];
        assert(dims_fit(dock));
        let center = (dock.x + (dock.w / 2) as i32, dock.y + (dock.h / 2) as i32);
        proof {
            assert forall|i: int| 0 <= i < monitors@.len() implies dims_fit(#[trigger] monitors@[i].dims) by {
                assert(monitor_areas(monitors@)[i] == monitors@[i].dims);
                assert(monitor_areas(orig)[i] == orig[i].dims);
            }
        }
        let found = find_monitor(monitors, center);
        proof {
            lemma_first_containing(monitor_areas(monitors@), center);
        }
        match found {
            Some(idx) => {
                let ghost before = monitors@;
                let mdims = monitors[idx].dimensions();
                assert(mdims == orig[idx as int].dims) by {
                    assert(monitor_areas(orig)[idx as int] == orig[idx as int].dims);
                    assert(monitor_areas(before)[idx as int] == before[idx as int].dims);
                }
                let mon_center_y = mdims.y + (mdims.h / 2) as i32;
                if center.1 < mon_center_y {
                    let inset = (dock.y + dock.h as i32) - mdims.y;
                    monitors[idx].add_inset_top(inset as u32);
                    proof {
                        assert(monitors@ =~= before.update(idx as int, with_inset_top(before[idx as int], inset as u32)));
                        lemma_areas_update(before, idx as int, with_inset_top(before[idx as int], inset as u32));
                    }
                } else {
                    let inset = (mdims.y + mdims.h as i32) - dock.y;
                    monitors[idx].add_inset_bottom(inset as u32);
                    proof {
                        assert(monitors@ =~= before.update(idx as int, with_inset_bottom(before[idx as int], inset as u32)));
                        lemma_areas_update(before, idx as int, with_inset_bottom(before[idx as int], inset as u32));
                    }
                }
            },
            None => {},
        }
        j += 1;
    }
    assert(docks@.take(docks@.len() as int) =~= docks@);
}

/// Two monitor areas do not overlap: one lies completely left of, right of, above or below the
/// other.
pub open spec fn no_overlap(m1: Dimensions, m2: Dimensions) -> bool {
    m1.spec_right() <= m2.x || m1.x >= m2.spec_right() || m1.spec_bottom() <= m2.y || m1.y
        >= m2.spec_bottom()
}

/// The monitors with the primary monitors first (in reverse order of discovery), then the
/// others in their order.
pub open spec fn primary_first(found: Seq<(MonitorConfig, bool)>) -> Seq<MonitorConfig>
    decreases found.len(),
{
    if found.len() == 0 {
        Seq::empty()
    } else {
        let rest = primary_first(found.drop_last());
        let (m, primary) = found.last();
        if primary {
            seq![m] + rest
        } else {
            rest.push(m)
        }
    }
}

/// The monitors that do not overlap an earlier one that was kept.
pub open spec fn keep_non_overlapping(monitors: Seq<MonitorConfig>) -> Seq<MonitorConfig>
    decreases monitors.len(),
{
    if monitors.len() == 0 {
        Seq::empty()
    } else {
        let kept = keep_non_overlapping(monitors.drop_last());
        let m = monitors.last();
        if forall|k: int| 0 <= k < kept.len() ==> no_overlap(#[trigger] kept[k].dims, m.dims) {
            kept.push(m)
        } else {
            kept
        }
    }
}

/// No two of the monitors that are kept overlap: every monitor gets its own area (and its own
/// workspaces).
pub proof fn lemma_kept_monitors_apart(monitors: Seq<MonitorConfig>)
    ensures
        forall|i: int, j: int|
            0 <= i < j < keep_non_overlapping(monitors).len() ==> no_overlap(
                #[trigger] keep_non_overlapping(monitors)[i].dims,
                #[trigger] keep_non_overlapping(monitors)[j].dims,
            ),
    decreases monitors.len(),
{
    if monitors.len() > 0 {
        let d = monitors.drop_last();
        let m = monitors.last();
        let prev = keep_non_overlapping(d);
        lemma_kept_monitors_apart(d);
        let kept = keep_non_overlapping(monitors);
        if forall|k: int| 0 <= k < prev.len() ==> no_overlap(#[trigger] prev[k].dims, m.dims) {
            assert(kept == prev.push(m));
            assert forall|i: int, j: int| 0 <= i < j < kept.len() implies no_overlap(
                #[trigger] kept[i].dims,
                #[trigger] kept[j].dims,
            ) by {
                assert(kept[i] == prev[i]);
                if j < prev.len() {
                    assert(kept[j] == prev[j]);
                } else {
                    assert(kept[j] == m);
                }
            }
        } else {
            assert(kept == prev);
        }
    }
}

/// Order the monitors that the server reported (each with whether it is the primary one):
/// primary monitors first; then, if asked to, drop every monitor that overlaps one kept before
/// it.
pub fn arrange_monitors(found: Vec<(MonitorConfig, bool)>, ignore_overlapping: bool) -> (r: Vec<
    MonitorConfig,
>)
    requires
        forall|i: int| 0 <= i < found@.len() ==> dims_fit((#[trigger] found@[i]).0.dims),
    ensures
        r@ == if ignore_overlapping {
            keep_non_overlapping(primary_first(found@))
        } else {
            primary_first(found@)
        },
{
    let ghost orig = found@;
    let mut found = found;
    let mut front: Vec<MonitorConfig> = Vec::new();
    let mut back: Vec<MonitorConfig> = Vec::new();
    let mut n: usize = 0;
    let total = found.len();
    assert(orig.len() == total);
    while found.len() > 0
        invariant
            found@ == orig.skip(n as int),
            n <= orig.len(),
            found@.len() == orig.len() - n,
            orig.len() <= usize::MAX,
            primary_first(orig.take(n as int)) == front@.reverse() + back@,
        decreases found@.len(),
    {
        let (m, primary) = found.remove(0);
        proof {
            assert(orig.take(n + 1).drop_last() =~= orig.take(n as int));
            assert(orig.take(n + 1).last() == orig[n as int]);
            assert(found@ =~= orig.skip(n + 1));
        }
        if primary {
            let ghost f = front@;
            front.push(m);
            assert(front@.reverse() =~= seq![m] + f.reverse());
            assert(seq![m] + (f.reverse() + back@) =~= (seq![m] + f.reverse()) + back@);
        } else {
            let ghost b = back@;
            back.push(m);
            assert((front@.reverse() + b).push(m) =~= front@.reverse() + back@);
        }
        n += 1;
    }
    assert(orig.take(n as int) =~= orig);
    let mut ordered: Vec<MonitorConfig> = Vec::new();
    let ghost f0 = front@;
    while front.len() > 0
        invariant
            f0.reverse() =~= ordered@ + front@.reverse(),
        decreases front@.len(),
    {
        let ghost fb = front@;
        let m = front.pop().unwrap();
        assert(fb =~= front@.push(m));
        assert(fb.reverse() =~= seq![m] + front@.reverse());
        ordered.push(m);
        assert(ordered@ + front@.reverse() =~= ordered@.drop_last() + (seq![m] + front@.reverse()));
    }
    assert(ordered@ =~= f0.reverse());
    let ghost o0 = ordered@;
    let ghost b0 = back@;
    let mut b: usize = 0;
    let nback = back.len();
    assert(b0.len() == nback);
    while back.len() > 0
        invariant
            back@ == b0.skip(b as int),
            b <= b0.len(),
            back@.len() == b0.len() - b,
            b0.len() <= usize::MAX,
            ordered@ == o0 + b0.take(b as int),
        decreases back@.len(),
    {
        let m = back.remove(0);
        proof {
            assert(back@ =~= b0.skip(b + 1));
        }
        ordered.push(m);
        assert(o0 + b0.take(b + 1) =~= (o0 + b0.take(b as int)).push(m));
        b += 1;
    }
    assert(b0.take(b as int) =~= b0);
    if !ignore_overlapping {
        return ordered;
    }
    let ghost all = ordered@;
    assert forall|i: int| 0 <= i < all.len() implies dims_fit((#[trigger] all[i]).dims) by {
        lemma_primary_first_from(orig, all[i]);
    }
    let mut kept: Vec<MonitorConfig> = Vec::new();
    let mut t: usize = 0;
    let nall = ordered.len();
    assert(all.len() == nall);
    while ordered.len() > 0
        invariant
            ordered@ == all.skip(t as int),
            t <= all.len(),
            ordered@.len() == all.len() - t,
            all.len() <= usize::MAX,
            kept@ == keep_non_overlapping(all.take(t as int)),
            forall|i: int| 0 <= i < all.len() ==> dims_fit((#[trigger] all[i]).dims),
        decreases ordered@.len(),
    {
        let m = ordered.remove(0);
        proof {
            assert(ordered@ =~= all.skip(t + 1));
            assert(all.take(t + 1).drop_last() =~= all.take(t as int));
            assert(all.take(t + 1).last() == all[t as int]);
            lemma_kept_from(all.take(t as int));
        }
        let mut ok = true;
        let mut k: usize = 0;
        while k < kept.len()
            invariant
                k <= kept@.len(),
                dims_fit(m.dims),
                forall|q: int| 0 <= q < kept@.len() ==> dims_fit((#[trigger] kept@[q]).dims),
                ok == forall|q: int| 0 <= q < k ==> no_overlap(#[trigger] kept@[q].dims, m.dims),
            decreases kept@.len() - k,
        {
            let d1 = kept[k].dims;
            let d2 = m.dims;
            let sep = d1.x + d1.w as i32 <= d2.x || d1.x >= d2.x + d2.w as i32 || d1.y + d1.h as i32
                <= d2.y || d1.y >= d2.y + d2.h as i32;
            ok = ok && sep;
            k += 1;
        }
        if ok {
            kept.push(m);
        }
        t += 1;
    }
    assert(all.take(t as int) =~= all);
    kept
}

/// Every monitor in the primary-first order is one that was found.
proof fn lemma_primary_first_from(found: Seq<(MonitorConfig, bool)>, m: MonitorConfig)
    ensures
        primary_first(found).contains(m) ==> exists|i: int| 0 <= i < found.len() && (#[trigger] found[i]).0 == m,
    decreases found.len(),
{
    if found.len() > 0 {
        let d = found.drop_last();
        lemma_primary_first_from(d, m);
        let rest = primary_first(d);
        if primary_first(found).contains(m) {
            let k = choose|k: int| 0 <= k < primary_first(found).len() && primary_first(found)[k] == m;
            let (last, primary) = found.last();
            if primary {
                if k == 0 {
                    assert(found[found.len() - 1].0 == m);
                } else {
                    assert(rest[k - 1] == m);
                    let i = choose|i: int| 0 <= i < d.len() && (#[trigger] d[i]).0 == m;
                    assert(found[i] == d[i]);
                }
            } else {
                if k < rest.len() {
                    assert(rest[k] == m);
                    let i = choose|i: int| 0 <= i < d.len() && (#[trigger] d[i]).0 == m;
                    assert(found[i] == d[i]);
                } else {
                    assert(found[found.len() - 1].0 == m);
                }
            }
        }
    }
}

/// Every kept monitor is one of the monitors.
proof fn lemma_kept_from(monitors: Seq<MonitorConfig>)
    ensures
        forall|q: int| 0 <= q < keep_non_overlapping(monitors).len() ==> monitors.contains(
            #[trigger] keep_non_overlapping(monitors)[q],
        ),
    decreases monitors.len(),
{
    if monitors.len() > 0 {
        let d = monitors.drop_last();
        lemma_kept_from(d);
        let kept = keep_non_overlapping(d);
        assert forall|q: int| 0 <= q < keep_non_overlapping(monitors).len() implies monitors.contains(
            #[trigger] keep_non_overlapping(monitors)[q],
        ) by {
            if q < kept.len() {
                assert(keep_non_overlapping(monitors)[q] == kept[q]);
                assert(d.contains(kept[q]));
                let i = choose|i: int| 0 <= i < d.len() && d[i] == kept[q];
                assert(monitors[i] == d[i]);
            } else {
                assert(monitors[monitors.len() - 1] == keep_non_overlapping(monitors)[q]);
            }
        }
    }
}

} // verus!
