//! Decisions of the window manager that span monitors: which monitor and workspace a global
//! workspace index names, where windows go when they leave an area, and how the user cycles
//! through clients, monitors and workspaces.
use vstd::prelude::*;

use crate::config::Configuration;
use crate::geometry::{i32_max, Dimensions};

verus! {

/// Smallest value of an `i32`, as an integer.
pub open spec fn i32_min() -> int {
    -0x8000_0000
}

/// The monitor and the index on that monitor of global workspace `absolute_idx`: the primary
/// monitor holds the first `primary_workspaces` workspaces, every other monitor the next
/// `secondary_workspaces`.
pub open spec fn spec_relative_workspace_idx(config: Configuration, absolute_idx: u32) -> (int, int) {
    if absolute_idx < config.primary_workspaces {
        (0, absolute_idx as int)
    } else {
        (
            1 + (absolute_idx - config.primary_workspaces) / (config.secondary_workspaces as int),
            (absolute_idx - config.primary_workspaces) % (config.secondary_workspaces as int),
        )
    }
}

/// The global index of the first workspace of monitor `monitor_idx`.
pub open spec fn spec_workspace_offset(config: Configuration, monitor_idx: int) -> int {
    if monitor_idx == 0 {
        0
    } else {
        config.primary_workspaces + (monitor_idx - 1) * config.secondary_workspaces
    }
}

/// The monitor and the index on that monitor of global workspace `absolute_idx`.
pub fn relative_workspace_idx(config: &Configuration, absolute_idx: u32) -> (r: (usize, u32))
    requires
        absolute_idx >= config.primary_workspaces ==> config.secondary_workspaces > 0
            && (absolute_idx - config.primary_workspaces) / (config.secondary_workspaces as int)
            < u32::MAX,
    ensures
        r.0 as int == spec_relative_workspace_idx(*config, absolute_idx).0,
        r.1 as int == spec_relative_workspace_idx(*config, absolute_idx).1,
{
    if absolute_idx < config.primary_workspaces {
        (0, absolute_idx)
    } else {
        let rest = absolute_idx - config.primary_workspaces;
        let mon_idx = 1 + rest / config.secondary_workspaces;
        let rel_idx = rest % config.secondary_workspaces;
        (mon_idx as usize, rel_idx)
    }
}

/// The global index of the first workspace of monitor `monitor_idx` (the primary monitor is
/// monitor 0).
pub fn workspace_offset(config: &Configuration, monitor_idx: usize) -> (o: u32)
    requires
        spec_workspace_offset(*config, monitor_idx as int) <= u32::MAX,
    ensures
        o == spec_workspace_offset(*config, monitor_idx as int),
{
    if monitor_idx == 0 {
        0
    } else {
        let k = monitor_idx - 1;
        proof {
            assert(0 <= k * config.secondary_workspaces) by (nonlinear_arith)
                requires
                    k >= 0,
                    config.secondary_workspaces >= 0,
            ;
        }
        let k32 = k as u32;
        proof {
            if config.secondary_workspaces > 0 {
                assert(k <= k * config.secondary_workspaces) by (nonlinear_arith)
                    requires
                        k >= 0,
                        config.secondary_workspaces >= 1,
                ;
                assert(k32 == k);
            }
        }
        if config.secondary_workspaces == 0 {
            config.primary_workspaces
        } else {
            config.primary_workspaces + k32 * config.secondary_workspaces
        }
    }
}

/// A workspace named by its global index is found again from the monitor and the index on that
/// monitor: the global index of workspace `rel` of monitor `mon` leads back to `(mon, rel)`.
pub proof fn lemma_relative_workspace_roundtrip(config: Configuration, mon: int, rel: int)
    requires
        mon >= 0,
        0 <= rel,
        mon == 0 ==> rel < config.primary_workspaces,
        mon > 0 ==> rel < config.secondary_workspaces,
        spec_workspace_offset(config, mon) + rel <= u32::MAX,
    ensures
        spec_relative_workspace_idx(config, (spec_workspace_offset(config, mon) + rel) as u32) == (
        mon,
        rel,
    ),
{
    if mon > 0 {
        let s = config.secondary_workspaces as int;
        let v = (mon - 1) * s + rel;
        assert(0 <= (mon - 1) * s) by (nonlinear_arith)
            requires
                mon >= 1,
                s >= 0,
        ;
        assert(v / s == mon - 1 && v % s == rel) by {
            vstd::arithmetic::div_mod::lemma_fundamental_div_mod_converse(v, s, mon - 1, rel);
        }
    }
}

/// What keeping a window on an area asks for.
#[derive(Clone, Copy, PartialEq, Eq, Structural, Debug)]
pub enum AreaFix {
    /// The window is inside the area already.
    Keep,
    /// The center of the window is off the area: center it on the area.
    Center,
    /// Move the window to these dimensions (pushed inside the area, edge by edge).
    Move(Dimensions),
}

/// The dimensions of the window pushed inside the area: left and top edge first, then right and
/// bottom edge.
pub open spec fn spec_pushed_into(d: Dimensions, area: Dimensions) -> Dimensions {
    let x1 = if d.x < area.x { area.x as int } else { d.x as int };
    let y1 = if d.y < area.y { area.y as int } else { d.y as int };
    let x2 = if x1 + d.w > area.spec_right() { area.spec_right() - d.w } else { x1 };
    let y2 = if y1 + d.h > area.spec_bottom() { area.spec_bottom() - d.h } else { y1 };
    Dimensions { x: x2 as i32, y: y2 as i32, ..d }
}

/// The arithmetic of pushing a window into an area stays within `i32`.
pub open spec fn push_fits(d: Dimensions, area: Dimensions) -> bool {
    &&& d.right_fits()
    &&& d.bottom_fits()
    &&& area.right_fits()
    &&& area.bottom_fits()
    &&& area.x + d.w <= i32_max()
    &&& area.y + d.h <= i32_max()
    &&& area.spec_right() - d.w >= i32_min()
    &&& area.spec_bottom() - d.h >= i32_min()
}

/// What keeping the window `d` on `area` asks for.
pub open spec fn spec_fix_to_area(d: Dimensions, area: Dimensions) -> AreaFix {
    let pushed = spec_pushed_into(d, area);
    let c = d.spec_center();
    if pushed == d {
        AreaFix::Keep
    } else if !area.spec_contains_point((c.0 as i32, c.1 as i32)) {
        AreaFix::Center
    } else {
        AreaFix::Move(pushed)
    }
}

/// Keep a window on an area: nothing when it is inside already, center it when its center is
/// off the area, otherwise push it inside, edge by edge.
pub fn fix_client_to_area(client_dimensions: Dimensions, area: Dimensions) -> (fix: AreaFix)
    requires
        push_fits(client_dimensions, area),
    ensures
        fix == spec_fix_to_area(client_dimensions, area),
{
    let orig = client_dimensions;
    let mut d = client_dimensions;
    if d.x < area.x {
        d.x = area.x;
    }
    if d.y < area.y {
        d.y = area.y;
    }
    let area_right = area.x + area.w as i32;
    let area_bottom = area.y + area.h as i32;
    if d.x + d.w as i32 > area_right {
        d.x = area_right - d.w as i32;
    }
    if d.y + d.h as i32 > area_bottom {
        d.y = area_bottom - d.h as i32;
    }
    if d == orig {
        AreaFix::Keep
    } else {
        let center = (orig.x + (orig.w / 2) as i32, orig.y + (orig.h / 2) as i32);
        if !area.contains_point(center) {
            AreaFix::Center
        } else {
            AreaFix::Move(d)
        }
    }
}

/// Whether `point` lies inside `d`, computed without overflow.
pub open spec fn dims_fit(d: Dimensions) -> bool {
    d.right_fits() && d.bottom_fits()
}

/// The first of `monitors` that contains `point`.
pub open spec fn first_containing(monitors: Seq<Dimensions>, point: (i32, i32)) -> Option<int>
    decreases monitors.len(),
{
    if monitors.len() == 0 {
        None
    } else {
        match first_containing(monitors.drop_last(), point) {
            Some(i) => Some(i),
            None => if monitors.last().spec_contains_point(point) {
                Some(monitors.len() - 1)
            } else {
                None
            },
        }
    }
}

/// The first monitor that contains a point, and that monitor does contain it.
pub proof fn lemma_first_containing(monitors: Seq<Dimensions>, point: (i32, i32))
    ensures
        first_containing(monitors, point) matches Some(i) ==> 0 <= i < monitors.len()
            && monitors[i].spec_contains_point(point) && forall|j: int|
            0 <= j < i ==> !(#[trigger] monitors[j]).spec_contains_point(point),
        first_containing(monitors, point) is None ==> forall|j: int|
            0 <= j < monitors.len() ==> !(#[trigger] monitors[j]).spec_contains_point(point),
    decreases monitors.len(),
{
    if monitors.len() > 0 {
        let d = monitors.drop_last();
        lemma_first_containing(d, point);
        assert forall|j: int| 0 <= j < d.len() implies #[trigger] monitors[j] == d[j] by {}
    }
}

/// A monitor that contains the point, with none before it that does, is the first one.
pub proof fn lemma_first_containing_at(monitors: Seq<Dimensions>, point: (i32, i32), i: int)
    requires
        0 <= i < monitors.len(),
        monitors[i].spec_contains_point(point),
        forall|j: int| 0 <= j < i ==> !(#[trigger] monitors[j]).spec_contains_point(point),
    ensures
        first_containing(monitors, point) == Some(i),
    decreases monitors.len(),
{
    let d = monitors.drop_last();
    if i < monitors.len() - 1 {
        assert forall|j: int| 0 <= j <= i implies #[trigger] d[j] == monitors[j] by {}
        lemma_first_containing_at(d, point, i);
    } else {
        lemma_first_containing(d, point);
        if let Some(j) = first_containing(d, point) {
            assert(d[j] == monitors[j]);
        }
    }
}

/// Index of the first monitor that contains `point`, if any.
pub fn point_to_monitor(monitors: &Vec<Dimensions>, point: (i32, i32)) -> (r: Option<u32>)
    requires
        monitors@.len() <= u32::MAX,
        forall|i: int| 0 <= i < monitors@.len() ==> dims_fit(#[trigger] monitors@[i]),
    ensures
        r matches Some(i) ==> first_containing(monitors@, point) == Some(i as int),
        r is None ==> first_containing(monitors@, point) is None,
{
    let mut i: usize = 0;
    while i < monitors.len()
        invariant
            i <= monitors@.len(),
            monitors@.len() <= u32::MAX,
            forall|k: int| 0 <= k < monitors@.len() ==> dims_fit(#[trigger] monitors@[k]),
            first_containing(monitors@.take(i as int), point) is None,
        decreases monitors@.len() - i,
    {
        assert(monitors@.take(i + 1).drop_last() =~= monitors@.take(i as int));
        if monitors[i].contains_point(point) {
            proof {
                lemma_first_containing(monitors@.take(i as int), point);
                assert forall|j: int| 0 <= j < i implies !(#[trigger] monitors@[j]).spec_contains_point(point) by {
                    assert(monitors@.take(i as int)[j] == monitors@[j]);
                }
                lemma_first_containing_at(monitors@, point, i as int);
            }
            return Some(i as u32);
        }
        i += 1;
    }
    assert(monitors@.take(monitors@.len() as int) =~= monitors@);
    None
}

/// Index of the monitor under the pointer: the first monitor that contains it, else the first
/// monitor.
pub fn current_monitor_index(monitors: &Vec<Dimensions>, pointer: (i32, i32)) -> (r: usize)
    requires
        monitors@.len() <= u32::MAX,
        forall|i: int| 0 <= i < monitors@.len() ==> dims_fit(#[trigger] monitors@[i]),
    ensures
        r == match first_containing(monitors@, pointer) {
            Some(i) => i,
            None => 0,
        },
{
    match point_to_monitor(monitors, pointer) {
        Some(i) => i as usize,
        None => 0,
    }
}

/// The monitor a client moves to while the mouse drags it: the monitor under its new center, if
/// that differs from the monitor under its old center (and both exist).
pub fn monitor_switch(old_mon: Option<u32>, new_mon: Option<u32>) -> (r: Option<u32>)
    ensures
        r == match (old_mon, new_mon) {
            (Some(a), Some(b)) => if a != b {
                Some(b)
            } else {
                None
            },
            _ => None,
        },
{
    match (old_mon, new_mon) {
        (Some(a), Some(b)) => if a != b {
            Some(b)
        } else {
            None
        },
        _ => None,
    }
}

/// The position reached by cycling by `inc` from `old_idx` among `nclients` (the sum is formed
/// in `i32`, as a cast of `old_idx + nclients`).
pub open spec fn spec_cycle_client_index(old_idx: usize, nclients: usize, inc: i32) -> int {
    (((((old_idx + nclients) as i32) + inc) as usize) % nclients) as int
}

/// The next tiled client when cycling by `inc` from position `old_idx` among `nclients`: the
/// position moves by `inc` and wraps around (the sum is formed in `i32`, as a cast of
/// `old_idx + nclients`).
pub fn cycle_client_index(old_idx: usize, nclients: usize, inc: i32) -> (r: usize)
    requires
        nclients > 0,
        old_idx + nclients <= usize::MAX,
        i32_min() <= ((old_idx + nclients) as i32) + inc <= i32_max(),
    ensures
        r == spec_cycle_client_index(old_idx, nclients, inc),
{
    let sum = (old_idx + nclients) as i32 + inc;
    (sum as usize) % nclients
}

/// A value between one and two times a positive modulus loses the modulus once.
proof fn lemma_mod_once(x: int, n: int)
    requires
        0 < n <= x < 2 * n,
    ensures
        x % n == x - n,
{
    vstd::arithmetic::div_mod::lemma_fundamental_div_mod(x, n);
    vstd::arithmetic::div_mod::lemma_mod_bound(x, n);
    let q = x / n;
    assert(q == 1) by (nonlinear_arith)
        requires
            x == n * q + x % n,
            0 <= x % n < n,
            n <= x < 2 * n,
    ;
}

/// Cycling through the clients of a workspace always gives a position among them, and a step
/// forward followed by a step back returns to the client where it started.
pub proof fn lemma_cycle_client_back_and_forth(old_idx: usize, nclients: usize)
    requires
        0 < nclients,
        old_idx < nclients,
        old_idx + nclients + 1 <= i32_max(),
    ensures
        0 <= spec_cycle_client_index(old_idx, nclients, 1) < nclients,
        spec_cycle_client_index(spec_cycle_client_index(old_idx, nclients, 1) as usize, nclients, -1i32) == old_idx,
{
    let n = nclients as int;
    let fwd = spec_cycle_client_index(old_idx, nclients, 1);
    assert(((old_idx + nclients) as i32) as int == old_idx + n);
    assert((((old_idx + nclients) as i32) + 1i32) as usize as int == old_idx + n + 1);
    if old_idx + 1 < n {
        lemma_mod_once(old_idx + n + 1, n);
    } else {
        vstd::arithmetic::div_mod::lemma_mod_multiples_basic(2, n);
        assert(old_idx + n + 1 == 2 * n);
    }
    if old_idx + 1 < n {
        assert(fwd == old_idx + 1);
        assert(((fwd as usize + nclients) as i32) as int == fwd + n);
        assert((((fwd as usize + nclients) as i32) + (-1i32)) as usize as int == fwd + n - 1);
        lemma_mod_once(fwd + n - 1, n);
    } else {
        assert(fwd == old_idx + 1 - n);
        assert(((fwd as usize + nclients) as i32) as int == fwd + n);
        assert((((fwd as usize + nclients) as i32) + (-1i32)) as usize as int == fwd + n - 1);
        vstd::arithmetic::div_mod::lemma_small_mod((fwd + n - 1) as nat, n as nat);
    }
}

/// The next monitor when cycling by `inc` from monitor `current` among `count` monitors.
pub fn cycle_monitor_index(current: usize, count: usize, inc: i32) -> (r: usize)
    requires
        count > 0,
        i32_min() <= (current as i32) + inc <= i32_max(),
    ensures
        r == (((current as i32) + inc) as usize) % count,
{
    let sum = current as i32 + inc;
    (sum as usize) % count
}

/// The global index of the next workspace of a monitor when cycling by `inc` from its workspace
/// `current` (the monitor has `count` workspaces from global index `offset` on).
pub fn cycle_workspace_index(offset: u32, current: usize, count: u32, inc: i32) -> (r: u32)
    requires
        count > 0,
        i32_min() <= (current as i32) + inc <= i32_max(),
        offset + (((current as i32) + inc) as u32) % count <= u32::MAX,
    ensures
        r == offset + (((current as i32) + inc) as u32) % count,
{
    let sum = current as i32 + inc;
    offset + (sum as u32) % count
}

/// The position of a window dragged by `delta` from `orig_pos`.
pub fn dragged_position(orig_pos: (i32, i32), delta: (i32, i32)) -> (r: (i32, i32))
    requires
        i32_min() <= orig_pos.0 + delta.0 <= i32_max(),
        i32_min() <= orig_pos.1 + delta.1 <= i32_max(),
    ensures
        r == ((orig_pos.0 + delta.0) as i32, (orig_pos.1 + delta.1) as i32),
{
    (orig_pos.0 + delta.0, orig_pos.1 + delta.1)
}

/// A requested extent, but no smaller than the minimal window size.
pub open spec fn at_least_min(v: int) -> u32 {
    if v < crate::client::WINDOW_MIN_SIZE {
        crate::client::WINDOW_MIN_SIZE
    } else {
        v as u32
    }
}

/// The size of a window resized by `delta` from `orig_size` at its bottom right corner (never
/// below the minimal window size).
pub fn dragged_size(orig_size: (u32, u32), delta: (i32, i32)) -> (r: (u32, u32))
    requires
        i32_min() <= (orig_size.0 as i32) + delta.0 <= i32_max(),
        i32_min() <= (orig_size.1 as i32) + delta.1 <= i32_max(),
    ensures
        r == (at_least_min((orig_size.0 as i32) + delta.0), at_least_min(
            (orig_size.1 as i32) + delta.1,
        )),
{
    let w = orig_size.0 as i32 + delta.0;
    let h = orig_size.1 as i32 + delta.1;
    let min = crate::client::WINDOW_MIN_SIZE;
    let dest_w: u32 = if w < min as i32 {
        min
    } else {
        w as u32
    };
    let dest_h: u32 = if h < min as i32 {
        min
    } else {
        h as u32
    };
    (dest_w, dest_h)
}

/// Position and size of a window resized by `delta` around its center: the size changes by
/// twice the delta (never below the minimal window size) and the position moves by the delta
/// the other way.
pub fn resized_centered(orig_pos: (i32, i32), orig_size: (u32, u32), delta: (i32, i32)) -> (r: (
    i32,
    i32,
    u32,
    u32,
))
    requires
        i32_min() <= (orig_size.0 as i32) + 2 * delta.0 <= i32_max(),
        i32_min() <= (orig_size.1 as i32) + 2 * delta.1 <= i32_max(),
        i32_min() <= 2 * delta.0 <= i32_max(),
        i32_min() <= 2 * delta.1 <= i32_max(),
        i32_min() <= orig_pos.0 - delta.0 <= i32_max(),
        i32_min() <= orig_pos.1 - delta.1 <= i32_max(),
    ensures
        r == (
            (orig_pos.0 - delta.0) as i32,
            (orig_pos.1 - delta.1) as i32,
            at_least_min((orig_size.0 as i32) + 2 * delta.0),
            at_least_min((orig_size.1 as i32) + 2 * delta.1),
        ),
{
    let w = orig_size.0 as i32 + 2 * delta.0;
    let h = orig_size.1 as i32 + 2 * delta.1;
    let min = crate::client::WINDOW_MIN_SIZE;
    let dest_w: u32 = if w < min as i32 {
        min
    } else {
        w as u32
    };
    let dest_h: u32 = if h < min as i32 {
        min
    } else {
        h as u32
    };
    (orig_pos.0 - delta.0, orig_pos.1 - delta.1, dest_w, dest_h)
}

/// The first tiled client other than `id` under `point`.
pub open spec fn spec_drop_target(tiled: Seq<(u64, Dimensions)>, id: u64, point: (i32, i32)) -> Option<
    int,
>
    decreases tiled.len(),
{
    if tiled.len() == 0 {
        None
    } else {
        match spec_drop_target(tiled.drop_last(), id, point) {
            Some(i) => Some(i),
            None => if tiled.last().0 != id && tiled.last().1.spec_contains_point(point) {
                Some(tiled.len() - 1)
            } else {
                None
            },
        }
    }
}

/// Facts about the drop target: it is an other client under the point, the first one.
pub proof fn lemma_drop_target(tiled: Seq<(u64, Dimensions)>, id: u64, point: (i32, i32))
    ensures
        spec_drop_target(tiled, id, point) matches Some(i) ==> 0 <= i < tiled.len() && tiled[i].0 != id
            && tiled[i].1.spec_contains_point(point) && forall|j: int|
            0 <= j < i ==> !((#[trigger] tiled[j]).0 != id && tiled[j].1.spec_contains_point(point)),
        spec_drop_target(tiled, id, point) is None ==> forall|j: int|
            0 <= j < tiled.len() ==> !((#[trigger] tiled[j]).0 != id && tiled[j].1.spec_contains_point(point)),
    decreases tiled.len(),
{
    if tiled.len() > 0 {
        let d = tiled.drop_last();
        lemma_drop_target(d, id, point);
        assert forall|j: int| 0 <= j < d.len() implies #[trigger] tiled[j] == d[j] by {}
    }
}

/// An other client under the point, with none before it, is the drop target.
pub proof fn lemma_drop_target_at(tiled: Seq<(u64, Dimensions)>, id: u64, point: (i32, i32), i: int)
    requires
        0 <= i < tiled.len(),
        tiled[i].0 != id && tiled[i].1.spec_contains_point(point),
        forall|j: int| 0 <= j < i ==> !((#[trigger] tiled[j]).0 != id && tiled[j].1.spec_contains_point(point)),
    ensures
        spec_drop_target(tiled, id, point) == Some(i),
    decreases tiled.len(),
{
    let d = tiled.drop_last();
    if i < tiled.len() - 1 {
        assert forall|j: int| 0 <= j <= i implies #[trigger] d[j] == tiled[j] by {}
        lemma_drop_target_at(d, id, point, i);
    } else {
        lemma_drop_target(d, id, point);
        if let Some(j) = spec_drop_target(d, id, point) {
            assert(d[j] == tiled[j]);
        }
    }
}

/// Where a client that the mouse placed over the tiled clients (identifier and dimensions, in
/// the user's order) drops: the position of the first other tiled client under its center.
pub fn drop_target(tiled: &Vec<(u64, Dimensions)>, id: u64, center: (i32, i32)) -> (r: Option<usize>)
    requires
        forall|i: int| 0 <= i < tiled@.len() ==> dims_fit((#[trigger] tiled@[i]).1),
    ensures
        r matches Some(i) ==> spec_drop_target(tiled@, id, center) == Some(i as int),
        r is None ==> spec_drop_target(tiled@, id, center) is None,
{
    let mut i: usize = 0;
    while i < tiled.len()
        invariant
            i <= tiled@.len(),
            forall|k: int| 0 <= k < tiled@.len() ==> dims_fit((#[trigger] tiled@[k]).1),
            spec_drop_target(tiled@.take(i as int), id, center) is None,
        decreases tiled@.len() - i,
    {
        assert(tiled@.take(i + 1).drop_last() =~= tiled@.take(i as int));
        let (other, dims) = tiled[i];
        if other != id && dims.contains_point(center) {
            proof {
                lemma_drop_target(tiled@.take(i as int), id, center);
                assert forall|j: int| 0 <= j < i implies !((#[trigger] tiled@[j]).0 != id && tiled@[j].1.spec_contains_point(center)) by {
                    assert(tiled@.take(i as int)[j] == tiled@[j]);
                }
                lemma_drop_target_at(tiled@, id, center, i as int);
            }
            return Some(i);
        }
        i += 1;
    }
    assert(tiled@.take(tiled@.len() as int) =~= tiled@);
    None
}

/// A top-level window found when the window manager starts: whether it is mapped and viewable,
/// and whether it is transient for another window.
#[derive(Clone, Copy, PartialEq, Eq, Structural, Debug)]
pub struct ExistingWindow {
    pub window: u64,
    pub viewable: bool,
    pub transient: bool,
}

/// The viewable windows of `ws` that are transient (or not, by `transient`), in their order.
pub open spec fn viewable_windows(ws: Seq<ExistingWindow>, transient: bool) -> Seq<u64>
    decreases ws.len(),
{
    if ws.len() == 0 {
        Seq::empty()
    } else {
        let rest = viewable_windows(ws.drop_last(), transient);
        let w = ws.last();
        if w.viewable && w.transient == transient {
            rest.push(w.window)
        } else {
            rest
        }
    }
}

/// The order in which the windows found at start-up are taken under management: first the
/// viewable windows that are transient for no other window, then the viewable transient ones,
/// each in the order in which they were found. Windows that are not viewable are left alone.
pub fn existing_windows_order(windows: &Vec<ExistingWindow>) -> (r: Vec<u64>)
    ensures
        r@ == viewable_windows(windows@, false) + viewable_windows(windows@, true),
{
    let mut r: Vec<u64> = Vec::new();
    let mut pass: u8 = 0;
    while pass < 2
        invariant
            pass <= 2,
            pass == 1 ==> r@ == viewable_windows(windows@, false),
            pass == 2 ==> r@ == viewable_windows(windows@, false) + viewable_windows(windows@, true),
            pass == 0 ==> r@.len() == 0,
        decreases 2 - pass,
    {
        let transient = pass == 1;
        let ghost start = r@;
        let mut i: usize = 0;
        while i < windows.len()
            invariant
                i <= windows@.len(),
                r@ == start + viewable_windows(windows@.take(i as int), transient),
            decreases windows@.len() - i,
        {
            assert(windows@.take(i + 1).drop_last() =~= windows@.take(i as int));
            let w = windows[i];
            if w.viewable && w.transient == transient {
                r.push(w.window);
            }
            i += 1;
            assert(r@ =~= start + viewable_windows(windows@.take(i as int), transient));
        }
        assert(windows@.take(windows@.len() as int) =~= windows@);
        proof {
            if pass == 0 {
                assert(start =~= Seq::<u64>::empty());
                assert(r@ =~= viewable_windows(windows@, false));
            }
        }
        pass += 1;
    }
    r
}

/// The values of the work area property for workspaces with the given work areas: four values
/// per workspace, `x`, `y`, width and height, the coordinates in two's complement.
pub fn workarea_values(areas: &Vec<Dimensions>) -> (r: Vec<u32>)
    requires
        areas@.len() * 4 <= usize::MAX,
    ensures
        r@.len() == areas@.len() * 4,
        forall|i: int| #![trigger areas@[i]] 0 <= i < areas@.len() ==> {
            &&& r@[4 * i] == areas@[i].x as u32
            &&& r@[4 * i + 1] == areas@[i].y as u32
            &&& r@[4 * i + 2] == areas@[i].w
            &&& r@[4 * i + 3] == areas@[i].h
        },
{
    let mut r: Vec<u32> = Vec::new();
    let mut i: usize = 0;
    while i < areas.len()
        invariant
            i <= areas@.len(),
            areas@.len() * 4 <= usize::MAX,
            r@.len() == i * 4,
            forall|k: int| #![trigger areas@[k]] 0 <= k < i ==> {
                &&& r@[4 * k] == areas@[k].x as u32
                &&& r@[4 * k + 1] == areas@[k].y as u32
                &&& r@[4 * k + 2] == areas@[k].w
                &&& r@[4 * k + 3] == areas@[k].h
            },
        decreases areas@.len() - i,
    {
        let a = areas[i];
        r.push(a.x as u32);
        r.push(a.y as u32);
        r.push(a.w);
        r.push(a.h);
        i += 1;
    }
    r
}

} // verus!
