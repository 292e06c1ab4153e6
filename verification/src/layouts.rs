//! Tiling layouts: where the tiled windows of a workspace go.
//!
//! The size of the main area along the split axis (`main_width` for layouts that put the stack
//! beside the main windows, `main_height` for layouts that put it below) is handed in by the
//! caller, who derives it from the configured main ratio.
use vstd::prelude::*;

use crate::geometry::Dimensions;

verus! {

/// The arrangement of the tiled windows of a workspace.
#[derive(Clone, Copy, Debug, PartialEq, Eq, Structural)]
pub enum LayoutType {
    /// windows are not tiled
    Floating,
    /// main windows on the left, the others tiled vertically to the right
    Stack,
    /// main windows at the top, the others tiled horizontally below
    BottomStack,
    /// every window fills the whole area
    Monocle,
    /// main windows on the left, the others on top of each other to the right
    Deck,
}

/// Number of layouts.
pub const LAYOUT_COUNT: usize = 5;

/// Where the stack windows go relative to the main windows.
#[derive(Clone, Copy, Debug, PartialEq, Eq, Structural)]
pub enum StackPosition {
    Top,
    Right,
    Bottom,
    Left,
}

/// How the stack windows share the stack area.
#[derive(Clone, Copy, Debug, PartialEq, Eq, Structural)]
pub enum StackMode {
    Split,
    Deck,
}

/// The parameters of the tiling layouts of a workspace.
#[derive(Clone, Copy, Debug, PartialEq, Eq, Structural)]
pub struct LayoutConfiguration {
    /// default layout for each workspace
    pub default: LayoutType,
    /// width of the gap between windows in a tiled layout
    pub gap_width: u32,
    /// number of windows in the main area
    pub nmain: u32,
    /// position of the stack relative to the main windows
    pub stack_position: StackPosition,
    /// mode of laying out the windows in the stack area
    pub stack_mode: StackMode,
}

impl Default for LayoutConfiguration {
    /// The default parameters: floating layout, gaps of 4 pixels, one main window, stack on the
    /// right, split stack.
    fn default() -> (c: LayoutConfiguration)
        ensures
            c == (LayoutConfiguration {
                default: LayoutType::Floating,
                gap_width: 4,
                nmain: 1,
                stack_position: StackPosition::Right,
                stack_mode: StackMode::Split,
            }),
    {
        LayoutConfiguration {
            default: LayoutType::Floating,
            gap_width: 4,
            nmain: 1,
            stack_position: StackPosition::Right,
            stack_mode: StackMode::Split,
        }
    }
}

impl LayoutType {
    /// Position of the layout in the list of all layouts.
    pub open spec fn spec_index(self) -> int {
        match self {
            LayoutType::Floating => 0,
            LayoutType::Stack => 1,
            LayoutType::BottomStack => 2,
            LayoutType::Monocle => 3,
            LayoutType::Deck => 4,
        }
    }

    /// The layout at position `i` (modulo the number of layouts) of the list of all layouts.
    pub open spec fn spec_at(i: int) -> LayoutType {
        let j = i % (LAYOUT_COUNT as int);
        if j == 0 {
            LayoutType::Floating
        } else if j == 1 {
            LayoutType::Stack
        } else if j == 2 {
            LayoutType::BottomStack
        } else if j == 3 {
            LayoutType::Monocle
        } else {
            LayoutType::Deck
        }
    }

    /// All layouts, in the order in which they are cycled through.
    pub fn values() -> (v: Vec<LayoutType>)
        ensures
            v@.len() == LAYOUT_COUNT,
            forall|i: int| 0 <= i < LAYOUT_COUNT ==> #[trigger] v@[i] == LayoutType::spec_at(i),
    {
        let v = vec![
            LayoutType::Floating,
            LayoutType::Stack,
            LayoutType::BottomStack,
            LayoutType::Monocle,
            LayoutType::Deck,
        ];
        v
    }

    /// The layout that follows this one when cycling through all layouts.
    pub fn next(self) -> (l: LayoutType)
        ensures
            l == LayoutType::spec_at(self.spec_index() + 1),
    {
        match self {
            LayoutType::Floating => LayoutType::Stack,
            LayoutType::Stack => LayoutType::BottomStack,
            LayoutType::BottomStack => LayoutType::Monocle,
            LayoutType::Monocle => LayoutType::Deck,
            LayoutType::Deck => LayoutType::Floating,
        }
    }
}

/// Cycling through the layouts visits every layout once and comes back to the start after
/// [LAYOUT_COUNT] steps.
pub proof fn lemma_cycle_layout(l: LayoutType, k: int)
    requires
        0 <= k,
    ensures
        LayoutType::spec_at(l.spec_index() + k) == LayoutType::spec_at(l.spec_index() + k
            + LAYOUT_COUNT),
        LayoutType::spec_at(l.spec_index() + LAYOUT_COUNT) == l,
{
    assert((l.spec_index() + k + 5) % 5 == (l.spec_index() + k) % 5);
    assert((l.spec_index() + 5) % 5 == l.spec_index());
}

/// The empty rectangle at the origin.
pub open spec fn empty_area() -> Dimensions {
    Dimensions { x: 0, y: 0, w: 0, h: 0 }
}

/// The area shrunk by a gap on every side.
pub open spec fn inset_area(area: Dimensions, gap: u32) -> Dimensions {
    Dimensions {
        x: (area.x + gap) as i32,
        y: (area.y + gap) as i32,
        w: (area.w - 2 * gap) as u32,
        h: (area.h - 2 * gap) as u32,
    }
}

/// The rectangle fits into `i32` coordinates: its right and bottom edges can be computed.
pub open spec fn area_fits(area: Dimensions) -> bool {
    area.right_fits() && area.bottom_fits()
}

/// The main area and the stack area when the stack goes to the right of the main windows.
pub open spec fn spec_split_horizontal(
    win_area: Dimensions,
    main_width: u32,
    gap: u32,
    nmain: u32,
    nclients: u32,
) -> (Dimensions, Dimensions) {
    if nmain == 0 {
        (empty_area(), inset_area(win_area, gap))
    } else if nclients <= nmain {
        (inset_area(win_area, gap), empty_area())
    } else {
        (
            Dimensions {
                x: (win_area.x + gap) as i32,
                y: (win_area.y + gap) as i32,
                w: (main_width - 2 * gap) as u32,
                h: (win_area.h - 2 * gap) as u32,
            },
            Dimensions {
                x: (win_area.x + main_width) as i32,
                y: (win_area.y + gap) as i32,
                w: (win_area.w - main_width - gap) as u32,
                h: (win_area.h - 2 * gap) as u32,
            },
        )
    }
}

/// The main area and the stack area when the stack goes below the main windows.
pub open spec fn spec_split_vertical(
    win_area: Dimensions,
    main_height: u32,
    gap: u32,
    nmain: u32,
    nclients: u32,
) -> (Dimensions, Dimensions) {
    if nmain == 0 {
        (empty_area(), inset_area(win_area, gap))
    } else if nclients <= nmain {
        (inset_area(win_area, gap), empty_area())
    } else {
        (
            Dimensions {
                x: (win_area.x + gap) as i32,
                y: (win_area.y + gap) as i32,
                w: (win_area.w - 2 * gap) as u32,
                h: (main_height - 2 * gap) as u32,
            },
            Dimensions {
                x: (win_area.x + gap) as i32,
                y: (win_area.y + main_height) as i32,
                w: (win_area.w - 2 * gap) as u32,
                h: (win_area.h - main_height - gap) as u32,
            },
        )
    }
}

/// The split beside the main windows leaves no negative sizes.
pub open spec fn split_horizontal_fits(
    win_area: Dimensions,
    main_width: u32,
    gap: u32,
    nmain: u32,
    nclients: u32,
) -> bool {
    &&& area_fits(win_area)
    &&& 2 * gap <= win_area.w
    &&& 2 * gap <= win_area.h
    &&& (nmain != 0 && nclients > nmain) ==> (2 * gap <= main_width && main_width + gap
        <= win_area.w)
}

/// The split below the main windows leaves no negative sizes.
pub open spec fn split_vertical_fits(
    win_area: Dimensions,
    main_height: u32,
    gap: u32,
    nmain: u32,
    nclients: u32,
) -> bool {
    &&& area_fits(win_area)
    &&& 2 * gap <= win_area.w
    &&& 2 * gap <= win_area.h
    &&& (nmain != 0 && nclients > nmain) ==> (2 * gap <= main_height && main_height + gap
        <= win_area.h)
}

/// The length of each of `n` tiles along an extent, with gaps between them.
pub open spec fn tile_len(extent: u32, n: int, gap: u32) -> int {
    (extent - (n - 1) * gap) / n
}

/// Tile `i` of `n` tiles stacked from top to bottom.
pub open spec fn spec_vertical_tile(area: Dimensions, n: int, gap: u32, i: int) -> Dimensions {
    Dimensions {
        x: area.x,
        y: (area.y + i * (tile_len(area.h, n, gap) + gap)) as i32,
        w: area.w,
        h: tile_len(area.h, n, gap) as u32,
    }
}

/// Tile `i` of `n` tiles placed from left to right.
pub open spec fn spec_horizontal_tile(area: Dimensions, n: int, gap: u32, i: int) -> Dimensions {
    Dimensions {
        x: (area.x + i * (tile_len(area.w, n, gap) + gap)) as i32,
        y: area.y,
        w: tile_len(area.w, n, gap) as u32,
        h: area.h,
    }
}

/// `n` tiles with gaps fit into the extent of an area, without leaving the `i32` range.
pub open spec fn tiles_fit(area: Dimensions, n: int, gap: u32, vertical: bool) -> bool {
    let extent = if vertical {
        area.h
    } else {
        area.w
    };
    n == 0 || {
        &&& 0 < n <= u32::MAX
        &&& (n - 1) * gap <= extent
        &&& tile_len(extent, n, gap) + gap <= u32::MAX
        &&& if vertical {
            area.bottom_fits()
        } else {
            area.right_fits()
        }
    }
}

/// The number of windows that go into the main area.
pub open spec fn main_count(nmain: u32, nclients: int) -> int {
    if nclients < nmain {
        nclients
    } else {
        nmain as int
    }
}

/// Where the `i`-th of the tiled windows goes; `None` leaves it where it is (floating layout,
/// fullscreen windows).
pub open spec fn spec_placement(
    layout: LayoutType,
    win_area: Dimensions,
    fullscreen: Seq<bool>,
    config: LayoutConfiguration,
    main_width: u32,
    main_height: u32,
    i: int,
) -> Option<Dimensions> {
    let n = fullscreen.len() as int;
    let gap = config.gap_width;
    let nmain = config.nmain;
    let nm = main_count(nmain, n);
    if fullscreen[i] {
        None
    } else {
        match layout {
            LayoutType::Floating => None,
            LayoutType::Monocle => Some(win_area),
            LayoutType::Stack => {
                let (m, s) = spec_split_horizontal(win_area, main_width, gap, nmain, n as u32);
                if i < nm {
                    Some(spec_vertical_tile(m, nm, gap, i))
                } else {
                    Some(spec_vertical_tile(s, n - nm, gap, i - nm))
                }
            },
            LayoutType::BottomStack => {
                let (m, s) = spec_split_vertical(win_area, main_height, gap, nmain, n as u32);
                if i < nm {
                    Some(spec_horizontal_tile(m, nm, gap, i))
                } else {
                    Some(spec_horizontal_tile(s, n - nm, gap, i - nm))
                }
            },
            LayoutType::Deck => {
                let (m, s) = spec_split_horizontal(win_area, main_width, gap, nmain, n as u32);
                if i < nm {
                    Some(spec_vertical_tile(m, nm, gap, i))
                } else {
                    Some(s)
                }
            },
        }
    }
}

/// The layout can be computed for `n` tiled windows: all sizes stay non-negative and all
/// coordinates stay in range.
pub open spec fn layout_fits(
    layout: LayoutType,
    win_area: Dimensions,
    n: int,
    config: LayoutConfiguration,
    main_width: u32,
    main_height: u32,
) -> bool {
    let gap = config.gap_width;
    let nmain = config.nmain;
    let nm = main_count(nmain, n);
    &&& 0 <= n <= u32::MAX
    &&& match layout {
        LayoutType::Floating => true,
        LayoutType::Monocle => true,
        LayoutType::Stack => {
            let (m, s) = spec_split_horizontal(win_area, main_width, gap, nmain, n as u32);
            &&& split_horizontal_fits(win_area, main_width, gap, nmain, n as u32)
            &&& tiles_fit(m, nm, gap, true)
            &&& tiles_fit(s, n - nm, gap, true)
        },
        LayoutType::BottomStack => {
            let (m, s) = spec_split_vertical(win_area, main_height, gap, nmain, n as u32);
            &&& split_vertical_fits(win_area, main_height, gap, nmain, n as u32)
            &&& tiles_fit(m, nm, gap, false)
            &&& tiles_fit(s, n - nm, gap, false)
        },
        LayoutType::Deck => {
            let (m, s) = spec_split_horizontal(win_area, main_width, gap, nmain, n as u32);
            &&& split_horizontal_fits(win_area, main_width, gap, nmain, n as u32)
            &&& tiles_fit(m, nm, gap, true)
        },
    }
}

/// Whether the rectangle fits into `i32` coordinates.
fn area_fits_check(area: Dimensions) -> (b: bool)
    ensures
        b == area_fits(area),
{
    area.w <= 0x7fff_ffff && area.h <= 0x7fff_ffff && area.x as i64 + area.w as i64 <= 0x7fff_ffff
        && area.y as i64 + area.h as i64 <= 0x7fff_ffff
}

/// Whether the split beside the main windows leaves no negative sizes.
fn split_horizontal_fits_check(win_area: Dimensions, main_width: u32, gap: u32, nmain: u32, nclients: u32) -> (b:
    bool)
    ensures
        b == split_horizontal_fits(win_area, main_width, gap, nmain, nclients),
{
    area_fits_check(win_area) && 2 * (gap as u64) <= win_area.w as u64 && 2 * (gap as u64) <= win_area.h as u64
        && (!(nmain != 0 && nclients > nmain) || (2 * (gap as u64) <= main_width as u64 && main_width as u64
        + gap as u64 <= win_area.w as u64))
}

/// Whether the split below the main windows leaves no negative sizes.
fn split_vertical_fits_check(win_area: Dimensions, main_height: u32, gap: u32, nmain: u32, nclients: u32) -> (b:
    bool)
    ensures
        b == split_vertical_fits(win_area, main_height, gap, nmain, nclients),
{
    area_fits_check(win_area) && 2 * (gap as u64) <= win_area.w as u64 && 2 * (gap as u64) <= win_area.h as u64
        && (!(nmain != 0 && nclients > nmain) || (2 * (gap as u64) <= main_height as u64 && main_height as u64
        + gap as u64 <= win_area.h as u64))
}

/// Whether `n` tiles with gaps fit into the extent of an area.
fn tiles_fit_check(area: Dimensions, n: u32, gap: u32, vertical: bool) -> (b: bool)
    ensures
        b == tiles_fit(area, n as int, gap, vertical),
{
    if n == 0 {
        return true;
    }
    let extent: u32 = if vertical {
        area.h
    } else {
        area.w
    };
    proof {
        assert((n - 1) * gap <= 0xffff_ffff * 0xffff_ffffu64) by (nonlinear_arith)
            requires
                0 <= n - 1 <= 0xffff_ffff,
                0 <= gap <= 0xffff_ffff,
        ;
    }
    let gaps: u64 = (n as u64 - 1) * gap as u64;
    if gaps > extent as u64 {
        return false;
    }
    let len: u64 = (extent as u64 - gaps) / n as u64;
    let edge_fits = if vertical {
        area.h <= 0x7fff_ffff && area.y as i64 + area.h as i64 <= 0x7fff_ffff
    } else {
        area.w <= 0x7fff_ffff && area.x as i64 + area.w as i64 <= 0x7fff_ffff
    };
    len + gap as u64 <= 0xffff_ffff && edge_fits
}

/// Whether the layout can be computed for `n` tiled windows (see [layout_fits]).
pub fn layout_fits_check(
    layout: LayoutType,
    win_area: Dimensions,
    n: usize,
    config: &LayoutConfiguration,
    main_width: u32,
    main_height: u32,
) -> (b: bool)
    ensures
        b == layout_fits(layout, win_area, n as int, *config, main_width, main_height),
{
    if n > 0xffff_ffff {
        return false;
    }
    let k = n as u32;
    let gap = config.gap_width;
    let nmain = config.nmain;
    let nm = if k < nmain {
        k
    } else {
        nmain
    };
    match layout {
        LayoutType::Floating | LayoutType::Monocle => true,
        LayoutType::Stack | LayoutType::Deck => {
            if !split_horizontal_fits_check(win_area, main_width, gap, nmain, k) {
                return false;
            }
            let (m, s) = layout_dimensions_horizontal(win_area, main_width, gap, nmain, k);
            let main_ok = tiles_fit_check(m, nm, gap, true);
            match layout {
                LayoutType::Stack => main_ok && tiles_fit_check(s, k - nm, gap, true),
                _ => main_ok,
            }
        },
        LayoutType::BottomStack => {
            if !split_vertical_fits_check(win_area, main_height, gap, nmain, k) {
                return false;
            }
            let (m, s) = layout_dimensions_vertical(win_area, main_height, gap, nmain, k);
            tiles_fit_check(m, nm, gap, false) && tiles_fit_check(s, k - nm, gap, false)
        },
    }
}

/// The main area and the stack area when the stack goes to the right of the main windows.
pub fn layout_dimensions_horizontal(
    win_area: Dimensions,
    main_width: u32,
    gap_width: u32,
    nmain: u32,
    nclients: u32,
) -> (r: (Dimensions, Dimensions))
    requires
        split_horizontal_fits(win_area, main_width, gap_width, nmain, nclients),
    ensures
        r == spec_split_horizontal(win_area, main_width, gap_width, nmain, nclients),
{
    if nmain == 0 {
        let main_area = Dimensions::new(0, 0, 0, 0);
        let stack_x = win_area.x + gap_width as i32;
        let stack_y = win_area.y + gap_width as i32;
        let stack_w = win_area.w - 2 * gap_width;
        let stack_h = win_area.h - 2 * gap_width;
        (main_area, Dimensions::new(stack_x, stack_y, stack_w, stack_h))
    } else if nclients <= nmain {
        let stack_area = Dimensions::new(0, 0, 0, 0);
        let main_x = win_area.x + gap_width as i32;
        let main_y = win_area.y + gap_width as i32;
        let main_w = win_area.w - 2 * gap_width;
        let main_h = win_area.h - 2 * gap_width;
        (Dimensions::new(main_x, main_y, main_w, main_h), stack_area)
    } else {
        let main_x = win_area.x + gap_width as i32;
        let main_y = win_area.y + gap_width as i32;
        let main_w = main_width - 2 * gap_width;
        let main_h = win_area.h - 2 * gap_width;
        let stack_x = win_area.x + main_width as i32;
        let stack_y = win_area.y + gap_width as i32;
        let stack_w = win_area.w - main_width - gap_width;
        let stack_h = win_area.h - 2 * gap_width;
        (Dimensions::new(main_x, main_y, main_w, main_h), Dimensions::new(stack_x, stack_y, stack_w, stack_h))
    }
}

/// The main area and the stack area when the stack goes below the main windows.
pub fn layout_dimensions_vertical(
    win_area: Dimensions,
    main_height: u32,
    gap_width: u32,
    nmain: u32,
    nclients: u32,
) -> (r: (Dimensions, Dimensions))
    requires
        split_vertical_fits(win_area, main_height, gap_width, nmain, nclients),
    ensures
        r == spec_split_vertical(win_area, main_height, gap_width, nmain, nclients),
{
    if nmain == 0 {
        let main_area = Dimensions::new(0, 0, 0, 0);
        let stack_x = win_area.x + gap_width as i32;
        let stack_y = win_area.y + gap_width as i32;
        let stack_w = win_area.w - 2 * gap_width;
        let stack_h = win_area.h - 2 * gap_width;
        (main_area, Dimensions::new(stack_x, stack_y, stack_w, stack_h))
    } else if nclients <= nmain {
        let stack_area = Dimensions::new(0, 0, 0, 0);
        let main_x = win_area.x + gap_width as i32;
        let main_y = win_area.y + gap_width as i32;
        let main_w = win_area.w - 2 * gap_width;
        let main_h = win_area.h - 2 * gap_width;
        (Dimensions::new(main_x, main_y, main_w, main_h), stack_area)
    } else {
        let main_x = win_area.x + gap_width as i32;
        let main_y = win_area.y + gap_width as i32;
        let main_w = win_area.w - 2 * gap_width;
        let main_h = main_height - 2 * gap_width;
        let stack_x = win_area.x + gap_width as i32;
        let stack_y = win_area.y + main_height as i32;
        let stack_w = win_area.w - 2 * gap_width;
        let stack_h = win_area.h - main_height - gap_width;
        (Dimensions::new(main_x, main_y, main_w, main_h), Dimensions::new(stack_x, stack_y, stack_w, stack_h))
    }
}

/// The tiles of an extent: each tile is no longer than the extent, and the offset of every tile
/// (its index times tile length plus gap) leaves room for the tile itself.
pub proof fn lemma_tile_offset(extent: int, n: int, gap: int, i: int)
    requires
        0 < n,
        0 <= gap,
        (n - 1) * gap <= extent,
        0 <= i < n,
    ensures
        0 <= (extent - (n - 1) * gap) / n <= extent,
        0 <= i * ((extent - (n - 1) * gap) / n + gap),
        i * ((extent - (n - 1) * gap) / n + gap) + (extent - (n - 1) * gap) / n <= extent,
{
    let e = extent - (n - 1) * gap;
    let t = e / n;
    vstd::arithmetic::div_mod::lemma_fundamental_div_mod(e, n);
    assert(0 <= e % n < n) by {
        vstd::arithmetic::div_mod::lemma_mod_bound(e, n);
    }
    assert(n * t <= e);
    assert(0 <= t) by {
        vstd::arithmetic::div_mod::lemma_div_pos_is_pos(e, n);
    }
    assert(t <= e) by (nonlinear_arith)
        requires
            n * t <= e,
            0 <= t,
            0 < n,
    ;
    assert(0 <= i * (t + gap)) by (nonlinear_arith)
        requires
            0 <= i,
            0 <= t,
            0 <= gap,
    ;
    assert(i * (t + gap) + t <= extent) by (nonlinear_arith)
        requires
            n * t <= e,
            e == extent - (n - 1) * gap,
            0 <= t,
            0 <= gap,
            0 <= i < n,
    ;
}

/// The rectangle `d` lies within the rectangle `a`.
pub open spec fn inside(d: Dimensions, a: Dimensions) -> bool {
    &&& a.x <= d.x
    &&& d.spec_right() <= a.spec_right()
    &&& a.y <= d.y
    &&& d.spec_bottom() <= a.spec_bottom()
}

/// Tiles stacked from top to bottom lie within their area, each one a gap below the one before.
pub proof fn lemma_vertical_tiles(area: Dimensions, n: int, gap: u32, i: int)
    requires
        tiles_fit(area, n, gap, true),
        0 <= i < n,
    ensures
        inside(spec_vertical_tile(area, n, gap, i), area),
        spec_vertical_tile(area, n, gap, i).w == area.w,
        i + 1 < n ==> spec_vertical_tile(area, n, gap, i + 1).y == spec_vertical_tile(area, n, gap, i).spec_bottom()
            + gap,
{
    lemma_tile_offset(area.h as int, n, gap as int, i);
    if i + 1 < n {
        lemma_tile_offset(area.h as int, n, gap as int, i + 1);
        let t = tile_len(area.h, n, gap);
        assert((i + 1) * (t + gap) == i * (t + gap) + t + gap) by (nonlinear_arith);
    }
}

/// Tiles placed from left to right lie within their area, each one a gap right of the one
/// before.
pub proof fn lemma_horizontal_tiles(area: Dimensions, n: int, gap: u32, i: int)
    requires
        tiles_fit(area, n, gap, false),
        0 <= i < n,
    ensures
        inside(spec_horizontal_tile(area, n, gap, i), area),
        spec_horizontal_tile(area, n, gap, i).h == area.h,
        i + 1 < n ==> spec_horizontal_tile(area, n, gap, i + 1).x == spec_horizontal_tile(area, n, gap, i).spec_right()
            + gap,
{
    lemma_tile_offset(area.w as int, n, gap as int, i);
    if i + 1 < n {
        lemma_tile_offset(area.w as int, n, gap as int, i + 1);
        let t = tile_len(area.w, n, gap);
        assert((i + 1) * (t + gap) == i * (t + gap) + t + gap) by (nonlinear_arith);
    }
}

/// Cutting an extent into `n` tiles with gaps between them: the tiles together with the gaps
/// take as much of the extent as equal whole-pixel tiles can, leaving less than one pixel per
/// tile over.
proof fn lemma_tile_len_fills(extent: u32, n: int, gap: u32)
    requires
        0 < n,
        (n - 1) * gap <= extent,
    ensures
        n * tile_len(extent, n, gap) + (n - 1) * gap <= extent,
        extent < n * (tile_len(extent, n, gap) + 1) + (n - 1) * gap,
{
    let e = extent - (n - 1) * gap;
    vstd::arithmetic::div_mod::lemma_fundamental_div_mod(e, n);
    vstd::arithmetic::div_mod::lemma_mod_bound(e, n);
    assert(n * (e / n + 1) == n * (e / n) + n) by (nonlinear_arith);
}

/// Tiles stacked from top to bottom: every tile spans the area's width and has the same height,
/// the first one starts at the top of the area, and the `n` tiles with their gaps fill the
/// area's height up to less than one pixel per tile.
pub proof fn law_vertical_tiles_fill(area: Dimensions, n: int, gap: u32, i: int)
    requires
        tiles_fit(area, n, gap, true),
        0 <= i < n,
    ensures
        ({
            let t = spec_vertical_tile(area, n, gap, i);
            let first = spec_vertical_tile(area, n, gap, 0);
            &&& t.x == area.x && t.w == area.w && t.h == first.h
            &&& first.y == area.y
            &&& n * t.h + (n - 1) * gap <= area.h < n * (t.h + 1) + (n - 1) * gap
        }),
{
    lemma_tile_offset(area.h as int, n, gap as int, i);
    lemma_tile_offset(area.h as int, n, gap as int, 0);
    lemma_tile_len_fills(area.h, n, gap);
}

/// Tiles placed from left to right: every tile spans the area's height and has the same width,
/// the first one starts at the left of the area, and the `n` tiles with their gaps fill the
/// area's width up to less than one pixel per tile.
pub proof fn law_horizontal_tiles_fill(area: Dimensions, n: int, gap: u32, i: int)
    requires
        tiles_fit(area, n, gap, false),
        0 <= i < n,
    ensures
        ({
            let t = spec_horizontal_tile(area, n, gap, i);
            let first = spec_horizontal_tile(area, n, gap, 0);
            &&& t.y == area.y && t.h == area.h && t.w == first.w
            &&& first.x == area.x
            &&& n * t.w + (n - 1) * gap <= area.w < n * (t.w + 1) + (n - 1) * gap
        }),
{
    lemma_tile_offset(area.w as int, n, gap as int, i);
    lemma_tile_offset(area.w as int, n, gap as int, 0);
    lemma_tile_len_fills(area.w, n, gap);
}

/// In the stack, bottom stack and deck layouts every window that is placed lies within the
/// window area shrunk by the gap on every side; in the monocle layout it covers the window area.
pub proof fn lemma_placement_within_gaps(
    layout: LayoutType,
    win_area: Dimensions,
    fullscreen: Seq<bool>,
    config: LayoutConfiguration,
    main_width: u32,
    main_height: u32,
    i: int,
)
    requires
        layout_fits(layout, win_area, fullscreen.len() as int, config, main_width, main_height),
        0 <= i < fullscreen.len(),
    ensures
        spec_placement(layout, win_area, fullscreen, config, main_width, main_height, i) matches Some(d) ==> if layout
            == LayoutType::Monocle {
            d == win_area
        } else {
            inside(d, inset_area(win_area, config.gap_width))
        },
{
    let n = fullscreen.len() as int;
    let gap = config.gap_width;
    let nmain = config.nmain;
    let nm = main_count(nmain, n);
    let inset = inset_area(win_area, gap);
    match layout {
        LayoutType::Stack | LayoutType::Deck => {
            let (m, s) = spec_split_horizontal(win_area, main_width, gap, nmain, n as u32);
            assert(inside(m, inset) || m == empty_area());
            assert(inside(s, inset) || s == empty_area());
            if i < nm {
                lemma_vertical_tiles(m, nm, gap, i);
            } else if layout == LayoutType::Stack {
                lemma_vertical_tiles(s, n - nm, gap, i - nm);
            }
        },
        LayoutType::BottomStack => {
            let (m, s) = spec_split_vertical(win_area, main_height, gap, nmain, n as u32);
            assert(inside(m, inset) || m == empty_area());
            assert(inside(s, inset) || s == empty_area());
            if i < nm {
                lemma_horizontal_tiles(m, nm, gap, i);
            } else {
                lemma_horizontal_tiles(s, n - nm, gap, i - nm);
            }
        },
        _ => {},
    }
}

/// Where the stack goes in the tiling layouts: in the stack and deck layouts the stack windows
/// begin a gap to the right of the main windows, in the bottom stack layout a gap below them;
/// in the deck layout all stack windows lie on top of each other in one rectangle.
pub proof fn lemma_stack_beside_main(
    layout: LayoutType,
    win_area: Dimensions,
    fullscreen: Seq<bool>,
    config: LayoutConfiguration,
    main_width: u32,
    main_height: u32,
    i: int,
    j: int,
    k: int,
)
    requires
        layout_fits(layout, win_area, fullscreen.len() as int, config, main_width, main_height),
        0 <= i < main_count(config.nmain, fullscreen.len() as int) <= j < fullscreen.len(),
        main_count(config.nmain, fullscreen.len() as int) <= k < fullscreen.len(),
        !fullscreen[i],
        !fullscreen[j],
        !fullscreen[k],
    ensures
        ({
            let main = spec_placement(layout, win_area, fullscreen, config, main_width, main_height, i);
            let stack = spec_placement(layout, win_area, fullscreen, config, main_width, main_height, j);
            let other = spec_placement(layout, win_area, fullscreen, config, main_width, main_height, k);
            &&& (layout == LayoutType::Stack || layout == LayoutType::Deck) ==> main.unwrap().spec_right()
                + config.gap_width == stack.unwrap().x
            &&& layout == LayoutType::BottomStack ==> main.unwrap().spec_bottom() + config.gap_width
                == stack.unwrap().y
            &&& layout == LayoutType::Deck ==> stack == other
        }),
{
    let n = fullscreen.len() as int;
    let gap = config.gap_width;
    let nm = main_count(config.nmain, n);
    match layout {
        LayoutType::Stack | LayoutType::Deck => {
            let (m, s) = spec_split_horizontal(win_area, main_width, gap, config.nmain, n as u32);
            lemma_vertical_tiles(m, nm, gap, i);
            if layout == LayoutType::Stack {
                lemma_vertical_tiles(s, n - nm, gap, j - nm);
            }
        },
        LayoutType::BottomStack => {
            let (m, s) = spec_split_vertical(win_area, main_height, gap, config.nmain, n as u32);
            lemma_horizontal_tiles(m, nm, gap, i);
            lemma_horizontal_tiles(s, n - nm, gap, j - nm);
        },
        _ => {},
    }
}

/// The split below the main windows (bottom stack): without main windows the stack takes the
/// window area less the gap on every side; when every window fits into the main area the main
/// area takes it; otherwise the main area is `main_height` high less the gaps, and the stack lies
/// a gap below it, as wide as it, reaching down to a gap above the bottom of the window area.
pub proof fn law_split_vertical(win_area: Dimensions, main_height: u32, gap: u32, nmain: u32, nclients: u32)
    requires
        split_vertical_fits(win_area, main_height, gap, nmain, nclients),
    ensures
        ({
            let (m, s) = spec_split_vertical(win_area, main_height, gap, nmain, nclients);
            &&& nmain == 0 ==> {
                &&& m.x == 0 && m.y == 0 && m.w == 0 && m.h == 0
                &&& s.x == win_area.x + gap && s.y == win_area.y + gap
                &&& s.w == win_area.w - 2 * gap && s.h == win_area.h - 2 * gap
            }
            &&& (0 < nmain && nclients <= nmain) ==> {
                &&& s.x == 0 && s.y == 0 && s.w == 0 && s.h == 0
                &&& m.x == win_area.x + gap && m.y == win_area.y + gap
                &&& m.w == win_area.w - 2 * gap && m.h == win_area.h - 2 * gap
            }
            &&& (0 < nmain && nmain < nclients) ==> {
                &&& m.x == win_area.x + gap && s.x == m.x
                &&& m.w == win_area.w - 2 * gap && s.w == m.w
                &&& m.y == win_area.y + gap
                &&& m.h == main_height - 2 * gap
                &&& s.y == m.y + m.h + gap
                &&& s.y + s.h == win_area.y + win_area.h - gap
            }
        }),
{
}

/// The split beside the main windows (stack and deck): without main windows the stack takes
/// the window area less the gap on every side; when every window fits into the main area the
/// main area takes it; otherwise the main area is `main_width` wide less the gaps, and the stack
/// lies a gap to its right, as high as it, reaching to a gap before the right edge.
pub proof fn law_split_horizontal(win_area: Dimensions, main_width: u32, gap: u32, nmain: u32, nclients: u32)
    requires
        split_horizontal_fits(win_area, main_width, gap, nmain, nclients),
    ensures
        ({
            let (m, s) = spec_split_horizontal(win_area, main_width, gap, nmain, nclients);
            &&& nmain == 0 ==> {
                &&& m.x == 0 && m.y == 0 && m.w == 0 && m.h == 0
                &&& s.x == win_area.x + gap && s.y == win_area.y + gap
                &&& s.w == win_area.w - 2 * gap && s.h == win_area.h - 2 * gap
            }
            &&& (0 < nmain && nclients <= nmain) ==> {
                &&& s.x == 0 && s.y == 0 && s.w == 0 && s.h == 0
                &&& m.x == win_area.x + gap && m.y == win_area.y + gap
                &&& m.w == win_area.w - 2 * gap && m.h == win_area.h - 2 * gap
            }
            &&& (0 < nmain && nmain < nclients) ==> {
                &&& m.y == win_area.y + gap && s.y == m.y
                &&& m.h == win_area.h - 2 * gap && s.h == m.h
                &&& m.x == win_area.x + gap
                &&& m.w == main_width - 2 * gap
                &&& s.x == m.x + m.w + gap
                &&& s.x + s.w == win_area.x + win_area.w - gap
            }
        }),
{
}

/// A single tiled window in the stack, bottom stack or deck layout covers the window area less
/// the gap on every side, whatever the number of main windows.
pub proof fn law_single_window_fills_area(
    layout: LayoutType,
    win_area: Dimensions,
    config: LayoutConfiguration,
    main_width: u32,
    main_height: u32,
)
    requires
        layout == LayoutType::Stack || layout == LayoutType::BottomStack || layout == LayoutType::Deck,
        layout_fits(layout, win_area, 1, config, main_width, main_height),
    ensures
        spec_placement(layout, win_area, seq![false], config, main_width, main_height, 0) matches Some(d) && {
            &&& d.x == win_area.x + config.gap_width
            &&& d.y == win_area.y + config.gap_width
            &&& d.w == win_area.w - 2 * config.gap_width
            &&& d.h == win_area.h - 2 * config.gap_width
        },
{
    let gap = config.gap_width;
    let fs = seq![false];
    assert(fs.len() == 1);
    assert(!fs[0]);
    if layout == LayoutType::BottomStack {
        law_split_vertical(win_area, main_height, gap, config.nmain, 1);
        let (m, s) = spec_split_vertical(win_area, main_height, gap, config.nmain, 1);
        assert(tile_len(m.w, 1, gap) == m.w);
        assert(tile_len(s.w, 1, gap) == s.w);
    } else {
        law_split_horizontal(win_area, main_width, gap, config.nmain, 1);
        let (m, s) = spec_split_horizontal(win_area, main_width, gap, config.nmain, 1);
        assert(tile_len(m.h, 1, gap) == m.h);
        assert(tile_len(s.h, 1, gap) == s.h);
    }
}

/// Tile `i` of `n` tiles stacked from top to bottom in `area`.
pub fn vertical_tile(area: Dimensions, n: u32, gap: u32, i: u32) -> (d: Dimensions)
    requires
        tiles_fit(area, n as int, gap, true),
        i < n,
    ensures
        d == spec_vertical_tile(area, n as int, gap, i as int),
{
    proof {
        lemma_tile_offset(area.h as int, n as int, gap as int, i as int);
    }
    let height = (area.h - (n - 1) * gap) / n;
    let step: u64 = height as u64 + gap as u64;
    let offset: u64 = i as u64 * step;
    let y = (area.y as i64 + offset as i64) as i32;
    Dimensions::new(area.x, y, area.w, height)
}

/// Tile `i` of `n` tiles placed from left to right in `area`.
pub fn horizontal_tile(area: Dimensions, n: u32, gap: u32, i: u32) -> (d: Dimensions)
    requires
        tiles_fit(area, n as int, gap, false),
        i < n,
    ensures
        d == spec_horizontal_tile(area, n as int, gap, i as int),
{
    proof {
        lemma_tile_offset(area.w as int, n as int, gap as int, i as int);
    }
    let width = (area.w - (n - 1) * gap) / n;
    let step: u64 = width as u64 + gap as u64;
    let offset: u64 = i as u64 * step;
    let x = (area.x as i64 + offset as i64) as i32;
    Dimensions::new(x, area.y, width, area.h)
}

/// Where each of the tiled windows of a workspace goes, given whether each of them is
/// fullscreen (fullscreen windows keep their place).
pub fn apply_layout(
    layout: LayoutType,
    win_area: Dimensions,
    fullscreen: &Vec<bool>,
    config: &LayoutConfiguration,
    main_width: u32,
    main_height: u32,
) -> (r: Vec<Option<Dimensions>>)
    requires
        layout_fits(layout, win_area, fullscreen@.len() as int, *config, main_width, main_height),
    ensures
        r@.len() == fullscreen@.len(),
        forall|i: int|
            0 <= i < fullscreen@.len() ==> #[trigger] r@[i] == spec_placement(
                layout,
                win_area,
                fullscreen@,
                *config,
                main_width,
                main_height,
                i,
            ),
{
    let len = fullscreen.len();
    let n = len as u32;
    let gap = config.gap_width;
    let nmain = config.nmain;
    let nm = if n < nmain {
        n
    } else {
        nmain
    };
    let (main_area, stack_area) = match layout {
        LayoutType::Stack | LayoutType::Deck => layout_dimensions_horizontal(
            win_area,
            main_width,
            gap,
            nmain,
            n,
        ),
        LayoutType::BottomStack => layout_dimensions_vertical(win_area, main_height, gap, nmain, n),
        _ => (win_area, win_area),
    };
    let mut placements: Vec<Option<Dimensions>> = Vec::new();
    let mut i: usize = 0;
    while i < len
        invariant
            len == fullscreen@.len(),
            n == len,
            i <= len,
            gap == config.gap_width,
            nmain == config.nmain,
            nm == main_count(nmain, n as int),
            layout_fits(layout, win_area, len as int, *config, main_width, main_height),
            (layout is Stack || layout is Deck) ==> (main_area, stack_area) == spec_split_horizontal(
                win_area,
                main_width,
                gap,
                nmain,
                n,
            ),
            layout is BottomStack ==> (main_area, stack_area) == spec_split_vertical(
                win_area,
                main_height,
                gap,
                nmain,
                n,
            ),
            placements@.len() == i,
            forall|j: int|
                0 <= j < i ==> #[trigger] placements@[j] == spec_placement(
                    layout,
                    win_area,
                    fullscreen@,
                    *config,
                    main_width,
                    main_height,
                    j,
                ),
        decreases len - i,
    {
        let k = i as u32;
        let placement = if fullscreen[i] {
            None
        } else {
            match layout {
                LayoutType::Floating => None,
                LayoutType::Monocle => Some(win_area),
                LayoutType::Stack => if k < nm {
                    Some(vertical_tile(main_area, nm, gap, k))
                } else {
                    Some(vertical_tile(stack_area, n - nm, gap, k - nm))
                },
                LayoutType::BottomStack => if k < nm {
                    Some(horizontal_tile(main_area, nm, gap, k))
                } else {
                    Some(horizontal_tile(stack_area, n - nm, gap, k - nm))
                },
                LayoutType::Deck => if k < nm {
                    Some(vertical_tile(main_area, nm, gap, k))
                } else {
                    Some(stack_area)
                },
            }
        };
        placements.push(placement);
        i += 1;
    }
    placements
}

} // verus!
