//! The state of a managed client window: its frame, borders, position and size, and the rules
//! that change them. The display server calls that show these changes are made by the caller.
use vstd::prelude::*;

use crate::geometry::{Dimensioned, Dimensions, MonitorConfig};
use crate::numbers::{hex_string, spec_hex};

verus! {

/// Minimum width and height of a window (without its outer border).
pub const WINDOW_MIN_SIZE: u32 = 40;

/// Index of the flags field in the Motif window manager hints.
pub const MWM_HINTS_FLAGS_FIELD: usize = 0;

/// Index of the decorations field in the Motif window manager hints.
pub const MWM_HINTS_DECORATIONS_FIELD: usize = 2;

/// Flag: the decorations field of the Motif hints is valid.
pub const MWM_HINTS_DECORATIONS: u64 = 2;

/// Decoration bit: all decorations.
pub const MWM_DECOR_ALL: u64 = 1;

/// Decoration bit: a border.
pub const MWM_DECOR_BORDER: u64 = 2;

/// Decoration bit: a title bar.
pub const MWM_DECOR_TITLE: u64 = 8;

/// Size hint flag: the program specified a size.
pub const P_SIZE: i64 = 8;

/// Size hint flag: minimum size given.
pub const P_MIN_SIZE: i64 = 16;

/// Size hint flag: maximum size given.
pub const P_MAX_SIZE: i64 = 32;

/// Size hint flag: resize increments given.
pub const P_RESIZE_INC: i64 = 64;

/// Size hint flag: aspect ratios given.
pub const P_ASPECT: i64 = 128;

/// Size hint flag: base size given.
pub const P_BASE_SIZE: i64 = 256;

/// The window state flags that the window manager keeps per client.
#[derive(PartialEq, Default, Debug, Clone, Copy)]
pub struct Attributes {
    pub is_floating: bool,
    pub is_moving: bool,
    pub is_pinned: bool,
    pub floating_dimensions: Option<Dimensions>,
}

/// The normal size hints of a window (the `WM_NORMAL_HINTS` property), as read from the server.
#[derive(Clone, Copy, Debug, PartialEq, Eq)]
pub struct SizeHints {
    pub flags: i64,
    pub width: i32,
    pub height: i32,
    pub min_width: i32,
    pub min_height: i32,
    pub max_width: i32,
    pub max_height: i32,
    pub width_inc: i32,
    pub height_inc: i32,
    pub base_width: i32,
    pub base_height: i32,
    pub min_aspect_x: i32,
    pub min_aspect_y: i32,
    pub max_aspect_x: i32,
    pub max_aspect_y: i32,
}

/// The size limits that the size hints of a window set (zero where a hint is absent).
#[derive(Clone, Copy, Debug, PartialEq, Eq, Structural)]
pub struct SizeLimits {
    pub basew: u32,
    pub baseh: u32,
    pub incw: u32,
    pub inch: u32,
    pub minw: u32,
    pub minh: u32,
    pub maxw: u32,
    pub maxh: u32,
}

/// Inner border width, outer border width and frame widths, saved while they are removed.
pub type Decoration = (u32, u32, (u32, u32, u32, u32));

impl SizeHints {
    /// Every field that a set flag makes the window manager read is not negative.
    pub open spec fn readable(self) -> bool {
        &&& (self.flags & P_SIZE != 0) ==> self.width >= 0
        &&& (self.flags & P_BASE_SIZE != 0) ==> (self.base_width >= 0 && self.base_height >= 0)
        &&& (self.flags & P_MIN_SIZE != 0) ==> (self.min_width >= 0 && self.min_height >= 0)
        &&& (self.flags & P_RESIZE_INC != 0) ==> (self.width_inc >= 0 && self.height_inc >= 0)
        &&& (self.flags & P_MAX_SIZE != 0) ==> (self.max_width >= 0 && self.max_height >= 0)
    }

    /// The limits that the hints set: the base size falls back to the minimum size.
    pub open spec fn spec_limits(self) -> SizeLimits {
        let base_given = self.flags & P_BASE_SIZE != 0;
        let min_given = self.flags & P_MIN_SIZE != 0;
        let inc_given = self.flags & P_RESIZE_INC != 0;
        let max_given = self.flags & P_MAX_SIZE != 0;
        SizeLimits {
            basew: if base_given {
                self.base_width as u32
            } else if min_given {
                self.min_width as u32
            } else {
                0
            },
            baseh: if base_given {
                self.base_height as u32
            } else if min_given {
                self.min_height as u32
            } else {
                0
            },
            incw: if inc_given {
                self.width_inc as u32
            } else {
                0
            },
            inch: if inc_given {
                self.height_inc as u32
            } else {
                0
            },
            minw: if min_given {
                self.min_width as u32
            } else {
                0
            },
            minh: if min_given {
                self.min_height as u32
            } else {
                0
            },
            maxw: if max_given {
                self.max_width as u32
            } else {
                0
            },
            maxh: if max_given {
                self.max_height as u32
            } else {
                0
            },
        }
    }
}

/// One side of a size under the size hints: `base` taken off (when the base is used), rounded
/// down to a multiple of `inc` (when it is not 0), `base` added back, at least `min`, and at most
/// `max` (when it is not 0).
pub open spec fn constrain_side(v: int, base: int, inc: int, min: int, max: int, base_used: bool) -> int {
    let off = if base_used { v - base } else { v };
    let stepped = if inc != 0 { off - off % inc } else { off };
    let raised = if stepped + base >= min { stepped + base } else { min };
    if max != 0 && max < raised { max } else { raised }
}

impl SizeLimits {
    /// The base size is used (it is at least the minimum width and above the minimum height).
    pub open spec fn base_used(self) -> bool {
        self.basew >= self.minw && self.baseh > self.minh
    }

    /// A size with the base size taken off, rounded down to the increments, the base size added
    /// back, raised to the minimum and lowered to the maximum, on each side.
    pub open spec fn spec_constrain(self, w: u32, h: u32) -> (u32, u32) {
        (
            constrain_side(w as int, self.basew as int, self.incw as int, self.minw as int, self.maxw as int,
                self.base_used()) as u32,
            constrain_side(h as int, self.baseh as int, self.inch as int, self.minh as int, self.maxh as int,
                self.base_used()) as u32,
        )
    }

    /// The constraining steps stay within `u32`.
    pub open spec fn constrain_fits(self, w: u32, h: u32) -> bool {
        &&& self.base_used() ==> (w >= self.basew && h >= self.baseh)
        &&& w + self.basew <= u32::MAX
        &&& h + self.baseh <= u32::MAX
    }
}

/// One side under the size hints lies between 0 and the size with the base added back, is at
/// most a nonzero maximum, at least the minimum unless a nonzero maximum is below it, and a side
/// that is on the increment grid (counted from the base), at least the minimum and at most the
/// maximum, with the base counted in it, stays as it is.
proof fn lemma_constrain_side(v: int, base: int, inc: int, min: int, max: int, base_used: bool)
    requires
        0 <= v,
        0 <= base,
        0 <= inc,
        0 <= min,
        0 <= max,
        base_used ==> v >= base,
    ensures
        ({
            let r = constrain_side(v, base, inc, min, max, base_used);
            let from = if base_used { base } else { 0 };
            &&& 0 <= r
            &&& r <= (if v - from + base >= min { v - from + base } else { min })
            &&& max != 0 ==> r <= max
            &&& (max == 0 || min <= max) ==> r >= min
            &&& ((base_used || base == 0) && (inc == 0 || (v - from) % inc == 0) && min <= v && (max == 0 || v
                <= max)) ==> r == v
            &&& (min == 0 && max == 0 && inc == 0) ==> r == v - from + base
            &&& (min == 0 && max == 0 && inc != 0) ==> {
                &&& (r - base) % inc == 0
                &&& v - from - inc < r - base <= v - from
            }
        }),
{
    let off = if base_used { v - base } else { v };
    if inc != 0 {
        lemma_mod_le(off, inc);
        vstd::arithmetic::div_mod::lemma_mod_bound(off, inc);
        vstd::arithmetic::div_mod::lemma_fundamental_div_mod(off, inc);
        let q = off / inc;
        assert(off - off % inc == inc * q);
        vstd::arithmetic::div_mod::lemma_mod_multiples_basic(q, inc);
        assert(inc * q == q * inc) by (nonlinear_arith);
    }
}

/// Applying the size hints: a nonzero maximum bounds the size; the size is at least the minimum
/// (unless a nonzero maximum is below the minimum); and a size that already is on the increment
/// grid (counted from a base size that is in use, or 0), at least the minimum and at most a
/// nonzero maximum, is left as it is; without minimum and maximum, a side is rounded down to the
/// nearest multiple of its increment (counted from the base size).
pub proof fn law_size_limits(limits: SizeLimits, w: u32, h: u32)
    requires
        limits.constrain_fits(w, h),
    ensures
        ({
            let (rw, rh) = limits.spec_constrain(w, h);
            let used = limits.basew >= limits.minw && limits.baseh > limits.minh;
            let bw = if used { limits.basew } else { 0 };
            let bh = if used { limits.baseh } else { 0 };
            &&& limits.maxw != 0 ==> rw <= limits.maxw
            &&& limits.maxh != 0 ==> rh <= limits.maxh
            &&& (limits.maxw == 0 || limits.minw <= limits.maxw) ==> rw >= limits.minw
            &&& (limits.maxh == 0 || limits.minh <= limits.maxh) ==> rh >= limits.minh
            &&& ((used || limits.basew == 0) && (limits.incw == 0 || (w - bw) % (limits.incw as int) == 0)
                && limits.minw <= w && (limits.maxw == 0 || w <= limits.maxw)) ==> rw == w
            &&& ((used || limits.baseh == 0) && (limits.inch == 0 || (h - bh) % (limits.inch as int) == 0)
                && limits.minh <= h && (limits.maxh == 0 || h <= limits.maxh)) ==> rh == h
            &&& (limits.minw == 0 && limits.maxw == 0 && limits.incw != 0) ==> {
                &&& (rw - limits.basew) % (limits.incw as int) == 0
                &&& w - bw - limits.incw < rw - limits.basew <= w - bw
            }
            &&& (limits.minh == 0 && limits.maxh == 0 && limits.inch != 0) ==> {
                &&& (rh - limits.baseh) % (limits.inch as int) == 0
                &&& h - bh - limits.inch < rh - limits.baseh <= h - bh
            }
        }),
{
    let used = limits.base_used();
    lemma_constrain_side(w as int, limits.basew as int, limits.incw as int, limits.minw as int, limits.maxw as int, used);
    lemma_constrain_side(h as int, limits.baseh as int, limits.inch as int, limits.minh as int, limits.maxh as int, used);
}

/// An `u32` border width as the window manager turns it into a signed offset.
pub open spec fn signed(v: u32) -> int {
    (v as i32) as int
}

/// A managed client window.
pub struct X11Client<A> {
    pub name: String,
    pub root: u64,
    pub window: u64,
    pub frame: u64,
    pub title_window: Option<u64>,
    pub attributes: A,
    /// position prior to reparenting
    pub orig_pos: (i32, i32),
    pub x: i32,
    pub y: i32,
    pub w: u32,
    pub h: u32,
    /// inner border width
    pub ibw: u32,
    /// outer border width
    pub obw: u32,
    /// frame widths (north, east, south, west)
    pub fw: (u32, u32, u32, u32),
    pub actively_reparenting: bool,
    pub dont_decorate: bool,
    pub fullscreen: bool,
    pub is_dialog: bool,
    pub visible: bool,
    pub frame_color: u64,
    pub saved_decorations: Option<Decoration>,
    pub saved_dimensions: Option<Dimensions>,
}

/// The name of a client: `<name>::<class> [0x<window>]` when the class hint is known, else
/// `0x<window>`.
pub open spec fn spec_client_name(class_hint: Option<(Seq<char>, Seq<char>)>, window: u64) -> Seq<
    char,
> {
    match class_hint {
        Some((name, class)) => name + "::"@ + class + " [0x"@ + spec_hex(window as nat) + "]"@,
        None => "0x"@ + spec_hex(window as nat),
    }
}

/// The minimum size of a client with outer border width `obw`.
pub open spec fn min_size(obw: u32) -> int {
    2 * obw + WINDOW_MIN_SIZE
}

impl<A> X11Client<A> {
    /// The rectangle of the client, outer borders included.
    pub open spec fn spec_dims(self) -> Dimensions {
        Dimensions { x: self.x, y: self.y, w: self.w, h: self.h }
    }

    /// Inner border, frame and outer border added, per side (north, east, south, west).
    pub open spec fn spec_total_bw(self) -> (int, int, int, int) {
        (
            self.ibw + self.fw.0 + self.obw,
            self.ibw + self.fw.1 + self.obw,
            self.ibw + self.fw.2 + self.obw,
            self.ibw + self.fw.3 + self.obw,
        )
    }

    /// The client after a move and resize: the size is raised to the minimum size.
    pub open spec fn spec_moved(self, x: i32, y: i32, width: u32, height: u32) -> X11Client<A> {
        let m = min_size(self.obw);
        X11Client {
            x,
            y,
            w: if width < m {
                m as u32
            } else {
                width
            },
            h: if height < m {
                m as u32
            } else {
                height
            },
            ..self
        }
    }

    /// A move and resize of this client computes its minimum size without overflow.
    pub open spec fn move_fits(self) -> bool {
        min_size(self.obw) <= u32::MAX
    }

    /// Create the state of a newly managed client.
    pub fn new(
        class_hint: Option<(String, String)>,
        root: u64,
        window: u64,
        frame: u64,
        dimensions: Dimensions,
        is_dialog: bool,
        attributes: A,
    ) -> (c: X11Client<A>)
        ensures
            c.name@ == spec_client_name(
                match class_hint {
                    Some((n, k)) => Some((n@, k@)),
                    None => None,
                },
                window,
            ),
            c.root == root,
            c.window == window,
            c.frame == frame,
            c.title_window is None,
            c.attributes == attributes,
            c.orig_pos == (dimensions.x, dimensions.y),
            c.spec_dims() == dimensions,
            c.ibw == 0 && c.obw == 0 && c.fw == (0u32, 0u32, 0u32, 0u32),
            !c.actively_reparenting && !c.dont_decorate && !c.fullscreen && !c.visible,
            c.is_dialog == is_dialog,
            c.frame_color == 0,
            c.saved_decorations is None,
            c.saved_dimensions is None,
    {
        let hex = hex_string(window);
        let name = match class_hint {
            Some((name, class)) => {
                let mut text = name;
                text.append("::");
                text.append(class.as_str());
                text.append(" [0x");
                text.append(hex.as_str());
                text.append("]");
                text
            },
            None => {
                let mut text = String::from_str("0x");
                text.append(hex.as_str());
                text
            },
        };
        X11Client {
            name,
            root,
            window,
            frame,
            title_window: None,
            attributes,
            orig_pos: (dimensions.x, dimensions.y),
            x: dimensions.x,
            y: dimensions.y,
            w: dimensions.w,
            h: dimensions.h,
            ibw: 0,
            obw: 0,
            fw: (0, 0, 0, 0),
            actively_reparenting: false,
            dont_decorate: false,
            fullscreen: false,
            is_dialog,
            visible: false,
            frame_color: 0,
            saved_decorations: None,
            saved_dimensions: None,
        }
    }

    /// Mark the client as not to be decorated when its Motif hints ask for no decorations: the
    /// decorations field is valid and has none of the "all", "border" and "title" bits.
    pub fn apply_motif_hints(&mut self, hints: Option<&Vec<u64>>)
        requires
            hints matches Some(v) ==> v@.len() > MWM_HINTS_DECORATIONS_FIELD,
        ensures
            *final(self) == (X11Client {
                dont_decorate: old(self).dont_decorate || (hints matches Some(v) && {
                    &&& v@[0] & MWM_HINTS_DECORATIONS != 0
                    &&& v@[2] & MWM_DECOR_ALL == 0
                    &&& v@[2] & MWM_DECOR_BORDER == 0
                    &&& v@[2] & MWM_DECOR_TITLE == 0
                }),
                ..*old(self)
            }),
    {
        if let Some(hints) = hints {
            if hints[MWM_HINTS_FLAGS_FIELD] & MWM_HINTS_DECORATIONS != 0
                && hints[MWM_HINTS_DECORATIONS_FIELD] & MWM_DECOR_ALL == 0
                && hints[MWM_HINTS_DECORATIONS_FIELD] & MWM_DECOR_BORDER == 0
                && hints[MWM_HINTS_DECORATIONS_FIELD] & MWM_DECOR_TITLE == 0 {
                self.dont_decorate = true;
            }
        }
    }

    /// First part of applying the normal size hints: take over the program-specified size (its
    /// width for both sides), read the limits, and use the base size where it is valid. Returns
    /// the limits, which [X11Client::apply_size_limits] applies after any aspect adjustment.
    pub fn apply_size_hints(&mut self, hints: &SizeHints) -> (limits: SizeLimits)
        requires
            hints.readable(),
        ensures
            limits == hints.spec_limits(),
            ({
                let sized_w = if hints.flags & P_SIZE != 0 {
                    hints.width as u32
                } else {
                    old(self).w
                };
                let sized_h = if hints.flags & P_SIZE != 0 {
                    hints.width as u32
                } else {
                    old(self).h
                };
                *final(self) == (X11Client {
                    w: if limits.base_used() {
                        limits.basew
                    } else {
                        sized_w
                    },
                    h: if limits.base_used() {
                        limits.baseh
                    } else {
                        sized_h
                    },
                    ..*old(self)
                })
            }),
    {
        let mut basew: u32 = 0;
        let mut baseh: u32 = 0;
        let mut incw: u32 = 0;
        let mut inch: u32 = 0;
        let mut minw: u32 = 0;
        let mut minh: u32 = 0;
        let mut maxw: u32 = 0;
        let mut maxh: u32 = 0;

        if hints.flags & P_SIZE != 0 {
            self.w = hints.width as u32;
            self.h = hints.width as u32;
        }
        if hints.flags & P_BASE_SIZE != 0 {
            basew = hints.base_width as u32;
            baseh = hints.base_height as u32;
        } else if hints.flags & P_MIN_SIZE != 0 {
            basew = hints.min_width as u32;
            baseh = hints.min_height as u32;
        }
        if hints.flags & P_RESIZE_INC != 0 {
            incw = hints.width_inc as u32;
            inch = hints.height_inc as u32;
        }
        if hints.flags & P_MAX_SIZE != 0 {
            maxw = hints.max_width as u32;
            maxh = hints.max_height as u32;
        }
        if hints.flags & P_MIN_SIZE != 0 {
            minw = hints.min_width as u32;
            minh = hints.min_height as u32;
        }
        if basew >= minw && baseh > minh {
            self.w = basew;
            self.h = baseh;
        }
        SizeLimits { basew, baseh, incw, inch, minw, minh, maxw, maxh }
    }

    /// Second part of applying the normal size hints: round the size to the increments
    /// (measured from the base size), then keep it between minimum and maximum.
    pub fn apply_size_limits(&mut self, limits: &SizeLimits)
        requires
            limits.constrain_fits(old(self).w, old(self).h),
        ensures
            *final(self) == (X11Client {
                w: limits.spec_constrain(old(self).w, old(self).h).0,
                h: limits.spec_constrain(old(self).w, old(self).h).1,
                ..*old(self)
            }),
    {
        if limits.basew >= limits.minw && limits.baseh > limits.minh {
            self.w = self.w - limits.basew;
            self.h = self.h - limits.baseh;
        }
        if limits.incw != 0 {
            proof {
                lemma_mod_le(self.w as int, limits.incw as int);
            }
            self.w = self.w - self.w % limits.incw;
        }
        if limits.inch != 0 {
            proof {
                lemma_mod_le(self.h as int, limits.inch as int);
            }
            self.h = self.h - self.h % limits.inch;
        }
        let w = self.w + limits.basew;
        self.w = if w >= limits.minw {
            w
        } else {
            limits.minw
        };
        let h = self.h + limits.baseh;
        self.h = if h >= limits.minh {
            h
        } else {
            limits.minh
        };
        if limits.maxw != 0 && limits.maxw < self.w {
            self.w = limits.maxw;
        }
        if limits.maxh != 0 && limits.maxh < self.h {
            self.h = limits.maxh;
        }
    }

    pub fn frame(&self) -> (f: u64)
        ensures
            f == self.frame,
    {
        self.frame
    }

    pub fn window(&self) -> (w: u64)
        ensures
            w == self.window,
    {
        self.window
    }

    pub fn title_window(&self) -> (t: Option<u64>)
        ensures
            t == self.title_window,
    {
        self.title_window
    }

    pub fn is_reparenting(&self) -> (b: bool)
        ensures
            b == self.actively_reparenting,
    {
        self.actively_reparenting
    }

    pub fn set_reparenting(&mut self, status: bool)
        ensures
            *final(self) == (X11Client { actively_reparenting: status, ..*old(self) }),
    {
        self.actively_reparenting = status;
    }

    pub fn name(&self) -> (n: &str)
        ensures
            n@ == self.name@,
    {
        self.name.as_str()
    }

    pub fn attributes(&self) -> (a: &A)
        ensures
            *a == self.attributes,
    {
        &self.attributes
    }

    pub fn set_attributes(&mut self, attributes: A)
        ensures
            *final(self) == (X11Client { attributes, ..*old(self) }),
    {
        self.attributes = attributes;
    }

    pub fn dont_decorate(&self) -> (b: bool)
        ensures
            b == self.dont_decorate,
    {
        self.dont_decorate
    }

    pub fn frame_width(&self) -> (fw: (u32, u32, u32, u32))
        ensures
            fw == self.fw,
    {
        self.fw
    }

    pub fn inner_bw(&self) -> (b: u32)
        ensures
            b == self.ibw,
    {
        self.ibw
    }

    pub fn outer_bw(&self) -> (b: u32)
        ensures
            b == self.obw,
    {
        self.obw
    }

    pub fn is_dialog(&self) -> (b: bool)
        ensures
            b == self.is_dialog,
    {
        self.is_dialog
    }

    pub fn is_fullscreen(&self) -> (b: bool)
        ensures
            b == self.fullscreen,
    {
        self.fullscreen
    }

    pub fn is_visible(&self) -> (b: bool)
        ensures
            b == self.visible,
    {
        self.visible
    }

    /// Mark the client as unmapped.
    pub fn set_hidden(&mut self)
        ensures
            *final(self) == (X11Client { visible: false, ..*old(self) }),
    {
        self.visible = false;
    }

    /// Mark the client as mapped.
    pub fn show(&mut self)
        ensures
            *final(self) == (X11Client { visible: true, ..*old(self) }),
    {
        self.visible = true;
    }

    pub fn set_height(&mut self, height: u32)
        ensures
            *final(self) == (X11Client { h: height, ..*old(self) }),
    {
        self.h = height;
    }

    pub fn set_frame_color(&mut self, color: u64)
        ensures
            *final(self) == (X11Client { frame_color: color, ..*old(self) }),
    {
        self.frame_color = color;
    }

    /// Borders on each side: inner border, frame and outer border added.
    pub fn total_bw(&self) -> (bw: (u32, u32, u32, u32))
        requires
            self.spec_total_bw().0 <= u32::MAX,
            self.spec_total_bw().1 <= u32::MAX,
            self.spec_total_bw().2 <= u32::MAX,
            self.spec_total_bw().3 <= u32::MAX,
        ensures
            bw.0 == self.spec_total_bw().0,
            bw.1 == self.spec_total_bw().1,
            bw.2 == self.spec_total_bw().2,
            bw.3 == self.spec_total_bw().3,
    {
        (
            self.ibw + self.fw.0 + self.obw,
            self.ibw + self.fw.1 + self.obw,
            self.ibw + self.fw.2 + self.obw,
            self.ibw + self.fw.3 + self.obw,
        )
    }

    /// The position of the client window inside its frame and its size without borders.
    pub fn inner_dimensions(&self) -> (d: Dimensions)
        requires
            self.spec_total_bw().0 <= u32::MAX,
            self.spec_total_bw().1 <= u32::MAX,
            self.spec_total_bw().2 <= u32::MAX,
            self.spec_total_bw().3 <= u32::MAX,
            self.fw.0 <= i32::MAX,
            self.fw.1 <= i32::MAX,
            self.spec_total_bw().1 + self.spec_total_bw().3 <= self.w,
            self.spec_total_bw().0 + self.spec_total_bw().2 <= self.h,
        ensures
            d.x == self.fw.1,
            d.y == self.fw.0,
            d.w == self.w - self.spec_total_bw().1 - self.spec_total_bw().3,
            d.h == self.h - self.spec_total_bw().0 - self.spec_total_bw().2,
    {
        let (bw_north, bw_east, bw_south, bw_west) = self.total_bw();
        Dimensions::new(self.fw.1 as i32, self.fw.0 as i32, self.w - bw_east - bw_west, self.h - bw_north - bw_south)
    }

    /// Move and resize the client; a size below the minimum size (twice the outer border plus
    /// [WINDOW_MIN_SIZE]) is raised to it.
    pub fn move_resize(&mut self, x: i32, y: i32, width: u32, height: u32)
        requires
            old(self).move_fits(),
        ensures
            *final(self) == old(self).spec_moved(x, y, width, height),
    {
        let min_size = 2 * self.obw + WINDOW_MIN_SIZE;
        self.x = x;
        self.y = y;
        self.w = if width < min_size {
            min_size
        } else {
            width
        };
        self.h = if height < min_size {
            min_size
        } else {
            height
        };
    }

    /// Set the client to the given rectangle (raised to the minimum size).
    pub fn set_dimensions(&mut self, dimensions: Dimensions)
        requires
            old(self).move_fits(),
        ensures
            *final(self) == old(self).spec_moved(
                dimensions.x,
                dimensions.y,
                dimensions.w,
                dimensions.h,
            ),
    {
        self.move_resize(dimensions.x, dimensions.y, dimensions.w, dimensions.h)
    }

    /// The position that centers the client on the given rectangle.
    pub open spec fn spec_centered_pos(self, dimensions: Dimensions) -> (int, int) {
        (
            dimensions.spec_center().0 - half_trunc(signed(self.w)),
            dimensions.spec_center().1 - half_trunc(signed(self.h)),
        )
    }

    /// Centering on the rectangle stays within `i32`.
    pub open spec fn center_fits(self, dimensions: Dimensions) -> bool {
        &&& dimensions.center_fits()
        &&& i32::MIN <= self.spec_centered_pos(dimensions).0 <= i32::MAX
        &&& i32::MIN <= self.spec_centered_pos(dimensions).1 <= i32::MAX
    }

    /// Center the client on the given rectangle, keeping its size.
    pub fn center_on_screen(&mut self, dimensions: Dimensions)
        requires
            old(self).move_fits(),
            old(self).center_fits(dimensions),
        ensures
            *final(self) == old(self).spec_moved(
                old(self).spec_centered_pos(dimensions).0 as i32,
                old(self).spec_centered_pos(dimensions).1 as i32,
                old(self).w,
                old(self).h,
            ),
    {
        let (center_x, center_y) = dimensions.center();
        let w = self.w;
        let h = self.h;
        self.move_resize(center_x - (w as i32 / 2), center_y - (h as i32 / 2), w, h)
    }

    /// Whether a move and resize of this client computes its minimum size without overflow.
    pub fn can_move(&self) -> (b: bool)
        ensures
            b == self.move_fits(),
    {
        (self.obw as u64) * 2 + (WINDOW_MIN_SIZE as u64) <= u32::MAX as u64
    }

    /// Whether centering the client on the rectangle stays within `i32`.
    pub fn can_center_on(&self, dimensions: Dimensions) -> (b: bool)
        ensures
            b == self.center_fits(dimensions),
    {
        centering_fits(self.w, self.h, dimensions)
    }

    /// Whether the client is centered on the given rectangle.
    pub fn is_centered_on_screen(&self, dimensions: Dimensions) -> (b: bool)
        requires
            self.center_fits(dimensions),
        ensures
            b == (self.x == self.spec_centered_pos(dimensions).0 && self.y
                == self.spec_centered_pos(dimensions).1),
    {
        let (center_x, center_y) = dimensions.center();
        self.x == center_x - (self.w as i32 / 2) && self.y == center_y - (self.h as i32 / 2)
    }
}

/// Centering a window of width `w` and height `h` on the rectangle stays within `i32`.
pub open spec fn spec_centering_fits(w: u32, h: u32, dimensions: Dimensions) -> bool {
    &&& dimensions.center_fits()
    &&& i32::MIN <= dimensions.spec_center().0 - half_trunc(signed(w)) <= i32::MAX
    &&& i32::MIN <= dimensions.spec_center().1 - half_trunc(signed(h)) <= i32::MAX
}

/// Whether centering a window of width `w` and height `h` on the rectangle stays within `i32`.
pub fn centering_fits(w: u32, h: u32, dimensions: Dimensions) -> (b: bool)
    ensures
        b == spec_centering_fits(w, h, dimensions),
{
    let cx = dimensions.x as i64 + (dimensions.w / 2) as i64;
    let cy = dimensions.y as i64 + (dimensions.h / 2) as i64;
    if cx > i32::MAX as i64 || cy > i32::MAX as i64 {
        return false;
    }
    let x = cx - ((w as i32) / 2) as i64;
    let y = cy - ((h as i32) / 2) as i64;
    i32::MIN as i64 <= x && x <= i32::MAX as i64 && i32::MIN as i64 <= y && y <= i32::MAX as i64
}

/// The client after its frame widths changed from `old_fw` to `fw`: it grows outwards so that
/// the client window keeps its place.
pub open spec fn spec_frame_shift<A>(c: X11Client<A>, fw: (u32, u32, u32, u32)) -> (
    int,
    int,
    int,
    int,
) {
    let dn = signed(fw.0) - signed(c.fw.0);
    let de = signed(fw.1) - signed(c.fw.1);
    let ds = signed(fw.2) - signed(c.fw.2);
    let dw = signed(fw.3) - signed(c.fw.3);
    (c.x - dw, c.y - dn, signed(c.w) + de + dw, signed(c.h) + dn + ds)
}

/// Half of a signed value, rounded towards zero (as integer division does in Rust).
pub open spec fn half_trunc(v: int) -> int {
    if v >= 0 {
        v / 2
    } else {
        -((-v) / 2)
    }
}

/// A value is not larger than itself modulo any positive divisor.
pub proof fn lemma_mod_le(v: int, d: int)
    requires
        0 <= v,
        0 < d,
    ensures
        0 <= v % d <= v,
{
    vstd::arithmetic::div_mod::lemma_fundamental_div_mod(v, d);
    vstd::arithmetic::div_mod::lemma_mod_bound(v, d);
    vstd::arithmetic::div_mod::lemma_div_pos_is_pos(v, d);
    assert(d * (v / d) >= 0) by (nonlinear_arith)
        requires
            0 < d,
            v / d >= 0,
    ;
}

/// All values are within the `i32` range.
pub open spec fn in_i32(v: int) -> bool {
    i32::MIN <= v <= i32::MAX
}

impl<A> X11Client<A> {
    /// Changing the frame widths stays within `i32`.
    pub open spec fn frame_change_fits(self, fw: (u32, u32, u32, u32)) -> bool {
        let dn = signed(fw.0) - signed(self.fw.0);
        let de = signed(fw.1) - signed(self.fw.1);
        let ds = signed(fw.2) - signed(self.fw.2);
        let dw = signed(fw.3) - signed(self.fw.3);
        let shifted = spec_frame_shift(self, fw);
        &&& in_i32(dn) && in_i32(de) && in_i32(ds) && in_i32(dw)
        &&& in_i32(shifted.0) && in_i32(shifted.1)
        &&& in_i32(signed(self.w) + de) && in_i32(shifted.2)
        &&& in_i32(signed(self.h) + dn) && in_i32(shifted.3)
    }

    /// The client after its frame widths changed to `fw`.
    pub open spec fn spec_with_frame(self, fw: (u32, u32, u32, u32)) -> X11Client<A> {
        let shifted = spec_frame_shift(self, fw);
        X11Client { fw, ..self }.spec_moved(
            shifted.0 as i32,
            shifted.1 as i32,
            shifted.2 as u32,
            shifted.3 as u32,
        )
    }

    /// Change the frame widths; the client grows or shrinks outwards by the difference.
    pub fn set_frame_width(&mut self, width: (u32, u32, u32, u32))
        requires
            old(self).move_fits(),
            old(self).frame_change_fits(width),
        ensures
            *final(self) == old(self).spec_with_frame(width),
    {
        let diff_north = (width.0 as i32) - (self.fw.0 as i32);
        let diff_east = (width.1 as i32) - (self.fw.1 as i32);
        let diff_south = (width.2 as i32) - (self.fw.2 as i32);
        let diff_west = (width.3 as i32) - (self.fw.3 as i32);
        self.fw = width;
        let x = self.x - diff_west;
        let y = self.y - diff_north;
        let w = (self.w as i32 + diff_east + diff_west) as u32;
        let h = (self.h as i32 + diff_north + diff_south) as u32;
        self.move_resize(x, y, w, h);
    }

    /// Changing a border from `old_bw` to `bw` stays within `i32`.
    pub open spec fn border_change_fits(self, old_bw: u32, bw: u32) -> bool {
        let diff = signed(bw) - signed(old_bw);
        &&& in_i32(diff)
        &&& in_i32(self.x - diff) && in_i32(self.y - diff)
        &&& in_i32(2 * diff)
        &&& in_i32(signed(self.w) + 2 * diff) && in_i32(signed(self.h) + 2 * diff)
    }

    /// The client moved and resized so that a border change of `diff` on every side keeps the
    /// client window in place.
    pub open spec fn spec_border_shift(self, old_bw: u32, bw: u32) -> X11Client<A> {
        let diff = signed(bw) - signed(old_bw);
        self.spec_moved(
            (self.x - diff) as i32,
            (self.y - diff) as i32,
            (signed(self.w) + 2 * diff) as u32,
            (signed(self.h) + 2 * diff) as u32,
        )
    }

    /// Change the inner border width; the client grows or shrinks by the difference.
    pub fn set_inner_bw(&mut self, bw: u32)
        requires
            old(self).move_fits(),
            old(self).border_change_fits(old(self).ibw, bw),
        ensures
            *final(self) == (X11Client { ibw: bw, ..*old(self) }).spec_border_shift(
                old(self).ibw,
                bw,
            ),
    {
        let diff = (bw as i32) - (self.ibw as i32);
        self.ibw = bw;
        let x = self.x - diff;
        let y = self.y - diff;
        let w = (self.w as i32 + 2 * diff) as u32;
        let h = (self.h as i32 + 2 * diff) as u32;
        self.move_resize(x, y, w, h);
    }

    /// Change the outer border width; the client grows or shrinks by the difference (and its
    /// minimum size follows the new border).
    pub fn set_outer_bw(&mut self, bw: u32)
        requires
            min_size(bw) <= u32::MAX,
            old(self).border_change_fits(old(self).obw, bw),
        ensures
            *final(self) == (X11Client { obw: bw, ..*old(self) }).spec_border_shift(
                old(self).obw,
                bw,
            ),
    {
        let diff = (bw as i32) - (self.obw as i32);
        self.obw = bw;
        let x = self.x - diff;
        let y = self.y - diff;
        let w = (self.w as i32 + 2 * diff) as u32;
        let h = (self.h as i32 + 2 * diff) as u32;
        self.move_resize(x, y, w, h);
    }
}

impl<A> X11Client<A> {
    /// The client after its decorations (inner border, outer border, frame) were saved and set to
    /// zero, one after the other.
    pub open spec fn spec_without_decoration(self) -> X11Client<A> {
        if self.saved_decorations is None {
            let c1 = X11Client { saved_decorations: Some((self.ibw, self.obw, self.fw)), ..self };
            let c2 = X11Client { ibw: 0, ..c1 }.spec_border_shift(c1.ibw, 0);
            let c3 = X11Client { obw: 0, ..c2 }.spec_border_shift(c2.obw, 0);
            c3.spec_with_frame((0, 0, 0, 0))
        } else {
            self
        }
    }

    /// Removing the decorations stays within range at every step.
    pub open spec fn remove_decoration_fits(self) -> bool {
        self.saved_decorations is None ==> {
            let c1 = X11Client { saved_decorations: Some((self.ibw, self.obw, self.fw)), ..self };
            let c2 = X11Client { ibw: 0, ..c1 }.spec_border_shift(c1.ibw, 0);
            let c3 = X11Client { obw: 0, ..c2 }.spec_border_shift(c2.obw, 0);
            &&& c1.move_fits()
            &&& c1.border_change_fits(c1.ibw, 0)
            &&& c2.border_change_fits(c2.obw, 0)
            &&& c3.frame_change_fits((0, 0, 0, 0))
        }
    }

    /// The client after its saved decorations were put back, one after the other.
    pub open spec fn spec_with_decoration(self) -> X11Client<A> {
        match self.saved_decorations {
            Some((ibw, obw, fw)) => {
                let c1 = X11Client { ibw, ..self }.spec_border_shift(self.ibw, ibw);
                let c2 = X11Client { obw, ..c1 }.spec_border_shift(c1.obw, obw);
                let c3 = c2.spec_with_frame(fw);
                X11Client { saved_decorations: None, ..c3 }
            },
            None => self,
        }
    }

    /// Restoring the decorations stays within range at every step.
    pub open spec fn restore_decoration_fits(self) -> bool {
        match self.saved_decorations {
            Some((ibw, obw, fw)) => {
                let c1 = X11Client { ibw, ..self }.spec_border_shift(self.ibw, ibw);
                let c2 = X11Client { obw, ..c1 }.spec_border_shift(c1.obw, obw);
                &&& self.move_fits()
                &&& self.border_change_fits(self.ibw, ibw)
                &&& min_size(obw) <= u32::MAX
                &&& c1.border_change_fits(c1.obw, obw)
                &&& c2.frame_change_fits(fw)
            },
            None => true,
        }
    }

    /// Save the decorations and remove them (unless they are saved already).
    pub fn remove_decoration(&mut self)
        requires
            old(self).remove_decoration_fits(),
        ensures
            *final(self) == old(self).spec_without_decoration(),
    {
        if self.saved_decorations.is_none() {
            self.saved_decorations = Some((self.ibw, self.obw, self.fw));
            self.set_inner_bw(0);
            self.set_outer_bw(0);
            self.set_frame_width((0, 0, 0, 0));
        }
    }

    /// Put saved decorations back (if there are any).
    pub fn restore_decoration(&mut self)
        requires
            old(self).restore_decoration_fits(),
        ensures
            *final(self) == old(self).spec_with_decoration(),
    {
        if let Some((ibw, obw, fw)) = self.saved_decorations {
            self.set_inner_bw(ibw);
            self.set_outer_bw(obw);
            self.set_frame_width(fw);
            self.saved_decorations = None;
        }
    }

    /// The client made fullscreen on the given monitor.
    pub open spec fn spec_fullscreen(self, monitor: MonitorConfig) -> X11Client<A> {
        let c1 = X11Client {
            saved_dimensions: Some(self.spec_dims()),
            fullscreen: true,
            ..self
        };
        c1.spec_without_decoration().spec_moved(
            monitor.dims.x,
            monitor.dims.y,
            monitor.dims.w,
            monitor.dims.h,
        )
    }

    /// Making the client fullscreen stays within range.
    pub open spec fn fullscreen_fits(self) -> bool {
        let c1 = X11Client { saved_dimensions: Some(self.spec_dims()), fullscreen: true, ..self };
        &&& c1.remove_decoration_fits()
        &&& c1.spec_without_decoration().move_fits()
    }

    /// The client after leaving fullscreen.
    pub open spec fn spec_unfullscreen(self) -> X11Client<A> {
        match self.saved_dimensions {
            Some(d) => {
                let c1 = X11Client { fullscreen: false, ..self }.spec_with_decoration();
                X11Client { saved_dimensions: None, ..c1.spec_moved(d.x, d.y, d.w, d.h) }
            },
            None => self,
        }
    }

    /// Leaving fullscreen stays within range.
    pub open spec fn unfullscreen_fits(self) -> bool {
        self.saved_dimensions is Some ==> {
            let c1 = X11Client { fullscreen: false, ..self };
            &&& c1.restore_decoration_fits()
            &&& c1.spec_with_decoration().move_fits()
        }
    }

    /// Whether changing a border from `old_bw` to `bw` stays within `i32`.
    pub fn can_change_border(&self, old_bw: u32, bw: u32) -> (b: bool)
        ensures
            b == self.border_change_fits(old_bw, bw),
    {
        let diff = (bw as i32) as i64 - (old_bw as i32) as i64;
        let lo = i32::MIN as i64;
        let hi = i32::MAX as i64;
        let x = self.x as i64 - diff;
        let y = self.y as i64 - diff;
        let w = (self.w as i32) as i64 + 2 * diff;
        let h = (self.h as i32) as i64 + 2 * diff;
        lo <= diff && diff <= hi && lo <= x && x <= hi && lo <= y && y <= hi && lo <= 2 * diff && 2 * diff <= hi
            && lo <= w && w <= hi && lo <= h && h <= hi
    }

    /// Whether changing the frame widths to `fw` stays within `i32`.
    pub fn can_change_frame(&self, fw: (u32, u32, u32, u32)) -> (b: bool)
        ensures
            b == self.frame_change_fits(fw),
    {
        let dn = (fw.0 as i32) as i64 - (self.fw.0 as i32) as i64;
        let de = (fw.1 as i32) as i64 - (self.fw.1 as i32) as i64;
        let ds = (fw.2 as i32) as i64 - (self.fw.2 as i32) as i64;
        let dw = (fw.3 as i32) as i64 - (self.fw.3 as i32) as i64;
        let x = self.x as i64 - dw;
        let y = self.y as i64 - dn;
        let w = (self.w as i32) as i64 + de + dw;
        let h = (self.h as i32) as i64 + dn + ds;
        let we = (self.w as i32) as i64 + de;
        let hn = (self.h as i32) as i64 + dn;
        let lo = i32::MIN as i64;
        let hi = i32::MAX as i64;
        lo <= dn && dn <= hi && lo <= de && de <= hi && lo <= ds && ds <= hi && lo <= dw && dw <= hi && lo <= x
            && x <= hi && lo <= y && y <= hi && lo <= we && we <= hi && lo <= w && w <= hi && lo <= hn && hn <= hi
            && lo <= h && h <= hi
    }

    /// A copy of the client's geometry and decorations, without its name and attributes.
    fn geometry(&self) -> (c: X11Client<()>)
        ensures
            c.x == self.x && c.y == self.y && c.w == self.w && c.h == self.h,
            c.ibw == self.ibw && c.obw == self.obw && c.fw == self.fw,
            c.saved_decorations == self.saved_decorations,
            c.saved_dimensions == self.saved_dimensions,
            c.fullscreen == self.fullscreen,
    {
        X11Client {
            name: String::new(),
            root: self.root,
            window: self.window,
            frame: self.frame,
            title_window: self.title_window,
            attributes: (),
            orig_pos: self.orig_pos,
            x: self.x,
            y: self.y,
            w: self.w,
            h: self.h,
            ibw: self.ibw,
            obw: self.obw,
            fw: self.fw,
            actively_reparenting: self.actively_reparenting,
            dont_decorate: self.dont_decorate,
            fullscreen: self.fullscreen,
            is_dialog: self.is_dialog,
            visible: self.visible,
            frame_color: self.frame_color,
            saved_decorations: self.saved_decorations,
            saved_dimensions: self.saved_dimensions,
        }
    }

    /// The client after its borders and frame were set to `ibw`, `obw` and `fw`, one after
    /// the other (the client window keeps its place).
    pub open spec fn spec_decorated(self, ibw: u32, obw: u32, fw: (u32, u32, u32, u32)) -> X11Client<A> {
        let c1 = X11Client { ibw, ..self }.spec_border_shift(self.ibw, ibw);
        let c2 = X11Client { obw, ..c1 }.spec_border_shift(c1.obw, obw);
        c2.spec_with_frame(fw)
    }

    /// Setting the borders and the frame stays within range at every step.
    pub open spec fn decorate_fits(self, ibw: u32, obw: u32, fw: (u32, u32, u32, u32)) -> bool {
        let c1 = X11Client { ibw, ..self }.spec_border_shift(self.ibw, ibw);
        let c2 = X11Client { obw, ..c1 }.spec_border_shift(c1.obw, obw);
        &&& self.move_fits()
        &&& self.border_change_fits(self.ibw, ibw)
        &&& min_size(obw) <= u32::MAX
        &&& c1.border_change_fits(c1.obw, obw)
        &&& c2.frame_change_fits(fw)
    }

    /// Set the inner border, the outer border and the frame, one after the other.
    pub fn decorate(&mut self, ibw: u32, obw: u32, fw: (u32, u32, u32, u32))
        requires
            old(self).decorate_fits(ibw, obw, fw),
        ensures
            *final(self) == old(self).spec_decorated(ibw, obw, fw),
            final(self).ibw == ibw && final(self).obw == obw && final(self).fw == fw,
    {
        self.set_inner_bw(ibw);
        self.set_outer_bw(obw);
        self.set_frame_width(fw);
    }

    /// Whether setting the borders and the frame stays within range (see [X11Client::decorate]).
    pub fn can_decorate(&self, ibw: u32, obw: u32, fw: (u32, u32, u32, u32)) -> (b: bool)
        ensures
            b == self.decorate_fits(ibw, obw, fw),
    {
        let mut c = self.geometry();
        if !c.can_move() || !c.can_change_border(c.ibw, ibw) {
            return false;
        }
        if (obw as u64) * 2 + (WINDOW_MIN_SIZE as u64) > u32::MAX as u64 {
            return false;
        }
        c.set_inner_bw(ibw);
        if !c.can_change_border(c.obw, obw) {
            return false;
        }
        c.set_outer_bw(obw);
        c.can_change_frame(fw)
    }

    /// Whether making the client fullscreen stays within range (see [X11Client::set_fullscreen]).
    pub fn can_set_fullscreen(&self) -> (b: bool)
        ensures
            b == self.fullscreen_fits(),
    {
        if self.saved_decorations.is_some() {
            return self.can_move();
        }
        let mut c = self.geometry();
        c.saved_decorations = Some((c.ibw, c.obw, c.fw));
        if !c.can_move() || !c.can_change_border(c.ibw, 0) {
            return false;
        }
        c.set_inner_bw(0);
        if !c.can_change_border(c.obw, 0) {
            return false;
        }
        c.set_outer_bw(0);
        c.can_change_frame((0, 0, 0, 0))
    }

    /// Whether leaving fullscreen stays within range (see [X11Client::unset_fullscreen]).
    pub fn can_unset_fullscreen(&self) -> (b: bool)
        ensures
            b == self.unfullscreen_fits(),
    {
        if self.saved_dimensions.is_none() {
            return true;
        }
        match self.saved_decorations {
            None => self.can_move(),
            Some((ibw, obw, fw)) => {
                let mut c = self.geometry();
                c.fullscreen = false;
                if !c.can_move() || !c.can_change_border(c.ibw, ibw) {
                    return false;
                }
                if (obw as u64) * 2 + (WINDOW_MIN_SIZE as u64) > u32::MAX as u64 {
                    return false;
                }
                c.set_inner_bw(ibw);
                if !c.can_change_border(c.obw, obw) {
                    return false;
                }
                c.set_outer_bw(obw);
                c.can_change_frame(fw)
            },
        }
    }

    /// Make the client cover the whole monitor: remember its rectangle, drop its decorations and
    /// resize it to the monitor.
    pub fn set_fullscreen(&mut self, monitor_conf: &MonitorConfig)
        requires
            old(self).fullscreen_fits(),
        ensures
            *final(self) == old(self).spec_fullscreen(*monitor_conf),
    {
        let dimensions = monitor_conf.dimensions();
        self.saved_dimensions = Some(Dimensions::new(self.x, self.y, self.w, self.h));
        self.fullscreen = true;
        self.remove_decoration();
        self.move_resize(dimensions.x, dimensions.y, dimensions.w, dimensions.h);
    }

    /// Leave fullscreen: put the decorations and the remembered rectangle back.
    pub fn unset_fullscreen(&mut self)
        requires
            old(self).unfullscreen_fits(),
        ensures
            *final(self) == old(self).spec_unfullscreen(),
    {
        if let Some(dimensions) = self.saved_dimensions {
            self.fullscreen = false;
            self.restore_decoration();
            self.move_resize(dimensions.x, dimensions.y, dimensions.w, dimensions.h);
            self.saved_dimensions = None;
        }
    }
}

impl<A> Dimensioned for X11Client<A> {
    open spec fn spec_dimensions(&self) -> Dimensions {
        self.spec_dims()
    }

    open spec fn settable(&self) -> bool {
        self.move_fits()
    }

    fn x(&self) -> (r: i32) {
        self.x
    }

    fn y(&self) -> (r: i32) {
        self.y
    }

    fn w(&self) -> (r: u32) {
        self.w
    }

    fn h(&self) -> (r: u32) {
        self.h
    }

    fn pos(&self) -> (r: (i32, i32)) {
        (self.x, self.y)
    }

    fn size(&self) -> (r: (u32, u32)) {
        (self.w, self.h)
    }

    fn set_x(&mut self, x: i32)
        ensures
            *final(self) == old(self).spec_moved(x, old(self).y, old(self).w, old(self).h),
    {
        let (y, w, h) = (self.y, self.w, self.h);
        self.move_resize(x, y, w, h);
    }

    fn set_y(&mut self, y: i32)
        ensures
            *final(self) == old(self).spec_moved(old(self).x, y, old(self).w, old(self).h),
    {
        let (x, w, h) = (self.x, self.w, self.h);
        self.move_resize(x, y, w, h);
    }

    fn set_w(&mut self, w: u32)
        ensures
            *final(self) == old(self).spec_moved(old(self).x, old(self).y, w, old(self).h),
    {
        let (x, y, h) = (self.x, self.y, self.h);
        self.move_resize(x, y, w, h);
    }

    fn set_h(&mut self, h: u32)
        ensures
            *final(self) == old(self).spec_moved(old(self).x, old(self).y, old(self).w, h),
    {
        let (x, y, w) = (self.x, self.y, self.w);
        self.move_resize(x, y, w, h);
    }

    fn set_pos(&mut self, pos: (i32, i32))
        ensures
            *final(self) == old(self).spec_moved(pos.0, pos.1, old(self).w, old(self).h),
    {
        let (w, h) = (self.w, self.h);
        self.move_resize(pos.0, pos.1, w, h);
    }

    fn set_size(&mut self, size: (u32, u32))
        ensures
            *final(self) == old(self).spec_moved(old(self).x, old(self).y, size.0, size.1),
    {
        let (x, y) = (self.x, self.y);
        self.move_resize(x, y, size.0, size.1);
    }

    fn dimensions(&self) -> (r: Dimensions) {
        Dimensions::new(self.x, self.y, self.w, self.h)
    }
}

/// Two clients are the same client when they have the same frame window.
impl<A> PartialEq for X11Client<A> {
    fn eq(&self, other: &Self) -> (r: bool) {
        self.frame == other.frame
    }
}

impl<A> vstd::std_specs::cmp::PartialEqSpecImpl for X11Client<A> {
    open spec fn obeys_eq_spec() -> bool {
        true
    }

    open spec fn eq_spec(&self, other: &Self) -> bool {
        self.frame == other.frame
    }
}

/// A snapshot of the flags of a client that the workspace logic reads, keyed by its frame.
#[derive(Clone, Copy, Debug, PartialEq, Eq, Structural)]
pub struct ClientFlags {
    pub id: u64,
    pub is_floating: bool,
    pub is_dialog: bool,
    pub is_fullscreen: bool,
    pub is_pinned: bool,
}

/// The flags of the first entry for `id` in the table; all flags unset when there is none.
pub open spec fn flags_of(table: Seq<ClientFlags>, id: u64) -> ClientFlags
    decreases table.len(),
{
    if table.len() == 0 {
        ClientFlags {
            id,
            is_floating: false,
            is_dialog: false,
            is_fullscreen: false,
            is_pinned: false,
        }
    } else if table[0].id == id {
        table[0]
    } else {
        flags_of(table.drop_first(), id)
    }
}

/// The flags of the first entry for `id` in the table; all flags unset when there is none.
pub fn lookup_flags(table: &Vec<ClientFlags>, id: u64) -> (f: ClientFlags)
    ensures
        f == flags_of(table@, id),
{
    let mut i: usize = 0;
    assert(table@.subrange(0, table@.len() as int) =~= table@);
    while i < table.len()
        invariant
            i <= table@.len(),
            flags_of(table@, id) == flags_of(table@.subrange(i as int, table@.len() as int), id),
        decreases table@.len() - i,
    {
        assert(table@.subrange(i as int, table@.len() as int).drop_first() =~= table@.subrange(
            i + 1,
            table@.len() as int,
        ));
        if table[i].id == id {
            return table[i];
        }
        i += 1;
    }
    ClientFlags { id, is_floating: false, is_dialog: false, is_fullscreen: false, is_pinned: false }
}

impl X11Client<Attributes> {
    /// The flags of this client, keyed by its frame.
    pub open spec fn spec_flags(self) -> ClientFlags {
        ClientFlags {
            id: self.frame,
            is_floating: self.attributes.is_floating,
            is_dialog: self.is_dialog,
            is_fullscreen: self.fullscreen,
            is_pinned: self.attributes.is_pinned,
        }
    }

    /// The flags of this client, keyed by its frame.
    pub fn flags(&self) -> (f: ClientFlags)
        ensures
            f == self.spec_flags(),
    {
        ClientFlags {
            id: self.frame,
            is_floating: self.attributes.is_floating,
            is_dialog: self.is_dialog,
            is_fullscreen: self.fullscreen,
            is_pinned: self.attributes.is_pinned,
        }
    }
}

/// The value of `_NET_WM_DESKTOP` that marks a window as pinned to all workspaces.
pub const PINNED_DESKTOP: u64 = 0xffff_ffff;

/// The value to export as the desktop of a client: all desktops when pinned, else its
/// workspace.
pub fn pinned_desktop_value(state: bool, workspace_idx: Option<u32>) -> (v: u64)
    requires
        state || workspace_idx is Some,
    ensures
        v == if state {
            PINNED_DESKTOP as int
        } else {
            workspace_idx.unwrap() as int
        },
{
    if state {
        PINNED_DESKTOP
    } else {
        workspace_idx.unwrap() as u64
    }
}

/// A value lies within `-bound..=bound`.
pub open spec fn within(v: int, bound: int) -> bool {
    -bound <= v <= bound
}

/// The client is of moderate size: coordinates and sizes well inside the `i32` range, borders
/// and frames of at most 65535 pixels, and room for its borders and frame plus the minimum
/// size.
pub open spec fn moderate<A>(c: X11Client<A>) -> bool {
    &&& within(c.x as int, 0x1000_0000)
    &&& within(c.y as int, 0x1000_0000)
    &&& c.w <= 0x1000_0000
    &&& c.h <= 0x1000_0000
    &&& c.ibw <= 0xffff && c.obw <= 0xffff
    &&& c.fw.0 <= 0xffff && c.fw.1 <= 0xffff && c.fw.2 <= 0xffff && c.fw.3 <= 0xffff
    &&& c.w >= 2 * c.ibw + 2 * c.obw + c.fw.1 + c.fw.3 + WINDOW_MIN_SIZE
    &&& c.h >= 2 * c.ibw + 2 * c.obw + c.fw.0 + c.fw.2 + WINDOW_MIN_SIZE
}

/// Making a client fullscreen and then leaving fullscreen gives back the client as it was:
/// same rectangle, same borders and frame, nothing left saved.
#[verifier::spinoff_prover]
#[verifier::rlimit(40)]
pub proof fn lemma_fullscreen_roundtrip<A>(c: X11Client<A>, monitor: MonitorConfig)
    requires
        moderate(c),
        !c.fullscreen,
        c.saved_dimensions is None,
        c.saved_decorations is None,
        within(monitor.dims.x as int, 0x1000_0000),
        within(monitor.dims.y as int, 0x1000_0000),
        monitor.dims.w <= 0x1000_0000,
        monitor.dims.h <= 0x1000_0000,
    ensures
        c.fullscreen_fits(),
        c.spec_fullscreen(monitor).unfullscreen_fits(),
        c.spec_fullscreen(monitor).spec_unfullscreen() == c,
{
    assert(signed(c.ibw) == c.ibw);
    assert(signed(c.obw) == c.obw);
    assert(signed(c.fw.0) == c.fw.0 && signed(c.fw.1) == c.fw.1);
    assert(signed(c.fw.2) == c.fw.2 && signed(c.fw.3) == c.fw.3);
    assert(signed(0) == 0);
    assert(signed(c.w) == c.w && signed(c.h) == c.h);
    let c1 = X11Client { saved_dimensions: Some(c.spec_dims()), fullscreen: true, ..c };
    let d1 = X11Client { saved_decorations: Some((c1.ibw, c1.obw, c1.fw)), ..c1 };
    let d2 = X11Client { ibw: 0, ..d1 }.spec_border_shift(d1.ibw, 0);
    assert(d1.border_change_fits(d1.ibw, 0));
    assert(d2.w <= 0x1000_0000 && d2.h <= 0x1000_0000);
    assert(signed(d2.w) == d2.w && signed(d2.h) == d2.h);
    let d3 = X11Client { obw: 0, ..d2 }.spec_border_shift(d2.obw, 0);
    assert(d2.border_change_fits(d2.obw, 0));
    assert(d3.w <= 0x1000_0000 && d3.h <= 0x1000_0000);
    assert(signed(d3.w) == d3.w && signed(d3.h) == d3.h);
    assert(d3.frame_change_fits((0, 0, 0, 0)));
    assert(c1.remove_decoration_fits());
    let f = c.spec_fullscreen(monitor);
    assert(f.obw == 0 && f.ibw == 0 && f.fw == (0u32, 0u32, 0u32, 0u32));
    assert(f.w == if monitor.dims.w < 40 { 40 } else { monitor.dims.w });
    assert(signed(f.w) == f.w && signed(f.h) == f.h);
    let u0 = X11Client { fullscreen: false, ..f };
    let u1 = X11Client { ibw: c.ibw, ..u0 }.spec_border_shift(u0.ibw, c.ibw);
    assert(u0.border_change_fits(u0.ibw, c.ibw));
    assert(u1.w <= 0x1004_0000 && u1.h <= 0x1004_0000);
    assert(signed(u1.w) == u1.w && signed(u1.h) == u1.h);
    let u2 = X11Client { obw: c.obw, ..u1 }.spec_border_shift(u1.obw, c.obw);
    assert(u1.border_change_fits(u1.obw, c.obw));
    assert(u2.w <= 0x1008_0000 && u2.h <= 0x1008_0000);
    assert(signed(u2.w) == u2.w && signed(u2.h) == u2.h);
    assert(u2.frame_change_fits(c.fw));
    assert(u0.restore_decoration_fits());
    assert(f.unfullscreen_fits());
    assert(f.spec_unfullscreen() =~= c) by {
        assert(f.spec_unfullscreen().x == c.x);
        assert(f.spec_unfullscreen().w == c.w);
    }
}

/// Removing the decorations of a client and putting them back gives back the client as it was:
/// same rectangle, same borders and frame, nothing left saved.
#[verifier::spinoff_prover]
#[verifier::rlimit(40)]
pub proof fn lemma_decoration_roundtrip<A>(c: X11Client<A>)
    requires
        moderate(c),
        c.saved_decorations is None,
    ensures
        c.remove_decoration_fits(),
        c.spec_without_decoration().restore_decoration_fits(),
        c.spec_without_decoration().spec_with_decoration() == c,
{
    assert(signed(c.ibw) == c.ibw);
    assert(signed(c.obw) == c.obw);
    assert(signed(c.fw.0) == c.fw.0 && signed(c.fw.1) == c.fw.1);
    assert(signed(c.fw.2) == c.fw.2 && signed(c.fw.3) == c.fw.3);
    assert(signed(0) == 0);
    assert(signed(c.w) == c.w && signed(c.h) == c.h);
    let d1 = X11Client { saved_decorations: Some((c.ibw, c.obw, c.fw)), ..c };
    let d2 = X11Client { ibw: 0, ..d1 }.spec_border_shift(d1.ibw, 0);
    assert(d1.border_change_fits(d1.ibw, 0));
    assert(d2.w <= 0x1000_0000 && d2.h <= 0x1000_0000);
    assert(signed(d2.w) == d2.w && signed(d2.h) == d2.h);
    let d3 = X11Client { obw: 0, ..d2 }.spec_border_shift(d2.obw, 0);
    assert(d2.border_change_fits(d2.obw, 0));
    assert(d3.w <= 0x1000_0000 && d3.h <= 0x1000_0000);
    assert(signed(d3.w) == d3.w && signed(d3.h) == d3.h);
    assert(d3.frame_change_fits((0, 0, 0, 0)));
    assert(c.remove_decoration_fits());
    let f = c.spec_without_decoration();
    assert(f.obw == 0 && f.ibw == 0 && f.fw == (0u32, 0u32, 0u32, 0u32));
    assert(signed(f.w) == f.w && signed(f.h) == f.h);
    let u1 = X11Client { ibw: c.ibw, ..f }.spec_border_shift(f.ibw, c.ibw);
    assert(f.border_change_fits(f.ibw, c.ibw));
    assert(u1.w <= 0x1004_0000 && u1.h <= 0x1004_0000);
    assert(signed(u1.w) == u1.w && signed(u1.h) == u1.h);
    let u2 = X11Client { obw: c.obw, ..u1 }.spec_border_shift(u1.obw, c.obw);
    assert(u1.border_change_fits(u1.obw, c.obw));
    assert(u2.w <= 0x1008_0000 && u2.h <= 0x1008_0000);
    assert(signed(u2.w) == u2.w && signed(u2.h) == u2.h);
    assert(u2.frame_change_fits(c.fw));
    assert(f.restore_decoration_fits());
    assert(f.spec_with_decoration() =~= c) by {
        assert(f.spec_with_decoration().x == c.x);
        assert(f.spec_with_decoration().w == c.w);
    }
}

} // verus!
