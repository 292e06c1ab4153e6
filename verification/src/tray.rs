//! The geometry of the system tray: a row of icons of the same size that applications dock
//! into the bar.
use vstd::prelude::*;

use crate::geometry::i32_max;
use crate::seqs::lemma_filter_out_pushed;
use crate::numbers::{decimal_string, spec_decimal};
use crate::workspace::lemma_filter_step;
use crate::widget::{clamp, clamp_u32, Widget, MAX_HEIGHT, MAX_WIDTH, MIN_HEIGHT, MIN_WIDTH};

verus! {

/// Opcode of a tray message that asks to dock an icon.
pub const SYSTEM_TRAY_REQUEST_DOCK: i64 = 0;

/// The state of a system tray.
pub struct SystemTrayView {
    pub window: u64,
    pub tray_icons: Seq<u64>,
    pub pos: (i32, i32),
    pub width: u32,
    pub height: u32,
    pub min_size: (u32, u32),
    pub max_size: (u32, u32),
    pub icon_width: u32,
    pub ipad: u32,
    pub hpad: u32,
    pub vpad: u32,
    pub bg_color: u64,
}

/// A system tray widget.
pub struct SystemTrayWidget {
    window: u64,
    tray_icons: Vec<u64>,
    pos: (i32, i32),
    width: u32,
    height: u32,
    min_size: (u32, u32),
    max_size: (u32, u32),
    icon_width: u32,
    ipad: u32,
    hpad: u32,
    vpad: u32,
    bg_color: u64,
}

impl View for SystemTrayWidget {
    type V = SystemTrayView;

    closed spec fn view(&self) -> SystemTrayView {
        SystemTrayView {
            window: self.window,
            tray_icons: self.tray_icons@,
            pos: self.pos,
            width: self.width,
            height: self.height,
            min_size: self.min_size,
            max_size: self.max_size,
            icon_width: self.icon_width,
            ipad: self.ipad,
            hpad: self.hpad,
            vpad: self.vpad,
            bg_color: self.bg_color,
        }
    }
}

/// Where icon `i` of the tray goes.
pub open spec fn icon_pos(v: SystemTrayView, i: int) -> (i32, i32) {
    ((v.hpad + i * (v.icon_width + v.ipad)) as i32, v.vpad as i32)
}

/// The size of the tray with its icons: the icons with the inner padding between them and the
/// outer padding around them (the smallest width without icons), kept between the smallest
/// and largest size.
pub open spec fn tray_size(v: SystemTrayView) -> (u32, u32) {
    let n = v.tray_icons.len();
    let w = if n > 0 {
        n * (v.icon_width + v.ipad) - v.ipad + 2 * v.hpad
    } else {
        v.min_size.0 as int
    };
    (clamp(w, v.min_size.0, v.max_size.0), clamp(v.height as int, v.min_size.1, v.max_size.1))
}

/// `count` icons fit into the tray without overflow.
pub open spec fn icons_fit(v: SystemTrayView, count: int) -> bool {
    v.hpad + count * (v.icon_width + v.ipad) + v.hpad <= i32_max()
}

/// The error message for a vertical padding that does not fit into the height.
pub open spec fn padding_error(height: u32, vpad: u32) -> Seq<char> {
    "Padding bigger than height (h: "@ + spec_decimal(height as nat) + ", vpad: "@ + spec_decimal(
        vpad as nat,
    ) + ")"@
}

/// The product grows with its factor.
proof fn lemma_mul_mono(a: int, b: int, c: int)
    requires
        0 <= a <= b,
        0 <= c,
    ensures
        0 <= a * c <= b * c,
{
    assert(a * c <= b * c) by (nonlinear_arith)
        requires
            0 <= a <= b,
            0 <= c,
    ;
    assert(0 <= a * c) by (nonlinear_arith)
        requires
            0 <= a,
            0 <= c,
    ;
}

impl SystemTrayWidget {
    /// The icons fit and the sizes are consistent.
    pub open spec fn wf(&self) -> bool {
        &&& icons_fit(self@, self@.tray_icons.len() as int)
        &&& self@.min_size.1 <= i32_max()
    }

    /// A tray in `window` at `(x, y)` of the given height, with icons as high as the height
    /// without the vertical padding. Fails when the padding does not fit into the height.
    pub fn new(window: u64, x: i32, y: i32, height: u32, ipad: u32, hpad: u32, vpad: u32, bg_color: u64) -> (r:
        Result<SystemTrayWidget, String>)
        requires
            2 * vpad <= u32::MAX,
            2 * hpad <= i32_max(),
        ensures
            r is Err <==> height < 2 * vpad,
            r matches Err(msg) ==> msg@ == padding_error(height, vpad),
            r matches Ok(t) ==> {
                &&& t.wf()
                &&& t@ == (SystemTrayView {
                    window,
                    tray_icons: Seq::empty(),
                    pos: (x, y),
                    width: height,
                    height,
                    min_size: (MIN_WIDTH, MIN_HEIGHT),
                    max_size: (MAX_WIDTH, MAX_HEIGHT),
                    icon_width: (height - 2 * vpad) as u32,
                    ipad,
                    hpad,
                    vpad,
                    bg_color,
                })
            },
    {
        if height < 2 * vpad {
            let mut msg = "Padding bigger than height (h: ".to_string();
            let h = decimal_string(height as u64);
            msg.append(h.as_str());
            msg.append(", vpad: ");
            let v = decimal_string(vpad as u64);
            msg.append(v.as_str());
            msg.append(")");
            return Err(msg);
        }
        let t = SystemTrayWidget {
            window,
            tray_icons: Vec::new(),
            pos: (x, y),
            width: height,
            height,
            min_size: (MIN_WIDTH, MIN_HEIGHT),
            max_size: (MAX_WIDTH, MAX_HEIGHT),
            icon_width: height - 2 * vpad,
            ipad,
            hpad,
            vpad,
            bg_color,
        };
        assert(0 * (t.icon_width + ipad) == 0);
        Ok(t)
    }

    /// Dock an icon at the end of the tray; returns where the icon goes.
    fn dock(&mut self, tray_icon: u64) -> (p: (i32, i32))
        requires
            old(self).wf(),
            icons_fit(old(self)@, old(self)@.tray_icons.len() + 1int),
        ensures
            final(self).wf(),
            p == icon_pos(old(self)@, old(self)@.tray_icons.len() as int),
            final(self)@ == (SystemTrayView {
                tray_icons: old(self)@.tray_icons.push(tray_icon),
                width: tray_size(SystemTrayView { tray_icons: old(self)@.tray_icons.push(tray_icon), ..old(self)@ }).0,
                height: tray_size(SystemTrayView { tray_icons: old(self)@.tray_icons.push(tray_icon), ..old(self)@ }).1,
                ..old(self)@
            }),
    {
        let n = self.tray_icons.len();
        proof {
            lemma_mul_mono(n as int, n + 1, (self.icon_width + self.ipad) as int);
            lemma_mul_mono(1, n + 1, (self.icon_width + self.ipad) as int);
        }
        let step = (self.icon_width + self.ipad) as usize;
        let x = (self.hpad as usize + n * step) as i32;
        let y = self.vpad as i32;
        self.tray_icons.push(tray_icon);
        self.resize_to_content();
        (x, y)
    }

    /// What a tray message asks for: with the dock opcode on this tray's window, dock the icon;
    /// returns the docked icon and where it goes.
    pub fn handle_systray_event(&mut self, window: u64, opcode: i64, icon: i64) -> (r: Option<(u64, i32, i32)>)
        requires
            old(self).wf(),
            icons_fit(old(self)@, old(self)@.tray_icons.len() + 1int),
        ensures
            final(self).wf(),
            r is Some <==> window == old(self)@.window && opcode == SYSTEM_TRAY_REQUEST_DOCK,
            r is None ==> final(self)@ == old(self)@,
            r matches Some(d) ==> {
                let docked = SystemTrayView { tray_icons: old(self)@.tray_icons.push(icon as u64), ..old(self)@ };
                &&& d.0 == icon as u64
                &&& (d.1, d.2) == icon_pos(old(self)@, old(self)@.tray_icons.len() as int)
                &&& final(self)@ == (SystemTrayView {
                    width: tray_size(docked).0,
                    height: tray_size(docked).1,
                    ..docked
                })
            },
    {
        if window != self.window {
            return None;
        }
        if opcode == SYSTEM_TRAY_REQUEST_DOCK {
            let icon = icon as u64;
            let (x, y) = self.dock(icon);
            Some((icon, x, y))
        } else {
            None
        }
    }

    /// An icon of the tray (reported on `event_window`) went away: it leaves the tray, the
    /// others move up; returns the new place of every icon.
    pub fn handle_icon_destroyed(&mut self, event_window: u64, icon: u64) -> (moves: Vec<(u64, i32, i32)>)
        requires
            old(self).wf(),
        ensures
            final(self).wf(),
            event_window != old(self)@.window ==> final(self)@ == old(self)@ && moves@.len() == 0,
            event_window == old(self)@.window ==> {
                &&& final(self)@.tray_icons == old(self)@.tray_icons.filter(|w: u64| w != icon)
                &&& moves@.len() == final(self)@.tray_icons.len()
                &&& forall|i: int| 0 <= i < moves@.len() ==> #[trigger] moves@[i] == (
                    final(self)@.tray_icons[i],
                    icon_pos(final(self)@, i).0,
                    icon_pos(final(self)@, i).1,
                )
                &&& (final(self)@.width, final(self)@.height) == tray_size(
                    SystemTrayView { width: old(self)@.width, height: old(self)@.height, ..final(self)@ },
                )
            },
    {
        let mut moves: Vec<(u64, i32, i32)> = Vec::new();
        if event_window != self.window {
            return moves;
        }
        let ghost o = self@;
        let ghost f = |w: u64| w != icon;
        let mut kept: Vec<u64> = Vec::new();
        let mut i: usize = 0;
        assert(o.tray_icons.take(0) =~= Seq::<u64>::empty());
        while i < self.tray_icons.len()
            invariant
                i <= self.tray_icons@.len(),
                self@ == o,
                f == (|w: u64| w != icon),
                kept@ == o.tray_icons.take(i as int).filter(f),
                kept@.len() <= i,
            decreases self.tray_icons@.len() - i,
        {
            proof {
                lemma_filter_step(o.tray_icons, i as int, f);
            }
            if self.tray_icons[i] != icon {
                kept.push(self.tray_icons[i]);
            }
            i += 1;
        }
        assert(o.tray_icons.take(o.tray_icons.len() as int) =~= o.tray_icons);
        self.tray_icons = kept;
        let ghost n = self.tray_icons@.len();
        proof {
            lemma_mul_mono(n as int, o.tray_icons.len() as int, (o.icon_width + o.ipad) as int);
        }
        let mut k: usize = 0;
        while k < self.tray_icons.len()
            invariant
                k <= self.tray_icons@.len(),
                self@ == (SystemTrayView { tray_icons: self@.tray_icons, ..o }),
                self@.tray_icons.len() == n,
                icons_fit(self@, n as int),
                moves@.len() == k,
                forall|q: int| 0 <= q < k ==> #[trigger] moves@[q] == (
                    self@.tray_icons[q],
                    icon_pos(self@, q).0,
                    icon_pos(self@, q).1,
                ),
            decreases self.tray_icons@.len() - k,
        {
            proof {
                lemma_mul_mono(k as int, n as int, (o.icon_width + o.ipad) as int);
                lemma_mul_mono(1, n as int, (o.icon_width + o.ipad) as int);
            }
            let step = (self.icon_width + self.ipad) as usize;
            let x = (self.hpad as usize + k * step) as i32;
            moves.push((self.tray_icons[k], x, self.vpad as i32));
            k += 1;
        }
        self.resize_to_content();
        moves
    }

    /// Size the tray to its icons (see [tray_size]).
    fn resize_to_content(&mut self)
        requires
            icons_fit(old(self)@, old(self)@.tray_icons.len() as int),
        ensures
            final(self)@ == (SystemTrayView {
                width: tray_size(old(self)@).0,
                height: tray_size(old(self)@).1,
                ..old(self)@
            }),
    {
        let n = self.tray_icons.len();
        let w = if n > 0 {
            proof {
                lemma_mul_mono(1, n as int, (self.icon_width + self.ipad) as int);
            }
            let step = (self.icon_width + self.ipad) as usize;
            (n * step - self.ipad as usize + 2 * self.hpad as usize) as u32
        } else {
            self.min_size.0
        };
        self.width = clamp_u32(w, self.min_size.0, self.max_size.0);
        self.height = clamp_u32(self.height, self.min_size.1, self.max_size.1);
    }

    /// Whether one more icon fits into the tray (see [SystemTrayWidget::handle_systray_event]).
    pub fn can_dock(&self) -> (b: bool)
        ensures
            b == icons_fit(self@, self@.tray_icons.len() + 1int),
    {
        let n = self.tray_icons.len() as u64;
        let step = self.icon_width as u64 + self.ipad as u64;
        let ghost count = self@.tray_icons.len() + 1int;
        if n >= 0x8000_0000 {
            if step == 0 {
                assert(count * step == 0) by (nonlinear_arith)
                    requires
                        step == 0,
                ;
                return 2 * (self.hpad as u64) <= i32::MAX as u64;
            }
            assert(count * step >= count) by (nonlinear_arith)
                requires
                    step >= 1,
                    count >= 1,
            ;
            return false;
        }
        if step > i32::MAX as u64 {
            assert(count * step >= step) by (nonlinear_arith)
                requires
                    step >= 0,
                    count >= 1,
            ;
            return false;
        }
        assert(count * step <= 0x8000_0000 * 0x8000_0000) by (nonlinear_arith)
            requires
                0 <= step <= 0x8000_0000,
                0 <= count <= 0x8000_0000,
        ;
        (self.hpad as u64) + (n + 1) * step + (self.hpad as u64) <= i32::MAX as u64
    }

    /// The size the tray takes with the largest size `max_size` (see [tray_size]).
    pub fn size_with_max(&self, max_size: (u32, u32)) -> (s: (u32, u32))
        requires
            self.wf(),
        ensures
            s == tray_size(SystemTrayView { max_size, ..self@ }),
    {
        let n = self.tray_icons.len();
        let w = if n > 0 {
            proof {
                lemma_mul_mono(1, n as int, (self.icon_width + self.ipad) as int);
            }
            let step = (self.icon_width + self.ipad) as usize;
            (n * step - self.ipad as usize + 2 * self.hpad as usize) as u32
        } else {
            self.min_size.0
        };
        (clamp_u32(w, self.min_size.0, max_size.0), clamp_u32(self.height, self.min_size.1, max_size.1))
    }

    /// Whether no icon is docked.
    pub fn is_empty(&self) -> (b: bool)
        ensures
            b == (self@.tray_icons.len() == 0),
    {
        self.tray_icons.len() == 0
    }

    /// The docked icons.
    pub fn icons(&self) -> (i: &Vec<u64>)
        ensures
            i@ == self@.tray_icons,
    {
        &self.tray_icons
    }
}

/// A moved tray keeps everything but its position.
pub proof fn lemma_tray_at(t: SystemTrayWidget, x: i32, y: i32)
    ensures
        t.spec_at(x, y)@ == (SystemTrayView { pos: (x, y), ..t@ }),
{
}

impl Widget for SystemTrayWidget {
    open spec fn spec_size(&self) -> (u32, u32) {
        (self@.width, self@.height)
    }

    open spec fn spec_pos(&self) -> (i32, i32) {
        self@.pos
    }

    open spec fn spec_wid(&self) -> u64 {
        self@.window
    }

    open spec fn well_formed(&self) -> bool {
        self.wf()
    }

    open spec fn spec_route(&self, window: u64) -> Option<u64> {
        if window == self@.window {
            Some(window)
        } else {
            None
        }
    }

    closed spec fn spec_at(&self, x: i32, y: i32) -> SystemTrayWidget {
        SystemTrayWidget { pos: (x, y), ..*self }
    }

    proof fn lemma_at(&self, x: i32, y: i32) {
    }

    fn move_to(&mut self, x: i32, y: i32) {
        self.pos = (x, y);
    }

    fn set_max_size(&mut self, max_size: (u32, u32))
        ensures
            final(self)@ == (SystemTrayView {
                width: tray_size(SystemTrayView { max_size, ..old(self)@ }).0,
                height: tray_size(SystemTrayView { max_size, ..old(self)@ }).1,
                max_size,
                ..old(self)@
            }),
    {
        self.max_size = max_size;
        self.resize_to_content();
    }

    fn set_min_size(&mut self, min_size: (u32, u32))
        ensures
            final(self)@ == (SystemTrayView {
                width: tray_size(SystemTrayView { min_size, ..old(self)@ }).0,
                height: tray_size(SystemTrayView { min_size, ..old(self)@ }).1,
                min_size,
                ..old(self)@
            }),
    {
        self.min_size = min_size;
        self.resize_to_content();
    }

    fn size(&self) -> (s: (u32, u32)) {
        (self.width, self.height)
    }

    fn wid(&self) -> (w: u64) {
        self.window
    }

    fn pos(&self) -> (p: (i32, i32)) {
        self.pos
    }

    fn handle_xevent(&self, window: u64) -> (r: Option<u64>) {
        if window == self.window {
            Some(window)
        } else {
            None
        }
    }
}

/// Docking an icon that is not in the tray and then losing it leaves the tray's icons as they
/// were.
pub proof fn lemma_dock_then_gone(v: SystemTrayView, icon: u64)
    requires
        !v.tray_icons.contains(icon),
    ensures
        v.tray_icons.push(icon).filter(|w: u64| w != icon) == v.tray_icons,
{
    lemma_filter_out_pushed(v.tray_icons, icon);
}

} // verus!
