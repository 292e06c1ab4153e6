//! The geometry of the widgets of the status bar: text labels, a row of widgets (flow layout)
//! and the system tray. The widgets keep their sizes and positions here; drawing them and
//! measuring text is left to the caller, who hands in the size of a label's text.
use vstd::prelude::*;

use crate::client::half_trunc;
use crate::geometry::i32_max;

verus! {

/// Smallest width of a widget.
pub const MIN_WIDTH: u32 = 10;

/// Smallest height of a widget.
pub const MIN_HEIGHT: u32 = 10;

/// Largest width of a widget.
pub const MAX_WIDTH: u32 = 0xffff_ffff;

/// Largest height of a widget.
pub const MAX_HEIGHT: u32 = 0xffff_ffff;

/// An event that a widget hands to its event handlers.
#[derive(Clone, Copy, Debug, PartialEq, Eq, Structural)]
pub enum WidgetEvent {
    ButtonPressed(u32),
    Redraw(),
}

/// The part of an X event on a widget window that widgets look at.
#[derive(Clone, Copy, Debug, PartialEq, Eq, Structural)]
pub enum XEventKind {
    ButtonPress(u32),
    Expose,
    Other,
}

/// The event a widget hands to its handlers for an X event on its window: a button press is
/// passed on, anything else is not (an expose only asks for a redraw).
pub fn widget_event(kind: XEventKind) -> (e: Option<WidgetEvent>)
    ensures
        e == match kind {
            XEventKind::ButtonPress(b) => Some(WidgetEvent::ButtonPressed(b)),
            _ => None,
        },
{
    match kind {
        XEventKind::ButtonPress(b) => Some(WidgetEvent::ButtonPressed(b)),
        _ => None,
    }
}

/// A value kept between a lower and an upper bound (the upper bound wins when they cross).
pub open spec fn clamp(v: int, lo: u32, hi: u32) -> u32 {
    let at_least = if v < lo { lo as int } else { v };
    if at_least > hi { hi } else { at_least as u32 }
}

/// `min(max(v, lo), hi)` on `u32`.
pub fn clamp_u32(v: u32, lo: u32, hi: u32) -> (r: u32)
    ensures
        r == clamp(v as int, lo, hi),
{
    let at_least = if v < lo {
        lo
    } else {
        v
    };
    if at_least > hi {
        hi
    } else {
        at_least
    }
}

/// A widget: a window of the bar with a size and a position in its parent.
pub trait Widget: Sized {
    /// The size of the widget.
    spec fn spec_size(&self) -> (u32, u32);

    /// The position of the widget in its parent.
    spec fn spec_pos(&self) -> (i32, i32);

    /// The window of the widget.
    spec fn spec_wid(&self) -> u64;

    /// The sizes of the widget can be computed without overflow.
    spec fn well_formed(&self) -> bool;

    /// The window of the widget that takes an event on `window`, if any.
    spec fn spec_route(&self, window: u64) -> Option<u64>;

    /// The widget moved to `(x, y)` in its parent.
    spec fn spec_at(&self, x: i32, y: i32) -> Self;

    /// Moving a widget changes its position and nothing else that is seen from outside.
    proof fn lemma_at(&self, x: i32, y: i32)
        ensures
            self.spec_at(x, y).spec_pos() == (x, y),
            self.spec_at(x, y).spec_size() == self.spec_size(),
            self.spec_at(x, y).spec_wid() == self.spec_wid(),
            self.spec_at(x, y).well_formed() == self.well_formed(),
            forall|w: u64| #[trigger] self.spec_at(x, y).spec_route(w) == self.spec_route(w),
    ;

    fn move_to(&mut self, x: i32, y: i32)
        ensures
            *final(self) == old(self).spec_at(x, y),
    ;

    fn set_max_size(&mut self, max_size: (u32, u32))
        requires
            old(self).well_formed(),
        ensures
            final(self).well_formed(),
            final(self).spec_pos() == old(self).spec_pos(),
            final(self).spec_wid() == old(self).spec_wid(),
    ;

    fn set_min_size(&mut self, min_size: (u32, u32))
        requires
            old(self).well_formed(),
            min_size.1 <= i32_max(),
        ensures
            final(self).well_formed(),
            final(self).spec_pos() == old(self).spec_pos(),
            final(self).spec_wid() == old(self).spec_wid(),
    ;

    fn size(&self) -> (s: (u32, u32))
        ensures
            s == self.spec_size(),
    ;

    fn wid(&self) -> (w: u64)
        ensures
            w == self.spec_wid(),
    ;

    /// The position of the widget in its parent, where its window is to be moved.
    fn pos(&self) -> (p: (i32, i32))
        ensures
            p == self.spec_pos(),
    ;

    /// The window of the widget that takes an event on `window`, if any.
    fn handle_xevent(&self, window: u64) -> (r: Option<u64>)
        ensures
            r == self.spec_route(window),
    ;
}

/// The first of the widgets that takes an event on `window`.
pub open spec fn spec_distribute<W: Widget>(widgets: Seq<W>, window: u64) -> Option<u64>
    decreases widgets.len(),
{
    if widgets.len() == 0 {
        None
    } else {
        match widgets[0].spec_route(window) {
            Some(w) => Some(w),
            None => spec_distribute(widgets.drop_first(), window),
        }
    }
}

/// Offer an event on `window` to the widgets in turn; the window of the first widget that
/// takes it, if any.
pub fn distribute_widget_event<W: Widget>(widgets: &Vec<W>, window: u64) -> (r: Option<u64>)
    ensures
        r == spec_distribute(widgets@, window),
{
    let mut i: usize = 0;
    assert(widgets@.skip(0) =~= widgets@);
    while i < widgets.len()
        invariant
            i <= widgets@.len(),
            spec_distribute(widgets@, window) == spec_distribute(widgets@.skip(i as int), window),
        decreases widgets@.len() - i,
    {
        assert(widgets@.skip(i as int).drop_first() =~= widgets@.skip(i + 1));
        assert(widgets@.skip(i as int)[0] == widgets@[i as int]);
        let r = widgets[i].handle_xevent(window);
        if r.is_some() {
            return r;
        }
        i += 1;
    }
    assert(widgets@.skip(i as int) =~= Seq::<W>::empty());
    None
}

/// The state of a text widget.
pub struct TextWidgetView {
    pub label: Seq<char>,
    pub window: u64,
    pub pos: (i32, i32),
    pub width: u32,
    pub height: u32,
    pub min_size: (u32, u32),
    pub max_size: (u32, u32),
    pub hpad: u32,
    pub vpad: u32,
    pub fg_color: u64,
    pub bg_color: u64,
    /// the size of the label's text, if it could be measured
    pub text_size: Option<(u32, u32)>,
}

/// A widget that shows a line of text.
pub struct TextWidget {
    label: String,
    window: u64,
    pos: (i32, i32),
    width: u32,
    height: u32,
    min_size: (u32, u32),
    max_size: (u32, u32),
    hpad: u32,
    vpad: u32,
    fg_color: u64,
    bg_color: u64,
    text_size: Option<(u32, u32)>,
}

impl View for TextWidget {
    type V = TextWidgetView;

    closed spec fn view(&self) -> TextWidgetView {
        TextWidgetView {
            label: self.label@,
            window: self.window,
            pos: self.pos,
            width: self.width,
            height: self.height,
            min_size: self.min_size,
            max_size: self.max_size,
            hpad: self.hpad,
            vpad: self.vpad,
            fg_color: self.fg_color,
            bg_color: self.bg_color,
            text_size: self.text_size,
        }
    }
}

/// The text with its padding fits into the sizes.
pub open spec fn text_fits(text_size: Option<(u32, u32)>, hpad: u32, vpad: u32) -> bool {
    match text_size {
        Some(ts) => ts.0 + 2 * hpad <= u32::MAX && ts.1 + 2 * vpad <= i32_max(),
        None => true,
    }
}

/// The size of a text widget after it adapted to its text: the text with its padding, kept
/// between the smallest and largest size; unchanged when the text could not be measured.
pub open spec fn text_widget_size(v: TextWidgetView) -> (u32, u32) {
    match v.text_size {
        Some(ts) => (
            clamp(ts.0 + 2 * v.hpad, v.min_size.0, v.max_size.0),
            clamp(ts.1 + 2 * v.vpad, v.min_size.1, v.max_size.1),
        ),
        None => (v.width, v.height),
    }
}

/// Whether a text of the given size fits into a text widget with the paddings.
pub fn text_fits_check(text_size: Option<(u32, u32)>, hpad: u32, vpad: u32) -> (b: bool)
    ensures
        b == text_fits(text_size, hpad, vpad),
{
    match text_size {
        Some(ts) => ts.0 as u64 + 2 * (hpad as u64) <= u32::MAX as u64 && ts.1 as u64 + 2 * (vpad as u64)
            <= i32::MAX as u64,
        None => true,
    }
}

/// The size of a text widget with the given text size, paddings and size limits (see
/// [text_widget_size]); `fallback` is its size when the text could not be measured.
pub fn text_size_for(
    text_size: Option<(u32, u32)>,
    hpad: u32,
    vpad: u32,
    min_size: (u32, u32),
    max_size: (u32, u32),
    fallback: (u32, u32),
) -> (r: (u32, u32))
    requires
        text_fits(text_size, hpad, vpad),
    ensures
        forall|v: TextWidgetView|
            v.text_size == text_size && v.hpad == hpad && v.vpad == vpad && v.min_size == min_size && v.max_size
                == max_size && (v.width, v.height) == fallback ==> #[trigger] text_widget_size(v) == r,
{
    match text_size {
        Some(ts) => (
            clamp_u32(ts.0 + 2 * hpad, min_size.0, max_size.0),
            clamp_u32(ts.1 + 2 * vpad, min_size.1, max_size.1),
        ),
        None => fallback,
    }
}

/// A text widget after it got a new label whose text has the size `text_size`: it takes the
/// size of the new text (see [text_widget_size]).
pub open spec fn labeled_view(v: TextWidgetView, label: Seq<char>, text_size: Option<(u32, u32)>) -> TextWidgetView {
    let v1 = TextWidgetView { label, text_size, ..v };
    TextWidgetView { width: text_widget_size(v1).0, height: text_widget_size(v1).1, ..v1 }
}

/// A new text widget: the smallest size to start with, then the size of its text.
pub open spec fn new_text_view(
    window: u64,
    x: i32,
    y: i32,
    hpad: u32,
    vpad: u32,
    label: Seq<char>,
    fg_color: u64,
    bg_color: u64,
    text_size: Option<(u32, u32)>,
) -> TextWidgetView {
    let v0 = TextWidgetView {
        label,
        window,
        pos: (x, y),
        width: MIN_WIDTH,
        height: MIN_HEIGHT,
        min_size: (MIN_WIDTH, MIN_HEIGHT),
        max_size: (MAX_WIDTH, MAX_HEIGHT),
        hpad,
        vpad,
        fg_color,
        bg_color,
        text_size,
    };
    TextWidgetView { width: text_widget_size(v0).0, height: text_widget_size(v0).1, ..v0 }
}

impl TextWidget {
    /// The text fits, and the height can be handled as an `i32`.
    pub open spec fn wf(&self) -> bool {
        &&& text_fits(self@.text_size, self@.hpad, self@.vpad)
        &&& self@.height <= i32_max()
        &&& self@.min_size.1 <= i32_max()
    }

    /// A text widget in `window` at `(x, y)` with the padding, label and colors; `text_size` is
    /// the size of the label's text, if it could be measured. The widget takes the size of its
    /// text (see [text_widget_size]).
    pub fn new(
        window: u64,
        x: i32,
        y: i32,
        hpad: u32,
        vpad: u32,
        label: String,
        fg_color: u64,
        bg_color: u64,
        text_size: Option<(u32, u32)>,
    ) -> (t: TextWidget)
        requires
            text_fits(text_size, hpad, vpad),
        ensures
            t.wf(),
            t@ == new_text_view(window, x, y, hpad, vpad, label@, fg_color, bg_color, text_size),
    {
        let mut t = TextWidget {
            label,
            window,
            pos: (x, y),
            width: MIN_WIDTH,
            height: MIN_HEIGHT,
            min_size: (MIN_WIDTH, MIN_HEIGHT),
            max_size: (MAX_WIDTH, MAX_HEIGHT),
            hpad,
            vpad,
            fg_color,
            bg_color,
            text_size,
        };
        t.resize_to_content();
        t
    }

    /// Take the size of the text (see [text_widget_size]).
    fn resize_to_content(&mut self)
        requires
            text_fits(old(self)@.text_size, old(self)@.hpad, old(self)@.vpad),
            old(self)@.height <= i32_max(),
            old(self)@.min_size.1 <= i32_max(),
        ensures
            final(self).wf(),
            final(self)@ == (TextWidgetView {
                width: text_widget_size(old(self)@).0,
                height: text_widget_size(old(self)@).1,
                ..old(self)@
            }),
    {
        match self.text_size {
            Some((tw, th)) => {
                let w = tw + 2 * self.hpad;
                let h = th + 2 * self.vpad;
                self.width = clamp_u32(w, self.min_size.0, self.max_size.0);
                self.height = clamp_u32(h, self.min_size.1, self.max_size.1);
            },
            None => {},
        }
    }

    /// The paddings, the smallest and largest size and the size of the widget.
    pub fn layout_params(&self) -> (p: (u32, u32, (u32, u32), (u32, u32), (u32, u32)))
        ensures
            p == (self@.hpad, self@.vpad, self@.min_size, self@.max_size, (self@.width, self@.height)),
    {
        (self.hpad, self.vpad, self.min_size, self.max_size, (self.width, self.height))
    }

    /// The size of the text, or the size of the widget when the text could not be measured.
    pub fn content_size(&self) -> (s: (u32, u32))
        ensures
            s == match self@.text_size {
                Some(ts) => ts,
                None => (self@.width, self@.height),
            },
    {
        match self.text_size {
            Some(size) => size,
            None => (self.width, self.height),
        }
    }

    pub fn set_foreground(&mut self, color: u64)
        ensures
            final(self)@ == (TextWidgetView { fg_color: color, ..old(self)@ }),
    {
        self.fg_color = color;
    }

    pub fn set_background(&mut self, color: u64)
        ensures
            final(self)@ == (TextWidgetView { bg_color: color, ..old(self)@ }),
    {
        self.bg_color = color;
    }

    /// Show another label, whose text has the size `text_size` (if it could be measured); the
    /// widget takes the size of the new text.
    pub fn set_label(&mut self, label: String, text_size: Option<(u32, u32)>)
        requires
            old(self).wf(),
            text_fits(text_size, old(self)@.hpad, old(self)@.vpad),
        ensures
            final(self).wf(),
            final(self)@ == labeled_view(old(self)@, label@, text_size),
    {
        self.label = label;
        self.text_size = text_size;
        self.resize_to_content();
    }

    /// The label of the widget.
    pub fn label(&self) -> (l: &str)
        ensures
            l@ == self@.label,
    {
        self.label.as_str()
    }

    /// The colors of the widget, foreground and background.
    pub fn colors(&self) -> (c: (u64, u64))
        ensures
            c == (self@.fg_color, self@.bg_color),
    {
        (self.fg_color, self.bg_color)
    }

    /// Whether the place of the text in the widget can be computed (see
    /// [TextWidget::text_position]).
    pub fn text_position_fits(&self) -> (b: bool)
        ensures
            b == (self@.width <= i32_max() && self@.hpad <= i32_max() && self@.vpad <= i32_max() && 2 * self@.vpad
                <= self@.height),
    {
        self.width <= i32::MAX as u32 && self.hpad <= i32::MAX as u32 && self.vpad <= i32::MAX as u32
            && 2 * (self.vpad as u64) <= self.height as u64
    }

    /// Where the text goes: centered horizontally if its size is known (it may be wider than
    /// the widget), else after the horizontal padding; at the top padding; and the height
    /// left between the vertical paddings.
    pub fn text_position(&self) -> (p: (i32, i32, u32))
        requires
            self@.width <= i32_max(),
            self@.hpad <= i32_max(),
            self@.vpad <= i32_max(),
            2 * self@.vpad <= self@.height,
        ensures
            p == (
                match self@.text_size {
                    Some(ts) => ((self@.width - (if ts.0 < self@.width { ts.0 } else { self@.width })) / 2) as i32,
                    None => self@.hpad as i32,
                },
                self@.vpad as i32,
                (self@.height - 2 * self@.vpad) as u32,
            ),
    {
        let x = match self.text_size {
            Some((tw, _)) => {
                let shown = if tw < self.width {
                    tw
                } else {
                    self.width
                };
                ((self.width - shown) / 2) as i32
            },
            None => self.hpad as i32,
        };
        (x, self.vpad as i32, self.height - 2 * self.vpad)
    }
}

impl Widget for TextWidget {
    open spec fn spec_size(&self) -> (u32, u32) {
        (self@.width, self@.height)
    }

    open spec fn spec_pos(&self) -> (i32, i32) {
        self@.pos
    }

    open spec fn spec_wid(&self) -> u64 {
        self@.window
    }

    open spec fn well_formed(&self) -> bool {
        self.wf()
    }

    open spec fn spec_route(&self, window: u64) -> Option<u64> {
        if window == self@.window {
            Some(window)
        } else {
            None
        }
    }

    closed spec fn spec_at(&self, x: i32, y: i32) -> TextWidget {
        TextWidget { pos: (x, y), ..*self }
    }

    proof fn lemma_at(&self, x: i32, y: i32) {
    }

    fn move_to(&mut self, x: i32, y: i32) {
        self.pos = (x, y);
    }

    fn set_max_size(&mut self, max_size: (u32, u32))
        ensures
            final(self)@ == sized_view(TextWidgetView { max_size, ..old(self)@ }),
    {
        self.max_size = max_size;
        self.resize_to_content();
    }

    fn set_min_size(&mut self, min_size: (u32, u32))
        ensures
            final(self)@ == sized_view(TextWidgetView { min_size, ..old(self)@ }),
    {
        self.min_size = min_size;
        self.resize_to_content();
    }

    fn size(&self) -> (s: (u32, u32)) {
        (self.width, self.height)
    }

    fn wid(&self) -> (w: u64) {
        self.window
    }

    fn pos(&self) -> (p: (i32, i32)) {
        self.pos
    }

    fn handle_xevent(&self, window: u64) -> (r: Option<u64>) {
        if window == self.window {
            Some(window)
        } else {
            None
        }
    }
}

/// A text widget that took the size of its text (see [text_widget_size]).
pub open spec fn sized_view(v: TextWidgetView) -> TextWidgetView {
    TextWidgetView { width: text_widget_size(v).0, height: text_widget_size(v).1, ..v }
}

/// A moved text widget keeps everything but its position.
pub proof fn lemma_text_at(t: TextWidget, x: i32, y: i32)
    ensures
        t.spec_at(x, y)@ == (TextWidgetView { pos: (x, y), ..t@ }),
{
}

/// The sum of the widths of the widgets, each with the inner padding after it.
pub open spec fn sum_widths(sizes: Seq<(u32, u32)>, ipad: u32) -> int
    decreases sizes.len(),
{
    if sizes.len() == 0 {
        0
    } else {
        sum_widths(sizes.drop_last(), ipad) + sizes.last().0 + ipad
    }
}

/// The largest height of the widgets (0 without widgets).
pub open spec fn max_height(sizes: Seq<(u32, u32)>) -> int
    decreases sizes.len(),
{
    if sizes.len() == 0 {
        0
    } else {
        let h = max_height(sizes.drop_last());
        if sizes.last().1 > h {
            sizes.last().1 as int
        } else {
            h
        }
    }
}

/// Sums of widths grow along a row of widgets.
pub proof fn lemma_sum_widths_prefix(sizes: Seq<(u32, u32)>, ipad: u32, i: int)
    requires
        0 <= i <= sizes.len(),
    ensures
        0 <= sum_widths(sizes.take(i), ipad) <= sum_widths(sizes, ipad),
        max_height(sizes.take(i)) <= max_height(sizes),
        0 <= max_height(sizes),
        i < sizes.len() ==> sizes[i].1 <= max_height(sizes),
    decreases sizes.len() - i,
{
    lemma_sum_widths_nonneg(sizes.take(i), ipad);
    if i < sizes.len() {
        lemma_sum_widths_prefix(sizes, ipad, i + 1);
        assert(sizes.take(i + 1).drop_last() =~= sizes.take(i));
        assert(sizes.take(i + 1).last() == sizes[i]);
    } else {
        assert(sizes.take(i) =~= sizes);
        lemma_max_height_nonneg(sizes);
    }
}

/// A sum of widths is not negative.
proof fn lemma_sum_widths_nonneg(sizes: Seq<(u32, u32)>, ipad: u32)
    ensures
        0 <= sum_widths(sizes, ipad),
    decreases sizes.len(),
{
    if sizes.len() > 0 {
        lemma_sum_widths_nonneg(sizes.drop_last(), ipad);
    }
}

/// The largest height is not negative.
proof fn lemma_max_height_nonneg(sizes: Seq<(u32, u32)>)
    ensures
        0 <= max_height(sizes),
    decreases sizes.len(),
{
    if sizes.len() > 0 {
        lemma_max_height_nonneg(sizes.drop_last());
    }
}

/// The sizes of the widgets of a row.
pub open spec fn child_sizes<W: Widget>(children: Seq<W>) -> Seq<(u32, u32)> {
    children.map_values(|c: W| c.spec_size())
}

/// The state of a row of widgets.
pub struct FlowLayoutView<W> {
    pub window: u64,
    pub children: Seq<W>,
    pub pos: (i32, i32),
    pub width: u32,
    pub height: u32,
    pub min_size: (u32, u32),
    pub max_size: (u32, u32),
    pub hpad: u32,
    pub vpad: u32,
    pub ipad: u32,
}

/// The size a row of widgets takes: the widths with the inner padding between them and the
/// outer padding around them, the largest height with the outer padding; kept between the
/// smallest and largest size.
pub open spec fn flow_size<W: Widget>(v: FlowLayoutView<W>) -> (u32, u32) {
    flow_size_of(child_sizes(v.children), v.hpad, v.vpad, v.ipad, v.min_size, v.max_size)
}

/// The size of a row whose widgets have the sizes `sizes` (see [flow_size]).
pub open spec fn flow_size_of(
    sizes: Seq<(u32, u32)>,
    hpad: u32,
    vpad: u32,
    ipad: u32,
    min_size: (u32, u32),
    max_size: (u32, u32),
) -> (u32, u32) {
    let sum = sum_widths(sizes, ipad);
    let w = if sum > ipad { sum - ipad } else { sum };
    (
        clamp(w + 2 * hpad, min_size.0, max_size.0),
        clamp(max_height(sizes) + 2 * vpad, min_size.1, max_size.1),
    )
}

/// The size of a row whose widgets have the sizes `sizes` (see [flow_size_of]), if they fit
/// into a row with the paddings (see [row_fits]).
pub fn row_size(
    sizes: &Vec<(u32, u32)>,
    hpad: u32,
    vpad: u32,
    ipad: u32,
    min_size: (u32, u32),
    max_size: (u32, u32),
) -> (r: Option<(u32, u32)>)
    ensures
        r is Some <==> row_fits(sizes@, hpad, vpad, ipad),
        r matches Some(s) ==> s == flow_size_of(sizes@, hpad, vpad, ipad, min_size, max_size),
{
    let ghost ss = sizes@;
    if 2 * (hpad as u64) > i32::MAX as u64 || 2 * (vpad as u64) > i32::MAX as u64 {
        proof {
            lemma_sum_widths_prefix(ss, ipad, 0);
        }
        return None;
    }
    let mut sum: u64 = 0;
    let mut mh: u64 = 0;
    let mut i: usize = 0;
    while i < sizes.len()
        invariant
            i <= ss.len(),
            ss == sizes@,
            2 * (hpad as u64) <= i32::MAX,
            2 * (vpad as u64) <= i32::MAX,
            sum == sum_widths(ss.take(i as int), ipad),
            mh == max_height(ss.take(i as int)),
            hpad + sum + hpad <= i32::MAX,
            mh + 2 * vpad <= i32::MAX,
        decreases ss.len() - i,
    {
        proof {
            assert(ss.take(i + 1).drop_last() =~= ss.take(i as int));
            assert(ss.take(i + 1).last() == ss[i as int]);
        }
        let (w, h) = sizes[i];
        let next = sum + w as u64 + ipad as u64;
        if 2 * (hpad as u64) + next > i32::MAX as u64 || h as u64 + 2 * (vpad as u64) > i32::MAX as u64 {
            proof {
                lemma_sum_widths_prefix(ss, ipad, i + 1);
                lemma_sum_widths_prefix(ss, ipad, i as int);
            }
            return None;
        }
        sum = next;
        if h as u64 > mh {
            mh = h as u64;
        }
        i += 1;
    }
    proof {
        assert(ss.take(ss.len() as int) =~= ss);
    }
    let w = if sum > ipad as u64 {
        sum - ipad as u64
    } else {
        sum
    };
    let width = clamp_u32((w + 2 * (hpad as u64)) as u32, min_size.0, max_size.0);
    let height = clamp_u32((mh + 2 * (vpad as u64)) as u32, min_size.1, max_size.1);
    Some((width, height))
}

/// Widgets of the sizes `sizes` fit into a row with the paddings.
pub open spec fn row_fits(sizes: Seq<(u32, u32)>, hpad: u32, vpad: u32, ipad: u32) -> bool {
    &&& hpad + sum_widths(sizes, ipad) + hpad <= i32_max()
    &&& max_height(sizes) + 2 * vpad <= i32_max()
}

/// Where child `i` of a row goes: after the outer padding and the widgets before it (each
/// with the inner padding), centered vertically.
pub open spec fn flow_child_pos<W: Widget>(v: FlowLayoutView<W>, i: int) -> (i32, i32) {
    let sizes = child_sizes(v.children);
    (
        (v.hpad + sum_widths(sizes.take(i), v.ipad)) as i32,
        half_trunc(v.height - sizes[i].1) as i32,
    )
}

/// A row of widgets, laid out from left to right.
pub struct FlowLayoutWidget<W> {
    window: u64,
    children: Vec<W>,
    pos: (i32, i32),
    width: u32,
    height: u32,
    min_size: (u32, u32),
    max_size: (u32, u32),
    hpad: u32,
    vpad: u32,
    ipad: u32,
}

impl<W: Widget> View for FlowLayoutWidget<W> {
    type V = FlowLayoutView<W>;

    closed spec fn view(&self) -> FlowLayoutView<W> {
        FlowLayoutView {
            window: self.window,
            children: self.children@,
            pos: self.pos,
            width: self.width,
            height: self.height,
            min_size: self.min_size,
            max_size: self.max_size,
            hpad: self.hpad,
            vpad: self.vpad,
            ipad: self.ipad,
        }
    }
}

/// The row can be sized and laid out without overflow, and its widgets are well formed.
pub open spec fn flow_fits<W: Widget>(v: FlowLayoutView<W>) -> bool {
    let sizes = child_sizes(v.children);
    &&& v.hpad + sum_widths(sizes, v.ipad) + v.hpad <= i32_max()
    &&& max_height(sizes) + 2 * v.vpad <= i32_max()
    &&& v.height <= i32_max()
    &&& v.min_size.1 <= i32_max()
    &&& forall|i: int| 0 <= i < v.children.len() ==> (#[trigger] v.children[i]).well_formed()
}

impl<W: Widget> FlowLayoutWidget<W> {
    /// A row in `window` at `(x, y)` with the paddings and the widgets; it is sized and laid
    /// out at once.
    pub fn new(window: u64, x: i32, y: i32, hpad: u32, vpad: u32, ipad: u32, children: Vec<W>) -> (f:
        Self)
        requires
            flow_fits(FlowLayoutView {
                window,
                children: children@,
                pos: (x, y),
                width: MIN_WIDTH,
                height: MIN_HEIGHT,
                min_size: (MIN_WIDTH, MIN_HEIGHT),
                max_size: (MAX_WIDTH, MAX_HEIGHT),
                hpad,
                vpad,
                ipad,
            }),
        ensures
            flow_fits(f@),
            f@.window == window && f@.pos == (x, y),
            f@.hpad == hpad && f@.vpad == vpad && f@.ipad == ipad,
            f@.min_size == (MIN_WIDTH, MIN_HEIGHT),
            f@.max_size == (MAX_WIDTH, MAX_HEIGHT),
            child_sizes(f@.children) == child_sizes(children@),
            (f@.width, f@.height) == flow_size(f@),
            forall|i: int| 0 <= i < f@.children.len() ==> (#[trigger] f@.children[i]).spec_pos() == flow_child_pos(f@, i),
    {
        let mut f = FlowLayoutWidget {
            window,
            children,
            pos: (x, y),
            width: MIN_WIDTH,
            height: MIN_HEIGHT,
            min_size: (MIN_WIDTH, MIN_HEIGHT),
            max_size: (MAX_WIDTH, MAX_HEIGHT),
            hpad,
            vpad,
            ipad,
        };
        f.rearrange();
        f
    }

    /// Position the children (see [flow_child_pos]).
    #[verifier::rlimit(50)]
    fn arrange_children(&mut self)
        requires
            flow_fits(old(self)@),
        ensures
            flow_fits(final(self)@),
            final(self)@.children.len() == old(self)@.children.len(),
            child_sizes(final(self)@.children) == child_sizes(old(self)@.children),
            final(self)@ == (FlowLayoutView { children: final(self)@.children, ..old(self)@ }),
            forall|i: int| 0 <= i < final(self)@.children.len() ==> #[trigger] final(self)@.children[i] == old(self)@.children[i].spec_at(
                flow_child_pos(final(self)@, i).0,
                flow_child_pos(final(self)@, i).1,
            ),
            forall|i: int| 0 <= i < final(self)@.children.len() ==> (#[trigger] final(self)@.children[i]).spec_pos() == flow_child_pos(final(self)@, i),
    {
        let ghost o = self@;
        let ghost sizes = child_sizes(o.children);
        let mut x: i32 = self.hpad as i32;
        let mut i: usize = 0;
        proof {
            lemma_sum_widths_prefix(sizes, o.ipad, 0);
            assert(sizes.take(0) =~= Seq::<(u32, u32)>::empty());
        }
        while i < self.children.len()
            invariant
                i <= self.children@.len(),
                self@.children.len() == o.children.len(),
                self@ == (FlowLayoutView { children: self@.children, ..o }),
                flow_fits(o),
                sizes == child_sizes(o.children),
                x == o.hpad + sum_widths(sizes.take(i as int), o.ipad),
                forall|k: int| 0 <= k < i ==> #[trigger] self@.children[k] == o.children[k].spec_at(
                    flow_child_pos(o, k).0,
                    flow_child_pos(o, k).1,
                ),
                forall|k: int| i <= k < self@.children.len() ==> #[trigger] self@.children[k] == o.children[k],
            decreases self.children@.len() - i,
        {
            let ghost before = self.children@;
            let (cw, ch) = self.children[i].size();
            proof {
                assert(sizes[i as int] == o.children[i as int].spec_size());
                lemma_sum_widths_prefix(sizes, o.ipad, i as int);
                lemma_sum_widths_prefix(sizes, o.ipad, i + 1);
                assert(sizes.take(i + 1).drop_last() =~= sizes.take(i as int));
                assert(sizes.take(i + 1).last() == sizes[i as int]);
            }
            let y = (self.height as i32 - ch as i32) / 2;
            self.children[i].move_to(x, y);
            proof {
                assert(self.children@ =~= before.update(i as int, self.children@[i as int]));
            }
            x = x + (cw + self.ipad) as i32;
            i += 1;
        }
        proof {
            assert forall|k: int| 0 <= k < self@.children.len() implies #[trigger] self@.children[k].spec_size() == sizes[k] by {
                o.children[k].lemma_at(flow_child_pos(o, k).0, flow_child_pos(o, k).1);
            }
            assert(child_sizes(self@.children) =~= sizes);
            assert forall|k: int| 0 <= k < self@.children.len() implies flow_child_pos(self@, k) == flow_child_pos(o, k) by {
                assert(self@.height == o.height && self@.hpad == o.hpad && self@.ipad == o.ipad);
            }
            assert forall|k: int| 0 <= k < self@.children.len() implies #[trigger] self@.children[k] == o.children[k].spec_at(
                flow_child_pos(self@, k).0,
                flow_child_pos(self@, k).1,
            ) by {
                assert(flow_child_pos(self@, k) == flow_child_pos(o, k));
            }
            assert forall|k: int| 0 <= k < self@.children.len() implies (#[trigger] self@.children[k]).spec_pos() == flow_child_pos(self@, k) by {
                o.children[k].lemma_at(flow_child_pos(o, k).0, flow_child_pos(o, k).1);
                assert(flow_child_pos(self@, k) == flow_child_pos(o, k));
            }
            assert forall|k: int| 0 <= k < self@.children.len() implies (#[trigger] self@.children[k]).well_formed() by {
                o.children[k].lemma_at(flow_child_pos(o, k).0, flow_child_pos(o, k).1);
            }
        }
    }

    /// The sizes of the widgets of the row.
    pub fn child_size_list(&self) -> (r: Vec<(u32, u32)>)
        ensures
            r@ == child_sizes(self@.children),
    {
        let mut r: Vec<(u32, u32)> = Vec::new();
        let mut i: usize = 0;
        while i < self.children.len()
            invariant
                i <= self.children@.len(),
                r@.len() == i,
                forall|j: int| 0 <= j < i ==> #[trigger] r@[j] == self.children@[j].spec_size(),
            decreases self.children@.len() - i,
        {
            r.push(self.children[i].size());
            i += 1;
        }
        assert(r@ =~= child_sizes(self@.children));
        r
    }

    /// The paddings (outer horizontal, outer vertical, between widgets) and the smallest and
    /// largest size of the row.
    pub fn layout_params(&self) -> (p: (u32, u32, u32, (u32, u32), (u32, u32)))
        ensures
            p == (self@.hpad, self@.vpad, self@.ipad, self@.min_size, self@.max_size),
    {
        (self.hpad, self.vpad, self.ipad, self.min_size, self.max_size)
    }

    /// The children of the row.
    pub fn children(&self) -> (c: &Vec<W>)
        ensures
            c@ == self@.children,
    {
        &self.children
    }

    /// Child `index`, if there is one.
    pub fn child(&self, index: usize) -> (c: Option<&W>)
        ensures
            index < self@.children.len() ==> c == Some(&self@.children[index as int]),
            index >= self@.children.len() ==> c is None,
    {
        if index < self.children.len() {
            Some(&self.children[index])
        } else {
            None
        }
    }

    /// Child `index`, for changing it (the row is not laid out again).
    pub fn child_mut(&mut self, index: usize) -> (c: &mut W)
        requires
            index < old(self)@.children.len(),
        ensures
            *c == old(self)@.children[index as int],
            final(self)@ == (FlowLayoutView {
                children: old(self)@.children.update(index as int, *final(c)),
                ..old(self)@
            }),
    {
        &mut self.children[index]
    }

    pub fn count_children(&self) -> (n: usize)
        ensures
            n == self@.children.len(),
    {
        self.children.len()
    }

    /// Add a widget at the end of the row and lay the row out again.
    pub fn push(&mut self, widget: W)
        requires
            flow_fits(FlowLayoutView { children: old(self)@.children.push(widget), ..old(self)@ }),
        ensures
            flow_fits(final(self)@),
            child_sizes(final(self)@.children) == child_sizes(old(self)@.children.push(widget)),
            final(self)@.children.len() == old(self)@.children.len() + 1,
            forall|i: int| 0 <= i < final(self)@.children.len() ==> #[trigger] final(self)@.children[i] == old(self)@.children.push(widget)[i].spec_at(
                flow_child_pos(final(self)@, i).0,
                flow_child_pos(final(self)@, i).1,
            ),
            final(self)@.window == old(self)@.window && final(self)@.pos == old(self)@.pos,
            (final(self)@.width, final(self)@.height) == flow_size(final(self)@),
            forall|i: int| 0 <= i < final(self)@.children.len() ==> (#[trigger] final(self)@.children[i]).spec_pos() == flow_child_pos(final(self)@, i),
    {
        self.children.push(widget);
        self.rearrange();
    }

    /// Add a widget at the end of the row without laying the row out again.
    pub fn append_child(&mut self, widget: W)
        ensures
            final(self)@ == (FlowLayoutView { children: old(self)@.children.push(widget), ..old(self)@ }),
    {
        self.children.push(widget);
    }

    /// Size the row to its children and lay them out.
    pub fn rearrange(&mut self)
        requires
            flow_fits(old(self)@),
        ensures
            flow_fits(final(self)@),
            child_sizes(final(self)@.children) == child_sizes(old(self)@.children),
            final(self)@.children.len() == old(self)@.children.len(),
            final(self)@ == (FlowLayoutView {
                children: final(self)@.children,
                width: flow_size(old(self)@).0,
                height: flow_size(old(self)@).1,
                ..old(self)@
            }),
            (final(self)@.width, final(self)@.height) == flow_size(final(self)@),
            forall|i: int| 0 <= i < final(self)@.children.len() ==> (#[trigger] final(self)@.children[i]).spec_pos() == flow_child_pos(final(self)@, i),
            forall|i: int| 0 <= i < final(self)@.children.len() ==> #[trigger] final(self)@.children[i] == old(self)@.children[i].spec_at(
                flow_child_pos(final(self)@, i).0,
                flow_child_pos(final(self)@, i).1,
            ),
    {
        self.resize_to_content();
        self.arrange_children();
    }

    /// Take widget `index` out of the row (the row is not laid out again).
    pub fn remove(&mut self, index: usize)
        requires
            index < old(self)@.children.len(),
        ensures
            final(self)@ == (FlowLayoutView { children: old(self)@.children.remove(index as int), ..old(self)@ }),
    {
        self.children.remove(index);
    }

    /// Size the row to its children (see [flow_size]).
    fn resize_to_content(&mut self)
        requires
            flow_fits(old(self)@),
        ensures
            flow_fits(final(self)@),
            final(self)@ == (FlowLayoutView {
                width: flow_size(old(self)@).0,
                height: flow_size(old(self)@).1,
                ..old(self)@
            }),
    {
        let ghost o = self@;
        let ghost sizes = child_sizes(o.children);
        let mut w: u32 = 0;
        let mut h: u32 = 0;
        let mut i: usize = 0;
        assert(sizes.take(0) =~= Seq::<(u32, u32)>::empty());
        while i < self.children.len()
            invariant
                i <= self.children@.len(),
                self@ == o,
                flow_fits(o),
                sizes == child_sizes(o.children),
                w == sum_widths(sizes.take(i as int), o.ipad),
                h == max_height(sizes.take(i as int)),
            decreases self.children@.len() - i,
        {
            let (cw, ch) = self.children[i].size();
            proof {
                assert(sizes[i as int] == self@.children[i as int].spec_size());
                lemma_sum_widths_prefix(sizes, o.ipad, i + 1);
                assert(sizes.take(i + 1).drop_last() =~= sizes.take(i as int));
                assert(sizes.take(i + 1).last() == sizes[i as int]);
            }
            w = w + cw + self.ipad;
            if ch > h {
                h = ch;
            }
            i += 1;
        }
        assert(sizes.take(sizes.len() as int) =~= sizes);
        let w = if w > self.ipad {
            w - self.ipad
        } else {
            w
        };
        let w = w + 2 * self.hpad;
        let h = h + 2 * self.vpad;
        self.width = clamp_u32(w, self.min_size.0, self.max_size.0);
        self.height = clamp_u32(h, self.min_size.1, self.max_size.1);
    }

    /// Keep only the first `len` widgets (the row is not laid out again).
    pub fn truncate_children(&mut self, len: usize)
        ensures
            final(self)@ == (FlowLayoutView {
                children: if len < old(self)@.children.len() {
                    old(self)@.children.take(len as int)
                } else {
                    old(self)@.children
                },
                ..old(self)@
            }),
    {
        self.children.truncate(len);
        proof {
            if len < old(self)@.children.len() {
                assert(self@.children =~= old(self)@.children.take(len as int));
            } else {
                assert(self@.children =~= old(self)@.children);
            }
        }
    }
}

/// A moved row keeps everything but its position.
pub proof fn lemma_flow_at<W: Widget>(f: FlowLayoutWidget<W>, x: i32, y: i32)
    ensures
        f.spec_at(x, y)@ == (FlowLayoutView { pos: (x, y), ..f@ }),
{
}

impl<W: Widget> Widget for FlowLayoutWidget<W> {
    open spec fn spec_size(&self) -> (u32, u32) {
        (self@.width, self@.height)
    }

    open spec fn spec_pos(&self) -> (i32, i32) {
        self@.pos
    }

    open spec fn spec_wid(&self) -> u64 {
        self@.window
    }

    open spec fn well_formed(&self) -> bool {
        flow_fits(self@)
    }

    open spec fn spec_route(&self, window: u64) -> Option<u64> {
        if window == self@.window {
            Some(window)
        } else {
            spec_distribute(self@.children, window)
        }
    }

    closed spec fn spec_at(&self, x: i32, y: i32) -> FlowLayoutWidget<W> {
        FlowLayoutWidget { pos: (x, y), ..*self }
    }

    proof fn lemma_at(&self, x: i32, y: i32) {
    }

    fn move_to(&mut self, x: i32, y: i32) {
        self.pos = (x, y);
    }

    fn set_max_size(&mut self, max_size: (u32, u32))
        ensures
            final(self)@ == (FlowLayoutView {
                width: flow_size(FlowLayoutView { max_size, ..old(self)@ }).0,
                height: flow_size(FlowLayoutView { max_size, ..old(self)@ }).1,
                max_size,
                ..old(self)@
            }),
    {
        self.max_size = max_size;
        self.resize_to_content();
    }

    fn set_min_size(&mut self, min_size: (u32, u32))
        ensures
            final(self)@ == (FlowLayoutView {
                width: flow_size(FlowLayoutView { min_size, ..old(self)@ }).0,
                height: flow_size(FlowLayoutView { min_size, ..old(self)@ }).1,
                min_size,
                ..old(self)@
            }),
    {
        self.min_size = min_size;
        self.resize_to_content();
    }

    fn size(&self) -> (s: (u32, u32)) {
        (self.width, self.height)
    }

    fn wid(&self) -> (w: u64) {
        self.window
    }

    fn pos(&self) -> (p: (i32, i32)) {
        self.pos
    }

    fn handle_xevent(&self, window: u64) -> (r: Option<u64>) {
        if window == self.window {
            Some(window)
        } else {
            distribute_widget_event(&self.children, window)
        }
    }
}

} // verus!
