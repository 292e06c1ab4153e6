//! The layout of the status bar: the workspace buttons on the left, the title of the active
//! window in the middle, the status blocks and the system tray on the right.
use vstd::prelude::*;

use crate::barstyle::{BarConfiguration, ContainerWidgetStyle};
use crate::client::half_trunc;
use crate::geometry::{i32_max, Dimensions};
use crate::tray::{lemma_tray_at, tray_size, SystemTrayView, SystemTrayWidget};
use crate::widget::{
    child_sizes, flow_child_pos, flow_fits, flow_size, flow_size_of, labeled_view, lemma_flow_at,
    lemma_text_at, new_text_view, row_fits, row_size, sized_view, text_fits, text_fits_check, text_size_for,
    text_widget_size, FlowLayoutView, FlowLayoutWidget, TextWidget, TextWidgetView, Widget, MAX_HEIGHT, MAX_WIDTH,
    MIN_HEIGHT, MIN_WIDTH,
};
use crate::wm::i32_min;

verus! {

/// The bar and its widgets.
pub struct Bar {
    pub dimensions: Dimensions,
    pub config: BarConfiguration,
    pub workspace_widget: FlowLayoutWidget<TextWidget>,
    pub status_widget: FlowLayoutWidget<TextWidget>,
    pub systray: Option<SystemTrayWidget>,
    pub title_widget: TextWidget,
    pub active_window: Option<u64>,
}

/// Block `i` of a row of text widgets after new labels: a widget that was there gets the new
/// label; a new widget (made from the style in a fresh window, with an empty label first) gets
/// it as well.
pub open spec fn block_view(
    old: Seq<TextWidget>,
    labels: Seq<String>,
    sizes: Seq<Option<(u32, u32)>>,
    fresh: Seq<(u64, Option<(u32, u32)>)>,
    style: ContainerWidgetStyle,
    i: int,
) -> TextWidgetView {
    if i < old.len() {
        labeled_view(old[i]@, labels[i]@, sizes[i])
    } else {
        labeled_view(fresh_view(fresh, style, i - old.len()), labels[i]@, sizes[i])
    }
}

/// The new text widget number `k`, made from the style.
pub open spec fn fresh_view(fresh: Seq<(u64, Option<(u32, u32)>)>, style: ContainerWidgetStyle, k: int) -> TextWidgetView {
    new_text_view(
        fresh[k].0,
        0,
        0,
        style.text_padding_horz,
        style.text_padding_vert,
        Seq::empty(),
        style.foreground,
        style.inner_background,
        fresh[k].1,
    )
}

/// The sizes of the blocks after new labels.
pub open spec fn block_sizes(
    old: Seq<TextWidget>,
    labels: Seq<String>,
    sizes: Seq<Option<(u32, u32)>>,
    fresh: Seq<(u64, Option<(u32, u32)>)>,
    style: ContainerWidgetStyle,
) -> Seq<(u32, u32)> {
    Seq::new(
        labels.len(),
        |i: int|
            (
                block_view(old, labels, sizes, fresh, style, i).width,
                block_view(old, labels, sizes, fresh, style, i).height,
            ),
    )
}

/// The labels can be given to the blocks: one size per label, one fresh window per block that
/// is missing, and every text fits into its widget.
pub open spec fn labels_fit(
    old: Seq<TextWidget>,
    labels: Seq<String>,
    sizes: Seq<Option<(u32, u32)>>,
    fresh: Seq<(u64, Option<(u32, u32)>)>,
    style: ContainerWidgetStyle,
) -> bool {
    &&& sizes.len() == labels.len()
    &&& fresh.len() == if labels.len() > old.len() {
        labels.len() - old.len()
    } else {
        0
    }
    &&& forall|i: int| 0 <= i < labels.len() && i < old.len() ==> text_fits(#[trigger] sizes[i], old[i]@.hpad, old[i]@.vpad)
    &&& forall|i: int| 0 <= i < labels.len() && i >= old.len() ==> text_fits(#[trigger] sizes[i], style.text_padding_horz, style.text_padding_vert)
    &&& forall|k: int| 0 <= k < fresh.len() ==> text_fits((#[trigger] fresh[k]).1, style.text_padding_horz, style.text_padding_vert)
}

/// The width the system tray takes next to the status blocks: none without a tray or without
/// icons, else its width and the outer padding of the status row.
pub open spec fn tray_share(systray: Option<SystemTrayWidget>, padding_horz: u32) -> int {
    match systray {
        Some(t) => if t@.tray_icons.len() == 0 {
            0
        } else {
            t@.width + padding_horz
        },
        None => 0,
    }
}

/// Where the status row goes: at the right edge, left of the tray, centered vertically with
/// the same distance from the right edge.
pub open spec fn status_pos(dims: Dimensions, tray: int, size: (u32, u32)) -> (int, int) {
    let hd = half_trunc(dims.h - size.1);
    (dims.w - tray - size.0 - hd, hd)
}

/// What decides the size of a text widget: its text size, paddings, largest size and size.
pub open spec fn size_params(v: TextWidgetView) -> (Option<(u32, u32)>, u32, u32, (u32, u32), (u32, u32)) {
    (v.text_size, v.hpad, v.vpad, v.max_size, (v.width, v.height))
}

/// Two views of a text widget differ at most in the position.
pub open spec fn same_but_pos(a: TextWidgetView, b: TextWidgetView) -> bool {
    TextWidgetView { pos: b.pos, ..a } == b
}

/// The widgets of the bar are well formed and its sizes can be handled as `i32`.
pub open spec fn bar_fits(b: Bar) -> bool {
    &&& b.dimensions.w <= i32_max()
    &&& b.dimensions.h <= i32_max()
    &&& flow_fits(b.status_widget@)
    &&& flow_fits(b.workspace_widget@)
    &&& b.title_widget.wf()
    &&& b.status_widget@.min_size.0 <= i32_max()
    &&& match b.systray {
        Some(t) => t.wf() && t@.width <= i32_max(),
        None => true,
    }
}

/// Workspace button `i` after new names: a button that was there gets the new name; a new
/// button (made from the style in a fresh window) keeps its empty label for now.
pub open spec fn ws_button_view(
    old: Seq<TextWidget>,
    labels: Seq<String>,
    sizes: Seq<Option<(u32, u32)>>,
    fresh: Seq<(u64, Option<(u32, u32)>)>,
    style: ContainerWidgetStyle,
    i: int,
) -> TextWidgetView {
    if i < old.len() {
        labeled_view(old[i]@, labels[i]@, sizes[i])
    } else {
        fresh_view(fresh, style, i - old.len())
    }
}

/// The size of the text of a widget, or its size when the text could not be measured.
pub open spec fn content_of(v: TextWidgetView) -> (u32, u32) {
    match v.text_size {
        Some(ts) => ts,
        None => (v.width, v.height),
    }
}

/// The width that the workspace buttons may all take: going through the first `n` buttons,
/// each that is wider than the width so far sets it to the width of its text.
pub open spec fn widest_button(
    old: Seq<TextWidget>,
    labels: Seq<String>,
    sizes: Seq<Option<(u32, u32)>>,
    fresh: Seq<(u64, Option<(u32, u32)>)>,
    style: ContainerWidgetStyle,
    n: int,
) -> u32
    decreases n,
{
    if n <= 0 {
        0
    } else {
        let m = widest_button(old, labels, sizes, fresh, style, n - 1);
        let v = ws_button_view(old, labels, sizes, fresh, style, n - 1);
        if v.width > m {
            content_of(v).0
        } else {
            m
        }
    }
}

/// Workspace button `i` after new names, made at least `min_width` wide if asked to.
pub open spec fn final_button_view(
    old: Seq<TextWidget>,
    labels: Seq<String>,
    sizes: Seq<Option<(u32, u32)>>,
    fresh: Seq<(u64, Option<(u32, u32)>)>,
    style: ContainerWidgetStyle,
    expand: bool,
    i: int,
) -> TextWidgetView {
    let v = ws_button_view(old, labels, sizes, fresh, style, i);
    if expand {
        sized_view(TextWidgetView {
            min_size: (widest_button(old, labels, sizes, fresh, style, labels.len() as int), MIN_HEIGHT),
            ..v
        })
    } else {
        v
    }
}

/// The sizes of the workspace buttons after new names.
pub open spec fn button_sizes(
    old: Seq<TextWidget>,
    labels: Seq<String>,
    sizes: Seq<Option<(u32, u32)>>,
    fresh: Seq<(u64, Option<(u32, u32)>)>,
    style: ContainerWidgetStyle,
) -> Seq<(u32, u32)> {
    Seq::new(
        labels.len(),
        |i: int|
            (
                ws_button_view(old, labels, sizes, fresh, style, i).width,
                ws_button_view(old, labels, sizes, fresh, style, i).height,
            ),
    )
}

/// The sizes of the workspace buttons at the end.
pub open spec fn final_button_sizes(
    old: Seq<TextWidget>,
    labels: Seq<String>,
    sizes: Seq<Option<(u32, u32)>>,
    fresh: Seq<(u64, Option<(u32, u32)>)>,
    style: ContainerWidgetStyle,
    expand: bool,
) -> Seq<(u32, u32)> {
    Seq::new(
        labels.len(),
        |i: int|
            (
                final_button_view(old, labels, sizes, fresh, style, expand, i).width,
                final_button_view(old, labels, sizes, fresh, style, expand, i).height,
            ),
    )
}

/// The widths left to the tray, to the status blocks and to the title: the tray and the status
/// blocks may take what the workspace buttons leave; the status blocks what the tray leaves
/// (its width and the status padding); the title what the status blocks leave.
pub open spec fn constraint_widths(b: Bar) -> (int, int, int) {
    let h = b.dimensions.h;
    let for_tray = b.dimensions.w - b.workspace_widget@.width;
    let for_status = match b.systray {
        Some(t) => for_tray - (tray_size(SystemTrayView { max_size: (for_tray as u32, h), ..t@ }).0
            + b.config.style.status.padding_horz),
        None => for_tray,
    };
    let status_width = flow_size(FlowLayoutView { max_size: (for_status as u32, h), ..b.status_widget@ }).0;
    (for_tray, for_status, for_status - status_width)
}

/// None of the widths left runs below zero, and the tray's width with the padding fits.
pub open spec fn constraints_fit(b: Bar) -> bool {
    let h = b.dimensions.h;
    let widths = constraint_widths(b);
    &&& 0 <= widths.1
    &&& 0 <= widths.2
    &&& match b.systray {
        Some(t) => tray_size(SystemTrayView { max_size: (widths.0 as u32, h), ..t@ }).0
            + b.config.style.status.padding_horz <= u32::MAX,
        None => true,
    }
}

impl Bar {
    /// Give the title widget a new title (whose text has the size `text_size`, if it could be
    /// measured) and center it in the bar.
    pub fn arrange_title(&mut self, title: String, text_size: Option<(u32, u32)>)
        requires
            old(self).title_widget.wf(),
            text_fits(text_size, old(self).title_widget@.hpad, old(self).title_widget@.vpad),
            old(self).dimensions.w <= i32_max(),
            old(self).dimensions.h <= i32_max(),
            labeled_view(old(self).title_widget@, title@, text_size).width <= i32_max(),
        ensures
            bar_fits(*old(self)) ==> bar_fits(*final(self)),
            final(self).title_widget.wf(),
            ({
                let v = labeled_view(old(self).title_widget@, title@, text_size);
                final(self).title_widget@ == (TextWidgetView {
                    pos: (
                        half_trunc(old(self).dimensions.w - v.width) as i32,
                        half_trunc(old(self).dimensions.h - v.height) as i32,
                    ),
                    ..v
                })
            }),
            final(self).dimensions == old(self).dimensions,
            final(self).status_widget == old(self).status_widget,
            final(self).workspace_widget == old(self).workspace_widget,
            final(self).systray == old(self).systray,
            final(self).active_window == old(self).active_window,
    {
        self.title_widget.set_label(title, text_size);
        let (tw, th) = self.title_widget.size();
        let height_diff = (self.dimensions.h as i32 - th as i32) / 2;
        let x = (self.dimensions.w as i32 - tw as i32) / 2;
        let ghost before = self.title_widget;
        self.title_widget.move_to(x, height_diff);
        proof {
            lemma_text_at(before, x, height_diff);
        }
    }

    /// Place the system tray at the right edge of the bar, centered vertically with the same
    /// distance from the right edge.
    pub fn arrange_tray(&mut self)
        requires
            old(self).dimensions.w <= i32_max(),
            old(self).dimensions.h <= i32_max(),
            old(self).systray matches Some(t) ==> t@.width <= i32_max() && t@.height <= i32_max()
                && i32_min() <= old(self).dimensions.w - t@.width - half_trunc(old(self).dimensions.h - t@.height)
                <= i32_max(),
        ensures
            bar_fits(*old(self)) ==> bar_fits(*final(self)),
            final(self).systray matches Some(t) ==> ({
                let o = old(self).systray->0@;
                let hd = half_trunc(old(self).dimensions.h - o.height);
                t@ == (SystemTrayView {
                    pos: ((old(self).dimensions.w - o.width - hd) as i32, hd as i32),
                    ..o
                })
            }),
            final(self).systray is Some == old(self).systray is Some,
            final(self).dimensions == old(self).dimensions,
            final(self).status_widget == old(self).status_widget,
            final(self).workspace_widget == old(self).workspace_widget,
            final(self).title_widget == old(self).title_widget,
            final(self).active_window == old(self).active_window,
    {
        let w = self.dimensions.w;
        let h = self.dimensions.h;
        match &mut self.systray {
            Some(tray) => {
                let (tw, th) = tray.size();
                let height_diff = (h as i32 - th as i32) / 2;
                let x = w as i32 - tw as i32 - height_diff;
                let ghost before = *tray;
                tray.move_to(x, height_diff);
                proof {
                    lemma_tray_at(before, x, height_diff);
                }
            },
            None => {},
        }
    }

    /// Whether the status blocks can be shown with the labels (see [Bar::arrange_status]): one
    /// size per label and one fresh window per missing block, every text fits into its block,
    /// the row fits, and its place at the right edge, left of the tray, stays within `i32`.
    #[verifier::spinoff_prover]
    pub fn status_fits(
        &self,
        labels: &Vec<String>,
        sizes: &Vec<Option<(u32, u32)>>,
        fresh: &Vec<(u64, Option<(u32, u32)>)>,
    ) -> (b: bool)
        ensures
            b == ({
                let o = self.status_widget@;
                let style = self.config.style.status;
                let blocks = block_sizes(o.children, labels@, sizes@, fresh@, style);
                let tray = tray_share(self.systray, style.padding_horz);
                let size = flow_size_of(blocks, o.hpad, o.vpad, o.ipad, o.min_size, o.max_size);
                &&& labels_fit(o.children, labels@, sizes@, fresh@, style)
                &&& row_fits(blocks, o.hpad, o.vpad, o.ipad)
                &&& tray <= i32_max()
                &&& i32_min() <= self.dimensions.w - tray - size.0
                &&& i32_min() <= status_pos(self.dimensions, tray, size).0 <= i32_max()
            }),
    {
        let ghost o = self.status_widget@;
        let style = self.config.style.status;
        let children = self.status_widget.children();
        let n_old = children.len();
        if sizes.len() != labels.len() {
            return false;
        }
        let expected = if labels.len() > n_old {
            labels.len() - n_old
        } else {
            0
        };
        if fresh.len() != expected {
            return false;
        }
        let ghost blocks_spec = block_sizes(o.children, labels@, sizes@, fresh@, style);
        let mut blocks: Vec<(u32, u32)> = Vec::new();
        let mut i: usize = 0;
        while i < labels.len()
            invariant
                i <= labels@.len(),
                sizes@.len() == labels@.len(),
                fresh@.len() == expected,
                expected == if labels@.len() > n_old { labels@.len() - n_old } else { 0 },
                children@ == o.children,
                n_old == o.children.len(),
                o == self.status_widget@,
                style == self.config.style.status,
                blocks_spec == block_sizes(o.children, labels@, sizes@, fresh@, style),
                blocks@.len() == i,
                forall|j: int| 0 <= j < i && j < o.children.len() ==> text_fits(#[trigger] sizes@[j], o.children[j]@.hpad, o.children[j]@.vpad),
                forall|j: int| 0 <= j < i && j >= o.children.len() ==> text_fits(#[trigger] sizes@[j], style.text_padding_horz, style.text_padding_vert),
                forall|k: int| 0 <= k < i - o.children.len() ==> text_fits((#[trigger] fresh@[k]).1, style.text_padding_horz, style.text_padding_vert),
                forall|j: int| 0 <= j < i ==> #[trigger] blocks@[j] == blocks_spec[j],
            decreases labels@.len() - i,
        {
            if i < n_old {
                let (hp, vp, mn, mx, wh) = children[i].layout_params();
                if !text_fits_check(sizes[i], hp, vp) {
                    return false;
                }
                let sz = text_size_for(sizes[i], hp, vp, mn, mx, wh);
                proof {
                    let v1 = TextWidgetView { label: labels@[i as int]@, text_size: sizes@[i as int], ..o.children[i as int]@ };
                    assert(text_widget_size(v1) == sz);
                }
                blocks.push(sz);
            } else {
                let k = i - n_old;
                let tph = style.text_padding_horz;
                let tpv = style.text_padding_vert;
                if !text_fits_check(sizes[i], tph, tpv) || !text_fits_check(fresh[k].1, tph, tpv) {
                    proof {
                        if !text_fits(fresh@[k as int].1, tph, tpv) {
                            assert(0 <= k < fresh@.len());
                        }
                    }
                    return false;
                }
                let f = text_size_for(fresh[k].1, tph, tpv, (MIN_WIDTH, MIN_HEIGHT), (MAX_WIDTH, MAX_HEIGHT), (MIN_WIDTH, MIN_HEIGHT));
                let sz = text_size_for(sizes[i], tph, tpv, (MIN_WIDTH, MIN_HEIGHT), (MAX_WIDTH, MAX_HEIGHT), f);
                proof {
                    let fv = fresh_view(fresh@, style, k as int);
                    let v0 = TextWidgetView {
                        label: Seq::empty(),
                        window: fresh@[k as int].0,
                        pos: (0i32, 0i32),
                        width: MIN_WIDTH,
                        height: MIN_HEIGHT,
                        min_size: (MIN_WIDTH, MIN_HEIGHT),
                        max_size: (MAX_WIDTH, MAX_HEIGHT),
                        hpad: tph,
                        vpad: tpv,
                        fg_color: style.foreground,
                        bg_color: style.inner_background,
                        text_size: fresh@[k as int].1,
                    };
                    assert(text_widget_size(v0) == f);
                    assert((fv.width, fv.height) == f);
                    let v1 = TextWidgetView { label: labels@[i as int]@, text_size: sizes@[i as int], ..fv };
                    assert(text_widget_size(v1) == sz);
                }
                blocks.push(sz);
            }
            i += 1;
        }
        let (hp, vp, ip, mn, mx) = self.status_widget.layout_params();
        proof {
            assert(blocks@ =~= blocks_spec);
            assert forall|k: int| 0 <= k < fresh@.len() implies text_fits((#[trigger] fresh@[k]).1, style.text_padding_horz, style.text_padding_vert) by {
                assert(k < i - o.children.len());
            }
        }
        let size = match row_size(&blocks, hp, vp, ip, mn, mx) {
            Some(sz) => sz,
            None => return false,
        };
        let tray: u64 = match &self.systray {
            Some(t) => if t.is_empty() {
                0
            } else {
                t.size().0 as u64 + style.padding_horz as u64
            },
            None => 0,
        };
        if tray > i32::MAX as u64 {
            return false;
        }
        let x = self.dimensions.w as i64 - tray as i64 - size.0 as i64;
        if x < i32::MIN as i64 {
            return false;
        }
        let hd = (self.dimensions.h as i64 - size.1 as i64) / 2;
        let px = x - hd;
        i32::MIN as i64 <= px && px <= i32::MAX as i64
    }

    /// Whether the title can be shown (see [Bar::arrange_title]): its text fits into the title
    /// widget, and the bar and the widget's new width can be handled as `i32`.
    pub fn title_fits(&self, title: &str, text_size: Option<(u32, u32)>) -> (b: bool)
        ensures
            b == ({
                &&& text_fits(text_size, self.title_widget@.hpad, self.title_widget@.vpad)
                &&& self.dimensions.w <= i32_max()
                &&& self.dimensions.h <= i32_max()
                &&& labeled_view(self.title_widget@, title@, text_size).width <= i32_max()
            }),
    {
        let (hp, vp, mn, mx, wh) = self.title_widget.layout_params();
        if !text_fits_check(text_size, hp, vp) || self.dimensions.w > i32::MAX as u32 || self.dimensions.h
            > i32::MAX as u32 {
            return false;
        }
        let sz = text_size_for(text_size, hp, vp, mn, mx, wh);
        proof {
            let v1 = TextWidgetView { label: title@, text_size, ..self.title_widget@ };
            assert(text_widget_size(v1) == sz);
        }
        sz.0 <= i32::MAX as u32
    }

    /// Whether the system tray can be placed at the right edge (see [Bar::arrange_tray]): the
    /// bar, the tray and its place can be handled as `i32`.
    pub fn tray_fits(&self) -> (b: bool)
        ensures
            b == ({
                &&& self.dimensions.w <= i32_max()
                &&& self.dimensions.h <= i32_max()
                &&& self.systray matches Some(t) ==> t@.width <= i32_max() && t@.height <= i32_max()
                    && i32_min() <= self.dimensions.w - t@.width - half_trunc(self.dimensions.h - t@.height)
                    <= i32_max()
            }),
    {
        if self.dimensions.w > i32::MAX as u32 || self.dimensions.h > i32::MAX as u32 {
            return false;
        }
        match &self.systray {
            Some(t) => {
                let (tw, th) = t.size();
                if tw > i32::MAX as u32 || th > i32::MAX as u32 {
                    return false;
                }
                let hd = (self.dimensions.h as i64 - th as i64) / 2;
                let x = self.dimensions.w as i64 - tw as i64 - hd;
                i32::MIN as i64 <= x && x <= i32::MAX as i64
            },
            None => true,
        }
    }

    /// Whether the widths can be shared out (see [Bar::update_constraints]): the workspace
    /// buttons fit into the bar and no width that is left runs below zero.
    pub fn constraints_check(&self) -> (b: bool)
        requires
            bar_fits(*self),
        ensures
            b == (self.workspace_widget@.width <= self.dimensions.w && constraints_fit(*self)),
    {
        let (ww, _) = self.workspace_widget.size();
        if ww > self.dimensions.w {
            return false;
        }
        let h = self.dimensions.h;
        let for_tray = self.dimensions.w - ww;
        let pad = self.config.style.status.padding_horz;
        let for_status: u32 = match &self.systray {
            Some(t) => {
                let ts = t.size_with_max((for_tray, h)).0;
                if ts as u64 + pad as u64 > u32::MAX as u64 || ts as u64 + pad as u64 > for_tray as u64 {
                    return false;
                }
                for_tray - (ts + pad)
            },
            None => for_tray,
        };
        let (hp, vp, ip, mn, _) = self.status_widget.layout_params();
        let sizes = self.status_widget.child_size_list();
        match row_size(&sizes, hp, vp, ip, mn, (for_status, h)) {
            Some(sz) => sz.0 <= for_status,
            None => false,
        }
    }

    /// What decides the size of workspace button `i` after new names (see [ws_button_view]),
    /// if its texts fit into it.
    fn button_params(
        &self,
        i: usize,
        labels: &Vec<String>,
        sizes: &Vec<Option<(u32, u32)>>,
        fresh: &Vec<(u64, Option<(u32, u32)>)>,
    ) -> (r: Option<(Option<(u32, u32)>, u32, u32, (u32, u32), (u32, u32))>)
        requires
            i < labels@.len(),
            sizes@.len() == labels@.len(),
            fresh@.len() == if labels@.len() > self.workspace_widget@.children.len() {
                labels@.len() - self.workspace_widget@.children.len()
            } else {
                0
            },
        ensures
            ({
                let o = self.workspace_widget@;
                let style = self.config.style.workspaces;
                &&& r is Some <==> if i < o.children.len() {
                    text_fits(sizes@[i as int], o.children[i as int]@.hpad, o.children[i as int]@.vpad)
                } else {
                    text_fits(sizes@[i as int], style.text_padding_horz, style.text_padding_vert) && text_fits(
                        fresh@[i - o.children.len()].1,
                        style.text_padding_horz,
                        style.text_padding_vert,
                    )
                }
                &&& r matches Some(p) ==> p == size_params(ws_button_view(o.children, labels@, sizes@, fresh@, style, i as int))
                    && text_fits(p.0, p.1, p.2)
            }),
    {
        let ghost o = self.workspace_widget@;
        let style = self.config.style.workspaces;
        let children = self.workspace_widget.children();
        let n_old = children.len();
        let tph = style.text_padding_horz;
        let tpv = style.text_padding_vert;
        if i < n_old {
            let (hp, vp, mn, mx, wh) = children[i].layout_params();
            if !text_fits_check(sizes[i], hp, vp) {
                return None;
            }
            let sz = text_size_for(sizes[i], hp, vp, mn, mx, wh);
            proof {
                let v1 = TextWidgetView { label: labels@[i as int]@, text_size: sizes@[i as int], ..o.children[i as int]@ };
                assert(text_widget_size(v1) == sz);
            }
            Some((sizes[i], hp, vp, mx, sz))
        } else {
            let k = i - n_old;
            if !text_fits_check(sizes[i], tph, tpv) || !text_fits_check(fresh[k].1, tph, tpv) {
                return None;
            }
            let f = text_size_for(fresh[k].1, tph, tpv, (MIN_WIDTH, MIN_HEIGHT), (MAX_WIDTH, MAX_HEIGHT), (MIN_WIDTH, MIN_HEIGHT));
            proof {
                let v0 = TextWidgetView {
                    label: Seq::empty(),
                    window: fresh@[k as int].0,
                    pos: (0i32, 0i32),
                    width: MIN_WIDTH,
                    height: MIN_HEIGHT,
                    min_size: (MIN_WIDTH, MIN_HEIGHT),
                    max_size: (MAX_WIDTH, MAX_HEIGHT),
                    hpad: tph,
                    vpad: tpv,
                    fg_color: style.foreground,
                    bg_color: style.inner_background,
                    text_size: fresh@[k as int].1,
                };
                assert(text_widget_size(v0) == f);
            }
            Some((fresh[k].1, tph, tpv, (MAX_WIDTH, MAX_HEIGHT), f))
        }
    }

    /// Whether the workspace buttons can be given the names (see [Bar::arrange_workspaces]): one
    /// size per name and one fresh window per missing button, every text fits into its button,
    /// and the row fits both after the new names and after the buttons were made equally wide
    /// (if the style asks for that).
    #[verifier::spinoff_prover]
    #[verifier::rlimit(40)]
    pub fn workspaces_fit(
        &self,
        labels: &Vec<String>,
        sizes: &Vec<Option<(u32, u32)>>,
        fresh: &Vec<(u64, Option<(u32, u32)>)>,
    ) -> (b: bool)
        ensures
            b == ({
                let o = self.workspace_widget@;
                let style = self.config.style.workspaces;
                let expand = self.config.style.expand_workspace_widgets;
                &&& labels_fit(o.children, labels@, sizes@, fresh@, style)
                &&& row_fits(button_sizes(o.children, labels@, sizes@, fresh@, style), o.hpad, o.vpad, o.ipad)
                &&& row_fits(final_button_sizes(o.children, labels@, sizes@, fresh@, style, expand), o.hpad, o.vpad, o.ipad)
            }),
    {
        let ghost o = self.workspace_widget@;
        let style = self.config.style.workspaces;
        let expand = self.config.style.expand_workspace_widgets;
        let children = self.workspace_widget.children();
        let n_old = children.len();
        if sizes.len() != labels.len() {
            return false;
        }
        let expected = if labels.len() > n_old {
            labels.len() - n_old
        } else {
            0
        };
        if fresh.len() != expected {
            return false;
        }
        let tph = style.text_padding_horz;
        let tpv = style.text_padding_vert;
        let mut params: Vec<(Option<(u32, u32)>, u32, u32, (u32, u32), (u32, u32))> = Vec::new();
        let mut buttons: Vec<(u32, u32)> = Vec::new();
        let mut widest: u32 = 0;
        let mut i: usize = 0;
        while i < labels.len()
            invariant
                i <= labels@.len(),
                sizes@.len() == labels@.len(),
                fresh@.len() == expected,
                expected == if labels@.len() > n_old { labels@.len() - n_old } else { 0 },
                n_old == o.children.len(),
                o == self.workspace_widget@,
                style == self.config.style.workspaces,
                tph == style.text_padding_horz,
                tpv == style.text_padding_vert,
                params@.len() == i,
                buttons@.len() == i,
                forall|j: int| 0 <= j < i && j < o.children.len() ==> text_fits(#[trigger] sizes@[j], o.children[j]@.hpad, o.children[j]@.vpad),
                forall|j: int| 0 <= j < i && j >= o.children.len() ==> text_fits(#[trigger] sizes@[j], tph, tpv),
                forall|k: int| 0 <= k < i - o.children.len() ==> text_fits((#[trigger] fresh@[k]).1, tph, tpv),
                forall|j: int| 0 <= j < i ==> #[trigger] params@[j] == size_params(ws_button_view(o.children, labels@, sizes@, fresh@, style, j)),
                forall|j: int| 0 <= j < i ==> text_fits((#[trigger] params@[j]).0, params@[j].1, params@[j].2),
                forall|j: int| 0 <= j < i ==> #[trigger] buttons@[j] == params@[j].4,
                widest == widest_button(o.children, labels@, sizes@, fresh@, style, i as int),
            decreases labels@.len() - i,
        {
            let p = match self.button_params(i, labels, sizes, fresh) {
                Some(p) => p,
                None => {
                    proof {
                        if i as int >= o.children.len() && !text_fits(fresh@[i - o.children.len()].1, tph, tpv) {
                            assert(0 <= i - o.children.len() < fresh@.len());
                        }
                    }
                    return false;
                },
            };
            let sz = p.4;
            if sz.0 > widest {
                widest = match p.0 {
                    Some(ts) => ts.0,
                    None => sz.0,
                };
            }
            params.push(p);
            buttons.push(sz);
            i += 1;
        }
        let (hp, vp, ip, mn, mx) = self.workspace_widget.layout_params();
        let ghost bs = button_sizes(o.children, labels@, sizes@, fresh@, style);
        let ghost fs = final_button_sizes(o.children, labels@, sizes@, fresh@, style, expand);
        proof {
            assert(buttons@ =~= bs) by {
                assert forall|j: int| 0 <= j < bs.len() implies buttons@[j] == bs[j] by {
                    assert(params@[j] == size_params(ws_button_view(o.children, labels@, sizes@, fresh@, style, j)));
                }
            }
            assert forall|k: int| 0 <= k < fresh@.len() implies text_fits((#[trigger] fresh@[k]).1, tph, tpv) by {
                assert(k < i - o.children.len());
            }
        }
        if row_size(&buttons, hp, vp, ip, mn, mx).is_none() {
            return false;
        }
        if !expand {
            proof {
                assert(fs =~= bs);
            }
            return true;
        }
        let mut finals: Vec<(u32, u32)> = Vec::new();
        let mut j: usize = 0;
        while j < params.len()
            invariant
                j <= params@.len(),
                params@.len() == labels@.len(),
                expand,
                o == self.workspace_widget@,
                style == self.config.style.workspaces,
                fs == final_button_sizes(o.children, labels@, sizes@, fresh@, style, expand),
                widest == widest_button(o.children, labels@, sizes@, fresh@, style, labels@.len() as int),
                finals@.len() == j,
                forall|q: int| 0 <= q < params@.len() ==> #[trigger] params@[q] == size_params(ws_button_view(o.children, labels@, sizes@, fresh@, style, q)),
                forall|q: int| 0 <= q < params@.len() ==> text_fits((#[trigger] params@[q]).0, params@[q].1, params@[q].2),
                forall|q: int| 0 <= q < j ==> #[trigger] finals@[q] == fs[q],
            decreases params@.len() - j,
        {
            let (ts, bh, bv, bmx, bwh) = params[j];
            let sz = text_size_for(ts, bh, bv, (widest, MIN_HEIGHT), bmx, bwh);
            proof {
                let v = ws_button_view(o.children, labels@, sizes@, fresh@, style, j as int);
                assert(params@[j as int] == size_params(v));
                let v2 = TextWidgetView { min_size: (widest, MIN_HEIGHT), ..v };
                assert(text_widget_size(v2) == sz);
            }
            finals.push(sz);
            j += 1;
        }
        proof {
            assert(finals@ =~= fs);
        }
        row_size(&finals, hp, vp, ip, mn, mx).is_some()
    }

    /// Show the status blocks with the labels (the text of label `i` has the size `sizes[i]`,
    /// if it could be measured): the blocks that are there take the first labels, a new block
    /// is made in each of the fresh windows (whose empty text has the given size) for the rest,
    /// blocks without a label go away. The row is laid out again and placed at the right edge,
    /// left of the tray. Returns whether the tray is to be shown (it is hidden without icons),
    /// if there is one.
    pub fn arrange_status(
        &mut self,
        labels: &Vec<String>,
        sizes: &Vec<Option<(u32, u32)>>,
        fresh: &Vec<(u64, Option<(u32, u32)>)>,
    ) -> (tray_shown: Option<bool>)
        requires
            bar_fits(*old(self)),
            labels_fit(
                old(self).status_widget@.children,
                labels@,
                sizes@,
                fresh@,
                old(self).config.style.status,
            ),
            row_fits(
                block_sizes(old(self).status_widget@.children, labels@, sizes@, fresh@, old(self).config.style.status),
                old(self).status_widget@.hpad,
                old(self).status_widget@.vpad,
                old(self).status_widget@.ipad,
            ),
            tray_share(old(self).systray, old(self).config.style.status.padding_horz) <= i32_max(),
            ({
                let size = flow_size_of(
                    block_sizes(old(self).status_widget@.children, labels@, sizes@, fresh@, old(self).config.style.status),
                    old(self).status_widget@.hpad,
                    old(self).status_widget@.vpad,
                    old(self).status_widget@.ipad,
                    old(self).status_widget@.min_size,
                    old(self).status_widget@.max_size,
                );
                let tray = tray_share(old(self).systray, old(self).config.style.status.padding_horz);
                &&& i32_min() <= old(self).dimensions.w - tray - size.0
                &&& i32_min() <= status_pos(old(self).dimensions, tray, size).0 <= i32_max()
            }),
        ensures
            bar_fits(*final(self)),
            tray_shown == match old(self).systray {
                Some(t) => Some(t@.tray_icons.len() > 0),
                None => None,
            },
            ({
                let o = old(self).status_widget@;
                let style = old(self).config.style.status;
                let n = final(self).status_widget@;
                let size = flow_size(n);
                let p = status_pos(old(self).dimensions, tray_share(old(self).systray, style.padding_horz), size);
                &&& n.children.len() == labels@.len()
                &&& forall|i: int| 0 <= i < labels@.len() ==> #[trigger] n.children[i]@ == (TextWidgetView {
                    pos: flow_child_pos(n, i),
                    ..block_view(o.children, labels@, sizes@, fresh@, style, i)
                })
                &&& n == (FlowLayoutView {
                    children: n.children,
                    width: size.0,
                    height: size.1,
                    pos: (p.0 as i32, p.1 as i32),
                    ..o
                })
            }),
            final(self).dimensions == old(self).dimensions,
            final(self).config == old(self).config,
            final(self).workspace_widget == old(self).workspace_widget,
            final(self).title_widget == old(self).title_widget,
            final(self).systray == old(self).systray,
            final(self).active_window == old(self).active_window,
    {
        let ghost o = self.status_widget@;
        let ghost style = self.config.style.status;
        let count = self.status_widget.count_children();
        let mut i: usize = 0;
        while i < labels.len()
            invariant
                i <= labels@.len(),
                count == o.children.len(),
                style == self.config.style.status,
                self.config == old(self).config,
                self.dimensions == old(self).dimensions,
                self.systray == old(self).systray,
                self.workspace_widget == old(self).workspace_widget,
                self.title_widget == old(self).title_widget,
                self.active_window == old(self).active_window,
                o == old(self).status_widget@,
                labels_fit(o.children, labels@, sizes@, fresh@, style),
                flow_fits(o),
                self.status_widget@ == (FlowLayoutView { children: self.status_widget@.children, ..o }),
                self.status_widget@.children.len() == if i < count {
                    count as int
                } else {
                    i as int
                },
                forall|k: int| 0 <= k < i ==> (#[trigger] self.status_widget@.children[k])@ == block_view(o.children, labels@, sizes@, fresh@, style, k),
                forall|k: int| 0 <= k < i ==> (#[trigger] self.status_widget@.children[k]).wf(),
                forall|k: int| i <= k < count ==> #[trigger] self.status_widget@.children[k] == o.children[k],
            decreases labels@.len() - i,
        {
            let label = labels[i].clone();
            if i < count {
                assert(o.children[i as int].well_formed());
                let child = self.status_widget.child_mut(i);
                child.set_label(label, sizes[i]);
            } else {
                let (win, empty_size) = fresh[i - count];
                let mut w = self.config.style.status.create_text_widget(win, empty_size);
                w.set_label(label, sizes[i]);
                self.status_widget.append_child(w);
            }
            i += 1;
        }
        if labels.len() < count {
            self.status_widget.truncate_children(labels.len());
        }
        let ghost bs = block_sizes(o.children, labels@, sizes@, fresh@, style);
        proof {
            let v = self.status_widget@;
            assert(v.children.len() == labels@.len());
            assert forall|k: int| 0 <= k < v.children.len() implies #[trigger] child_sizes(v.children)[k] == bs[k] by {}
            assert(child_sizes(v.children) =~= bs);
            assert forall|k: int| 0 <= k < v.children.len() implies (#[trigger] v.children[k]).well_formed() by {}
        }
        let ghost before = self.status_widget@;
        self.status_widget.rearrange();
        proof {
            let n = self.status_widget@;
            assert forall|k: int| 0 <= k < labels@.len() implies #[trigger] n.children[k]@ == (TextWidgetView {
                pos: flow_child_pos(n, k),
                ..block_view(o.children, labels@, sizes@, fresh@, style, k)
            }) by {
                lemma_text_at(before.children[k], flow_child_pos(n, k).0, flow_child_pos(n, k).1);
            }
        }
        let mut tray_width: u32 = 0;
        let mut shown: Option<bool> = None;
        match &self.systray {
            Some(tray) => {
                if tray.is_empty() {
                    shown = Some(false);
                } else {
                    shown = Some(true);
                    tray_width = tray.size().0 + self.config.style.status.padding_horz;
                }
            },
            None => {},
        }
        let (sw, sh) = self.status_widget.size();
        let height_diff = (self.dimensions.h as i32 - sh as i32) / 2;
        let x = self.dimensions.w as i32 - tray_width as i32 - sw as i32 - height_diff;
        let ghost laid = self.status_widget;
        self.status_widget.move_to(x, height_diff);
        proof {
            lemma_flow_at(laid, x, height_diff);
        }
        shown
    }

    /// Show the workspace buttons with the names (the text of name `i` has the size `sizes[i]`,
    /// if it could be measured): the buttons that are there take the first names; a new button
    /// is made in each of the fresh windows (whose empty text has the given size) for the rest
    /// and keeps its empty label for now; buttons without a name go away. If the style asks for
    /// it, all buttons become as wide as the widest one. The row moves to the left edge,
    /// centered vertically by its height before it is laid out again, and is laid out again.
    #[verifier::rlimit(40)]
    pub fn arrange_workspaces(
        &mut self,
        labels: &Vec<String>,
        sizes: &Vec<Option<(u32, u32)>>,
        fresh: &Vec<(u64, Option<(u32, u32)>)>,
    )
        requires
            bar_fits(*old(self)),
            labels_fit(
                old(self).workspace_widget@.children,
                labels@,
                sizes@,
                fresh@,
                old(self).config.style.workspaces,
            ),
            row_fits(
                button_sizes(old(self).workspace_widget@.children, labels@, sizes@, fresh@, old(self).config.style.workspaces),
                old(self).workspace_widget@.hpad,
                old(self).workspace_widget@.vpad,
                old(self).workspace_widget@.ipad,
            ),
            row_fits(
                final_button_sizes(
                    old(self).workspace_widget@.children,
                    labels@,
                    sizes@,
                    fresh@,
                    old(self).config.style.workspaces,
                    old(self).config.style.expand_workspace_widgets,
                ),
                old(self).workspace_widget@.hpad,
                old(self).workspace_widget@.vpad,
                old(self).workspace_widget@.ipad,
            ),
        ensures
            bar_fits(*final(self)),
            ({
                let o = old(self).workspace_widget@;
                let style = old(self).config.style.workspaces;
                let expand = old(self).config.style.expand_workspace_widgets;
                let n = final(self).workspace_widget@;
                let size = flow_size(n);
                let moved_height = if labels@.len() > o.children.len() {
                    flow_size_of(button_sizes(o.children, labels@, sizes@, fresh@, style), o.hpad, o.vpad, o.ipad, o.min_size, o.max_size).1
                } else {
                    o.height
                };
                &&& n.children.len() == labels@.len()
                &&& forall|i: int| 0 <= i < labels@.len() ==> #[trigger] n.children[i]@ == (TextWidgetView {
                    pos: flow_child_pos(n, i),
                    ..final_button_view(o.children, labels@, sizes@, fresh@, style, expand, i)
                })
                &&& n == (FlowLayoutView {
                    children: n.children,
                    width: size.0,
                    height: size.1,
                    pos: (0i32, half_trunc(old(self).dimensions.h - moved_height) as i32),
                    ..o
                })
            }),
            final(self).dimensions == old(self).dimensions,
            final(self).config == old(self).config,
            final(self).status_widget == old(self).status_widget,
            final(self).title_widget == old(self).title_widget,
            final(self).systray == old(self).systray,
            final(self).active_window == old(self).active_window,
    {
        let ghost o = self.workspace_widget@;
        let ghost style = self.config.style.workspaces;
        let ghost expand = self.config.style.expand_workspace_widgets;
        let count = self.workspace_widget.count_children();
        let max_width = relabel_buttons(&mut self.workspace_widget, &self.config.style.workspaces, labels, sizes, fresh);
        let ghost bs = button_sizes(o.children, labels@, sizes@, fresh@, style);
        let ghost fs = final_button_sizes(o.children, labels@, sizes@, fresh@, style, expand);
        proof {
            let v = self.workspace_widget@;
            assert forall|k: int| 0 <= k < v.children.len() implies #[trigger] child_sizes(v.children)[k] == bs[k] by {}
            assert(child_sizes(v.children) =~= bs);
        }
        if labels.len() > count {
            let ghost pre = self.workspace_widget@;
            self.workspace_widget.rearrange();
            proof {
                assert forall|k: int| 0 <= k < labels@.len() implies #[trigger] same_but_pos(ws_button_view(o.children, labels@, sizes@, fresh@, style, k), self.workspace_widget@.children[k]@) by {
                    lemma_text_at(pre.children[k], flow_child_pos(self.workspace_widget@, k).0, flow_child_pos(self.workspace_widget@, k).1);
                }
            }
        } else {
            proof {
                assert forall|k: int| 0 <= k < labels@.len() implies #[trigger] same_but_pos(ws_button_view(o.children, labels@, sizes@, fresh@, style, k), self.workspace_widget@.children[k]@) by {}
            }
        }
        let ghost mid = self.workspace_widget@;
        if self.config.style.expand_workspace_widgets {
            expand_buttons(&mut self.workspace_widget, max_width);
            proof {
                assert forall|k: int| 0 <= k < labels@.len() implies #[trigger] same_but_pos(
                    final_button_view(o.children, labels@, sizes@, fresh@, style, expand, k),
                    self.workspace_widget@.children[k]@,
                ) by {
                    assert(same_but_pos(ws_button_view(o.children, labels@, sizes@, fresh@, style, k), mid.children[k]@));
                }
            }
        }
        proof {
            let v = self.workspace_widget@;
            assert forall|k: int| 0 <= k < v.children.len() implies #[trigger] child_sizes(v.children)[k] == fs[k] by {
                assert(same_but_pos(final_button_view(o.children, labels@, sizes@, fresh@, style, expand, k), v.children[k]@));
            }
            assert(child_sizes(v.children) =~= fs);
        }
        let (_, wh) = self.workspace_widget.size();
        let height_diff = (self.dimensions.h as i32 - wh as i32) / 2;
        let ghost unmoved = self.workspace_widget;
        self.workspace_widget.move_to(0, height_diff);
        proof {
            lemma_flow_at(unmoved, 0, height_diff);
        }
        let ghost pre = self.workspace_widget@;
        self.workspace_widget.rearrange();
        proof {
            let n = self.workspace_widget@;
            assert forall|i: int| 0 <= i < labels@.len() implies #[trigger] n.children[i]@ == (TextWidgetView {
                pos: flow_child_pos(n, i),
                ..final_button_view(o.children, labels@, sizes@, fresh@, style, expand, i)
            }) by {
                assert(same_but_pos(final_button_view(o.children, labels@, sizes@, fresh@, style, expand, i), pre.children[i]@));
                lemma_text_at(pre.children[i], flow_child_pos(n, i).0, flow_child_pos(n, i).1);
            }
        }
    }

    /// A bar over `dimensions` (its height taken from the style) with empty widgets made from
    /// the style in the given windows: the workspace buttons, the status blocks, the title, and
    /// a system tray if a window is given for it and its padding fits.
    pub fn new(
        dimensions: Dimensions,
        config: BarConfiguration,
        workspace_window: u64,
        status_window: u64,
        title_window: u64,
        title_text_size: Option<(u32, u32)>,
        tray_window: Option<u64>,
    ) -> (b: Bar)
        requires
            2 * config.style.workspaces.padding_horz <= i32_max(),
            2 * config.style.workspaces.padding_vert <= i32_max(),
            2 * config.style.status.padding_horz <= i32_max(),
            2 * config.style.status.padding_vert <= i32_max(),
            text_fits(title_text_size, config.style.title.padding_horz, config.style.title.padding_vert),
            tray_window is Some ==> 2 * config.style.status.spacing <= config.style.height,
            dimensions.w <= i32_max(),
            config.style.height <= i32_max(),
        ensures
            bar_fits(b),
            b.dimensions == (Dimensions { h: config.style.height, ..dimensions }),
            b.config == config,
            b.workspace_widget@.window == workspace_window,
            b.workspace_widget@.children.len() == 0,
            b.status_widget@.window == status_window,
            b.status_widget@.children.len() == 0,
            b.title_widget@ == new_text_view(
                title_window,
                0,
                0,
                config.style.title.padding_horz,
                config.style.title.padding_vert,
                Seq::empty(),
                config.style.title.foreground,
                config.style.title.background,
                title_text_size,
            ),
            b.systray is Some <==> tray_window is Some && config.style.height - 2 * config.style.status.spacing
                >= 2 * config.style.status.padding_vert,
            b.systray matches Some(t) ==> t@.window == tray_window->0 && t@.height == config.style.height - 2
                * config.style.status.spacing,
            b.active_window is None,
    {
        let mut dims = dimensions;
        dims.h = config.style.height;
        let workspace_widget = config.style.workspaces.create_flow_layout_widget(workspace_window);
        let title_widget = config.style.title.create_text_widget(title_window, title_text_size);
        let status_widget = config.style.status.create_flow_layout_widget(status_window);
        let systray = match tray_window {
            Some(w) => match config.style.status.create_systray_widget(w, dims.h) {
                Ok(t) => Some(t),
                Err(_) => None,
            },
            None => None,
        };
        Bar {
            dimensions: dims,
            config,
            workspace_widget,
            status_widget,
            systray,
            title_widget,
            active_window: None,
        }
    }

    /// Keep the widgets within the width of the bar: the tray and the status blocks may take
    /// what the workspace buttons leave, the title what the tray and the status leave.
    pub fn update_constraints(&mut self)
        requires
            bar_fits(*old(self)),
            old(self).workspace_widget@.width <= old(self).dimensions.w,
            constraints_fit(*old(self)),
        ensures
            bar_fits(*final(self)),
            ({
                let o = *old(self);
                let widths = constraint_widths(o);
                let h = o.dimensions.h;
                &&& final(self).status_widget@ == (FlowLayoutView {
                    width: flow_size(FlowLayoutView { max_size: (widths.1 as u32, h), ..o.status_widget@ }).0,
                    height: flow_size(FlowLayoutView { max_size: (widths.1 as u32, h), ..o.status_widget@ }).1,
                    max_size: (widths.1 as u32, h),
                    ..o.status_widget@
                })
                &&& final(self).title_widget@ == sized_view(
                    TextWidgetView { max_size: (widths.2 as u32, h), ..o.title_widget@ },
                )
                &&& match (o.systray, final(self).systray) {
                    (Some(t0), Some(t1)) => t1@ == (SystemTrayView {
                        width: tray_size(SystemTrayView { max_size: (widths.0 as u32, h), ..t0@ }).0,
                        height: tray_size(SystemTrayView { max_size: (widths.0 as u32, h), ..t0@ }).1,
                        max_size: (widths.0 as u32, h),
                        ..t0@
                    }),
                    (None, None) => true,
                    _ => false,
                }
            }),
            final(self).dimensions == old(self).dimensions,
            final(self).config == old(self).config,
            final(self).workspace_widget == old(self).workspace_widget,
            final(self).active_window == old(self).active_window,
    {
        let height = self.dimensions.h;
        let mut width = self.dimensions.w - self.workspace_widget.size().0;
        match &mut self.systray {
            Some(tray) => {
                tray.set_max_size((width, height));
                width = width - (tray.size().0 + self.config.style.status.padding_horz);
            },
            None => {},
        }
        self.status_widget.set_max_size((width, height));
        width = width - self.status_widget.size().0;
        self.title_widget.set_max_size((width, height));
    }

    /// Mark the button of the shown workspace: it swaps the colors of the others.
    pub fn set_active_workspace(&mut self, new_idx: u32)
        ensures
            bar_fits(*old(self)) ==> bar_fits(*final(self)),
            ({
                let o = old(self).workspace_widget@;
                let style = old(self).config.style.workspaces;
                let n = final(self).workspace_widget@;
                &&& n == (FlowLayoutView { children: n.children, ..o })
                &&& n.children.len() == o.children.len()
                &&& forall|i: int| 0 <= i < o.children.len() ==> #[trigger] n.children[i]@ == if (i as u32) == new_idx {
                    TextWidgetView { fg_color: style.inner_background, bg_color: style.foreground, ..o.children[i]@ }
                } else {
                    TextWidgetView { fg_color: style.foreground, bg_color: style.inner_background, ..o.children[i]@ }
                }
            }),
            final(self).dimensions == old(self).dimensions,
            final(self).config == old(self).config,
            final(self).status_widget == old(self).status_widget,
            final(self).title_widget == old(self).title_widget,
            final(self).systray == old(self).systray,
            final(self).active_window == old(self).active_window,
    {
        let ghost o = self.workspace_widget@;
        let n = self.workspace_widget.count_children();
        let fg = self.config.style.workspaces.foreground;
        let inner = self.config.style.workspaces.inner_background;
        let mut i: usize = 0;
        while i < n
            invariant
                i <= n,
                n == o.children.len(),
                o == old(self).workspace_widget@,
                fg == old(self).config.style.workspaces.foreground,
                inner == old(self).config.style.workspaces.inner_background,
                self.workspace_widget@ == (FlowLayoutView { children: self.workspace_widget@.children, ..o }),
                self.workspace_widget@.children.len() == n,
                self.dimensions == old(self).dimensions,
                self.config == old(self).config,
                self.status_widget == old(self).status_widget,
                self.title_widget == old(self).title_widget,
                self.systray == old(self).systray,
                self.active_window == old(self).active_window,
                forall|q: int| 0 <= q < i ==> #[trigger] self.workspace_widget@.children[q]@ == if (q as u32) == new_idx {
                    TextWidgetView { fg_color: inner, bg_color: fg, ..o.children[q]@ }
                } else {
                    TextWidgetView { fg_color: fg, bg_color: inner, ..o.children[q]@ }
                },
                forall|q: int| i <= q < n ==> #[trigger] self.workspace_widget@.children[q] == o.children[q],
            decreases n - i,
        {
            let child = self.workspace_widget.child_mut(i);
            if i as u32 == new_idx {
                child.set_foreground(inner);
                child.set_background(fg);
            } else {
                child.set_foreground(fg);
                child.set_background(inner);
            }
            i += 1;
        }
        proof {
            let v = self.workspace_widget@;
            assert(child_sizes(v.children) =~= child_sizes(o.children)) by {
                assert forall|q: int| 0 <= q < n implies (#[trigger] v.children[q]).spec_size() == o.children[q].spec_size() by {}
            }
            assert forall|q: int| 0 <= q < v.children.len() && (#[trigger] o.children[q]).well_formed() implies v.children[q].well_formed() by {}
        }
    }

    /// The widget that takes an event on `window`: the workspace buttons, the status blocks,
    /// the title and the tray are asked in this order.
    pub fn route_event(&self, window: u64) -> (r: Option<u64>)
        ensures
            r == match self.workspace_widget.spec_route(window) {
                Some(w) => Some(w),
                None => match self.status_widget.spec_route(window) {
                    Some(w) => Some(w),
                    None => match self.title_widget.spec_route(window) {
                        Some(w) => Some(w),
                        None => match self.systray {
                            Some(t) => t.spec_route(window),
                            None => None,
                        },
                    },
                },
            },
    {
        if let Some(w) = self.workspace_widget.handle_xevent(window) {
            return Some(w);
        }
        if let Some(w) = self.status_widget.handle_xevent(window) {
            return Some(w);
        }
        if let Some(w) = self.title_widget.handle_xevent(window) {
            return Some(w);
        }
        match &self.systray {
            Some(t) => t.handle_xevent(window),
            None => None,
        }
    }

    /// Follow a new monitor configuration: the bar takes the position and width of the monitor
    /// and keeps its height.
    pub fn reconfigure(&mut self, monitor_dimensions: Dimensions)
        ensures
            bar_fits(*old(self)) && monitor_dimensions.w <= i32_max() ==> bar_fits(*final(self)),
            final(self).dimensions == (Dimensions {
                x: monitor_dimensions.x,
                y: monitor_dimensions.y,
                w: monitor_dimensions.w,
                ..old(self).dimensions
            }),
            final(self).config == old(self).config,
            final(self).workspace_widget == old(self).workspace_widget,
            final(self).status_widget == old(self).status_widget,
            final(self).title_widget == old(self).title_widget,
            final(self).systray == old(self).systray,
            final(self).active_window == old(self).active_window,
    {
        self.dimensions.x = monitor_dimensions.x;
        self.dimensions.y = monitor_dimensions.y;
        self.dimensions.w = monitor_dimensions.w;
    }
}


/// Give the workspace buttons new names (see [ws_button_view]); returns the width that they may
/// all take (see [widest_button]).
fn relabel_buttons(
    row: &mut FlowLayoutWidget<TextWidget>,
    style: &ContainerWidgetStyle,
    labels: &Vec<String>,
    sizes: &Vec<Option<(u32, u32)>>,
    fresh: &Vec<(u64, Option<(u32, u32)>)>,
) -> (max_width: u32)
    requires
        flow_fits(old(row)@),
        labels_fit(old(row)@.children, labels@, sizes@, fresh@, *style),
    ensures
        max_width == widest_button(old(row)@.children, labels@, sizes@, fresh@, *style, labels@.len() as int),
        final(row)@ == (FlowLayoutView { children: final(row)@.children, ..old(row)@ }),
        final(row)@.children.len() == labels@.len(),
        forall|k: int| 0 <= k < labels@.len() ==> (#[trigger] final(row)@.children[k])@ == ws_button_view(old(row)@.children, labels@, sizes@, fresh@, *style, k),
        forall|k: int| 0 <= k < labels@.len() ==> (#[trigger] final(row)@.children[k]).wf(),
{
    let ghost o = row@;
    let count = row.count_children();
    let mut max_width: u32 = 0;
    let mut i: usize = 0;
    while i < labels.len()
        invariant
            i <= labels@.len(),
            count == o.children.len(),
            o == old(row)@,
            labels_fit(o.children, labels@, sizes@, fresh@, *style),
            flow_fits(o),
            max_width == widest_button(o.children, labels@, sizes@, fresh@, *style, i as int),
            row@ == (FlowLayoutView { children: row@.children, ..o }),
            row@.children.len() == if i < count {
                count as int
            } else {
                i as int
            },
            forall|k: int| 0 <= k < i ==> (#[trigger] row@.children[k])@ == ws_button_view(o.children, labels@, sizes@, fresh@, *style, k),
            forall|k: int| 0 <= k < i ==> (#[trigger] row@.children[k]).wf(),
            forall|k: int| i <= k < count ==> #[trigger] row@.children[k] == o.children[k],
        decreases labels@.len() - i,
    {
        if i < count {
            assert(o.children[i as int].well_formed());
            let label = labels[i].clone();
            let child = row.child_mut(i);
            child.set_label(label, sizes[i]);
            let (cw, _) = child.size();
            if cw > max_width {
                max_width = child.content_size().0;
            }
        } else {
            let (win, empty_size) = fresh[i - count];
            let w = style.create_text_widget(win, empty_size);
            let (cw, _) = w.size();
            if cw > max_width {
                max_width = w.content_size().0;
            }
            row.append_child(w);
        }
        i += 1;
    }
    if labels.len() < count {
        row.truncate_children(labels.len());
    }
    max_width
}

/// Make every widget of the row at least `min_width` wide.
fn expand_buttons(row: &mut FlowLayoutWidget<TextWidget>, min_width: u32)
    requires
        forall|k: int| 0 <= k < old(row)@.children.len() ==> (#[trigger] old(row)@.children[k]).wf(),
    ensures
        final(row)@ == (FlowLayoutView { children: final(row)@.children, ..old(row)@ }),
        final(row)@.children.len() == old(row)@.children.len(),
        forall|k: int| 0 <= k < old(row)@.children.len() ==> (#[trigger] final(row)@.children[k])@ == sized_view(
            TextWidgetView { min_size: (min_width, MIN_HEIGHT), ..old(row)@.children[k]@ },
        ),
        forall|k: int| 0 <= k < old(row)@.children.len() ==> (#[trigger] final(row)@.children[k]).wf(),
{
    let ghost o = row@;
    let n = row.count_children();
    let mut k: usize = 0;
    while k < n
        invariant
            k <= n,
            n == o.children.len(),
            o == old(row)@,
            row@ == (FlowLayoutView { children: row@.children, ..o }),
            row@.children.len() == n,
            forall|q: int| 0 <= q < n ==> (#[trigger] row@.children[q]).wf(),
            forall|q: int| 0 <= q < k ==> (#[trigger] row@.children[q])@ == sized_view(
                TextWidgetView { min_size: (min_width, MIN_HEIGHT), ..o.children[q]@ },
            ),
            forall|q: int| k <= q < n ==> #[trigger] row@.children[q] == o.children[q],
        decreases n - k,
    {
        let child = row.child_mut(k);
        child.set_min_size((min_width, MIN_HEIGHT));
        k += 1;
    }
}
} // verus!
