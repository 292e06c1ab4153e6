//! The look of the status bar, and the widgets it builds from it.
use vstd::prelude::*;

use crate::geometry::i32_max;
use crate::tray::{padding_error, SystemTrayWidget};
use crate::widget::{flow_fits, new_text_view, text_fits, FlowLayoutView, FlowLayoutWidget, TextWidget, Widget};
use crate::widget::{clamp, MAX_HEIGHT, MAX_WIDTH, MIN_HEIGHT, MIN_WIDTH};

verus! {

/// Horizontal padding of text widgets by default.
pub const DEFAULT_TEXT_PADDING_HORZ: u32 = 5;

/// Vertical padding of text widgets by default.
pub const DEFAULT_TEXT_PADDING_VERT: u32 = 0;

/// The look of a text widget.
#[derive(Clone, Copy, Debug, PartialEq, Eq, Structural)]
pub struct TextWidgetStyle {
    pub foreground: u64,
    pub background: u64,
    pub padding_horz: u32,
    pub padding_vert: u32,
}

/// The look of a row of text widgets (the workspaces or the status blocks).
#[derive(Clone, Copy, Debug, PartialEq, Eq, Structural)]
pub struct ContainerWidgetStyle {
    pub foreground: u64,
    pub inner_background: u64,
    pub outer_background: u64,
    pub padding_horz: u32,
    pub padding_vert: u32,
    pub text_padding_horz: u32,
    pub text_padding_vert: u32,
    pub spacing: u32,
}

/// The look of the bar.
#[derive(Clone, Debug, PartialEq)]
pub struct BarStyle {
    pub background: u64,
    pub expand_workspace_widgets: bool,
    pub height: u32,
    pub font: String,
    pub workspaces: ContainerWidgetStyle,
    pub title: TextWidgetStyle,
    pub status: ContainerWidgetStyle,
}

/// The configuration of the bar: the command that produces the status, the command that status
/// blocks run when clicked, and the look.
#[derive(Clone, Debug, PartialEq)]
pub struct BarConfiguration {
    pub status_cmd: Option<String>,
    pub action_cmd: Option<String>,
    pub style: BarStyle,
}

impl Default for TextWidgetStyle {
    fn default() -> (s: Self)
        ensures
            s == (TextWidgetStyle {
                foreground: 0xbcbcbc,
                background: 0x262626,
                padding_horz: DEFAULT_TEXT_PADDING_HORZ,
                padding_vert: DEFAULT_TEXT_PADDING_VERT,
            }),
    {
        TextWidgetStyle {
            foreground: 0xbcbcbc,
            background: 0x262626,
            padding_horz: DEFAULT_TEXT_PADDING_HORZ,
            padding_vert: DEFAULT_TEXT_PADDING_VERT,
        }
    }
}

impl Default for BarStyle {
    fn default() -> (s: Self)
        ensures
            s.background == 0x262626,
            !s.expand_workspace_widgets,
            s.height == 31,
            s.font@ == "serif"@,
            s.workspaces == ContainerWidgetStyle::spec_default_workspaces(),
            s.title == (TextWidgetStyle {
                foreground: 0xbcbcbc,
                background: 0x262626,
                padding_horz: DEFAULT_TEXT_PADDING_HORZ,
                padding_vert: DEFAULT_TEXT_PADDING_VERT,
            }),
            s.status == ContainerWidgetStyle::spec_default_status(),
    {
        BarStyle {
            background: 0x262626,
            expand_workspace_widgets: false,
            height: 31,
            font: "serif".to_string(),
            workspaces: ContainerWidgetStyle::default_workspaces(),
            title: TextWidgetStyle::default(),
            status: ContainerWidgetStyle::default_status(),
        }
    }
}

impl Default for BarConfiguration {
    fn default() -> (c: Self)
        ensures
            c.status_cmd is None,
            c.action_cmd is None,
            c.style.background == 0x262626,
            !c.style.expand_workspace_widgets,
            c.style.height == 31,
            c.style.font@ == "serif"@,
            c.style.workspaces == ContainerWidgetStyle::spec_default_workspaces(),
            c.style.status == ContainerWidgetStyle::spec_default_status(),
    {
        BarConfiguration { status_cmd: None, action_cmd: None, style: BarStyle::default() }
    }
}

impl ContainerWidgetStyle {
    /// The look of the status blocks by default.
    pub open spec fn spec_default_status() -> ContainerWidgetStyle {
        ContainerWidgetStyle {
            foreground: 0x262626,
            inner_background: 0xaf5f5f,
            outer_background: 0x262626,
            padding_horz: 4,
            padding_vert: 4,
            text_padding_horz: 5,
            text_padding_vert: 0,
            spacing: 4,
        }
    }

    /// The look of the workspace buttons by default.
    pub open spec fn spec_default_workspaces() -> ContainerWidgetStyle {
        ContainerWidgetStyle {
            foreground: 0x262626,
            inner_background: 0x5f87af,
            outer_background: 0x262626,
            padding_horz: 0,
            padding_vert: 0,
            text_padding_horz: 10,
            text_padding_vert: 4,
            spacing: 0,
        }
    }

    pub fn default_status() -> (s: Self)
        ensures
            s == Self::spec_default_status(),
    {
        ContainerWidgetStyle {
            foreground: 0x262626,
            inner_background: 0xaf5f5f,
            outer_background: 0x262626,
            padding_horz: 4,
            padding_vert: 4,
            text_padding_horz: 5,
            text_padding_vert: 0,
            spacing: 4,
        }
    }

    pub fn default_workspaces() -> (s: Self)
        ensures
            s == Self::spec_default_workspaces(),
    {
        ContainerWidgetStyle {
            foreground: 0x262626,
            inner_background: 0x5f87af,
            outer_background: 0x262626,
            padding_horz: 0,
            padding_vert: 0,
            text_padding_horz: 10,
            text_padding_vert: 4,
            spacing: 0,
        }
    }

    /// An empty row in `window` with the padding and spacing of this style.
    pub fn create_flow_layout_widget<W: Widget>(&self, window: u64) -> (f: FlowLayoutWidget<W>)
        requires
            2 * self.padding_horz <= i32_max(),
            2 * self.padding_vert <= i32_max(),
        ensures
            flow_fits(f@),
            f@.window == window && f@.pos == (0i32, 0i32),
            f@.children.len() == 0,
            f@.hpad == self.padding_horz && f@.vpad == self.padding_vert && f@.ipad == self.spacing,
            f@.min_size == (MIN_WIDTH, MIN_HEIGHT) && f@.max_size == (MAX_WIDTH, MAX_HEIGHT),
            (f@.width, f@.height) == (
                clamp(2 * self.padding_horz, MIN_WIDTH, MAX_WIDTH),
                clamp(2 * self.padding_vert, MIN_HEIGHT, MAX_HEIGHT),
            ),
    {
        let children: Vec<W> = Vec::new();
        proof {
            let v = FlowLayoutView {
                window,
                children: children@,
                pos: (0i32, 0i32),
                width: MIN_WIDTH,
                height: MIN_HEIGHT,
                min_size: (MIN_WIDTH, MIN_HEIGHT),
                max_size: (MAX_WIDTH, MAX_HEIGHT),
                hpad: self.padding_horz,
                vpad: self.padding_vert,
                ipad: self.spacing,
            };
            assert(crate::widget::child_sizes(v.children) =~= Seq::<(u32, u32)>::empty());
        }
        FlowLayoutWidget::new(window, 0, 0, self.padding_horz, self.padding_vert, self.spacing, children)
    }

    /// An empty text widget in `window` with the text padding and colors of this style.
    pub fn create_text_widget(&self, window: u64, text_size: Option<(u32, u32)>) -> (t: TextWidget)
        requires
            text_fits(text_size, self.text_padding_horz, self.text_padding_vert),
        ensures
            t.wf(),
            t@ == new_text_view(
                window,
                0,
                0,
                self.text_padding_horz,
                self.text_padding_vert,
                Seq::empty(),
                self.foreground,
                self.inner_background,
                text_size,
            ),
    {
        let label = String::new();
        assert(label@ =~= Seq::<char>::empty());
        TextWidget::new(
            window,
            0,
            0,
            self.text_padding_horz,
            self.text_padding_vert,
            label,
            self.foreground,
            self.inner_background,
            text_size,
        )
    }

    /// A system tray in `window` that fits into a parent of height `parent_height` with the
    /// spacing of this style above and below.
    pub fn create_systray_widget(&self, window: u64, parent_height: u32) -> (r: Result<
        SystemTrayWidget,
        String,
    >)
        requires
            2 * self.spacing <= parent_height,
            2 * self.padding_vert <= u32::MAX,
            2 * self.padding_horz <= i32_max(),
        ensures
            r is Err <==> parent_height - 2 * self.spacing < 2 * self.padding_vert,
            r matches Err(msg) ==> msg@ == padding_error(
                (parent_height - 2 * self.spacing) as u32,
                self.padding_vert,
            ),
            r matches Ok(t) ==> t.wf() && t@.window == window && t@.height == parent_height - 2
                * self.spacing && t@.width == t@.height && t@.tray_icons.len() == 0 && t@.ipad == self.padding_horz && t@.hpad == self.padding_horz
                && t@.vpad == self.padding_vert && t@.bg_color == self.inner_background,
    {
        SystemTrayWidget::new(
            window,
            0,
            0,
            parent_height - 2 * self.spacing,
            self.padding_horz,
            self.padding_horz,
            self.padding_vert,
            self.inner_background,
        )
    }
}

impl TextWidgetStyle {
    /// An empty text widget in `window` with the padding and colors of this style.
    pub fn create_text_widget(&self, window: u64, text_size: Option<(u32, u32)>) -> (t: TextWidget)
        requires
            text_fits(text_size, self.padding_horz, self.padding_vert),
        ensures
            t.wf(),
            t@ == new_text_view(
                window,
                0,
                0,
                self.padding_horz,
                self.padding_vert,
                Seq::empty(),
                self.foreground,
                self.background,
                text_size,
            ),
    {
        let label = String::new();
        assert(label@ =~= Seq::<char>::empty());
        TextWidget::new(
            window,
            0,
            0,
            self.padding_horz,
            self.padding_vert,
            label,
            self.foreground,
            self.background,
            text_size,
        )
    }
}

} // verus!
