//! Configuration of the window manager (without the main ratio of the layouts, a floating
//! point value that the caller keeps).
use vstd::prelude::*;

use crate::layouts::{LayoutConfiguration, LayoutType, StackMode, StackPosition};
use crate::rules::WindowPlacement;

verus! {

/// Border widths of windows that ask not to be decorated.
#[derive(PartialEq, Eq, Debug, Copy, Clone, Structural)]
pub struct NoDecorationConfiguration {
    /// width of the frame on every side
    pub frame_width: u32,
    /// width of the border around the inner window
    pub inner_border_width: u32,
    /// width of the border around the frame
    pub outer_border_width: u32,
}

/// Colors and border widths.
#[derive(PartialEq, Eq, Debug, Copy, Clone, Structural)]
pub struct ThemingConfiguration {
    /// primary highlight color
    pub primary_color: u64,
    /// secondary highlight color
    pub secondary_color: u64,
    /// default color
    pub background_color: u64,
    /// width of the frame that client windows are reparented to
    pub frame_width: u32,
    /// width of the border around the inner window
    pub inner_border_width: u32,
    /// width of the border around the frame
    pub outer_border_width: u32,
    /// border widths of windows that ask not to be decorated
    pub no_decoration: NoDecorationConfiguration,
}

/// The configuration of the window manager.
#[derive(PartialEq, Eq, Debug, Copy, Clone, Structural)]
pub struct Configuration {
    /// number of workspaces for primary monitor
    pub primary_workspaces: u32,
    /// number of workspaces for secondary monitors
    pub secondary_workspaces: u32,
    /// layout configuration
    pub layout: LayoutConfiguration,
    /// theming configuration
    pub theming: ThemingConfiguration,
    /// where new floating windows are placed
    pub initial_placement: WindowPlacement,
}

impl Default for ThemingConfiguration {
    fn default() -> (c: Self)
        ensures
            c == (ThemingConfiguration {
                primary_color: 0xae0c0c,
                secondary_color: 0x1f464f,
                background_color: 0xceccc6,
                frame_width: 4,
                inner_border_width: 1,
                outer_border_width: 1,
                no_decoration: NoDecorationConfiguration { frame_width: 0, inner_border_width: 0, outer_border_width: 0 },
            }),
    {
        ThemingConfiguration {
            primary_color: 0xae0c0c,
            secondary_color: 0x1f464f,
            background_color: 0xceccc6,
            frame_width: 4,
            inner_border_width: 1,
            outer_border_width: 1,
            no_decoration: NoDecorationConfiguration { frame_width: 0, inner_border_width: 0, outer_border_width: 0 },
        }
    }
}

impl Default for Configuration {
    /// Eight workspaces on the primary monitor, two on each other monitor, default layout and
    /// theming.
    fn default() -> (c: Self)
        ensures
            c.primary_workspaces == 8,
            c.secondary_workspaces == 2,
            c.initial_placement == WindowPlacement::Center,
            c.layout == (LayoutConfiguration {
                default: LayoutType::Floating,
                gap_width: 4,
                nmain: 1,
                stack_position: StackPosition::Right,
                stack_mode: StackMode::Split,
            }),
            c.theming == (ThemingConfiguration {
                primary_color: 0xae0c0c,
                secondary_color: 0x1f464f,
                background_color: 0xceccc6,
                frame_width: 4,
                inner_border_width: 1,
                outer_border_width: 1,
                no_decoration: NoDecorationConfiguration { frame_width: 0, inner_border_width: 0, outer_border_width: 0 },
            }),
    {
        Configuration {
            primary_workspaces: 8,
            secondary_workspaces: 2,
            layout: LayoutConfiguration::default(),
            theming: ThemingConfiguration::default(),
            initial_placement: WindowPlacement::Center,
        }
    }
}

} // verus!
