//! The values of the control client's commands: how a window setting changes, a status text,
//! a workspace.
use vstd::prelude::*;

use crate::events::SettingMode;

verus! {

/// How a window setting is changed from the command line.
#[derive(Clone, Copy, Debug, PartialEq, Eq, Structural)]
pub enum Modifier {
    /// turn the setting on
    Enable,
    /// turn the setting off
    Disable,
    /// turn the setting over
    Toggle,
}

/// A command argument that may change a setting (without one, the setting is only read).
#[derive(Clone, Copy, Debug, PartialEq, Eq, Structural)]
pub struct ModifierShim {
    pub modifier: Option<Modifier>,
}

/// The status text to set.
#[derive(Clone, Debug, PartialEq, Eq)]
pub struct Status {
    pub text: String,
}

/// A workspace index argument.
#[derive(Clone, Copy, Debug, PartialEq, Eq, Structural)]
pub struct Workspace {
    pub index: u32,
}

impl From<Modifier> for ModifierShim {
    fn from(value: Modifier) -> (r: ModifierShim) {
        ModifierShim { modifier: Some(value) }
    }
}

impl vstd::std_specs::convert::FromSpecImpl<Modifier> for ModifierShim {
    open spec fn obeys_from_spec() -> bool {
        true
    }

    open spec fn from_spec(v: Modifier) -> ModifierShim {
        ModifierShim { modifier: Some(v) }
    }
}

/// The setting mode a modifier stands for.
pub open spec fn spec_setting_mode(value: Modifier) -> SettingMode {
    match value {
        Modifier::Enable => SettingMode::Enable,
        Modifier::Disable => SettingMode::Disable,
        Modifier::Toggle => SettingMode::Toggle,
    }
}

impl From<Modifier> for SettingMode {
    fn from(value: Modifier) -> (r: SettingMode) {
        match value {
            Modifier::Enable => SettingMode::Enable,
            Modifier::Disable => SettingMode::Disable,
            Modifier::Toggle => SettingMode::Toggle,
        }
    }
}

impl vstd::std_specs::convert::FromSpecImpl<Modifier> for SettingMode {
    open spec fn obeys_from_spec() -> bool {
        true
    }

    open spec fn from_spec(v: Modifier) -> SettingMode {
        spec_setting_mode(v)
    }
}

/// What a window-setting command asks for: with a modifier, set the setting in that mode;
/// without one, read it.
#[derive(Clone, Copy, Debug, PartialEq, Eq, Structural)]
pub enum SettingRequest {
    Change(SettingMode),
    Query,
}

/// What a window-setting command with the argument asks for.
pub fn setting_request(opt: ModifierShim) -> (r: SettingRequest)
    ensures
        r == match opt.modifier {
            Some(m) => SettingRequest::Change(spec_setting_mode(m)),
            None => SettingRequest::Query,
        },
{
    match opt.modifier {
        Some(m) => SettingRequest::Change(SettingMode::from(m)),
        None => SettingRequest::Query,
    }
}

/// The exit code that reports a setting that was read: success when it is on.
pub fn query_exit_code(state: bool) -> (code: i32)
    ensures
        code == if state {
            0i32
        } else {
            1i32
        },
{
    if state {
        0
    } else {
        1
    }
}

} // verus!
