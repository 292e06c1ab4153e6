//! Errors of the library: a kind and an optional explanation.
use vstd::prelude::*;

use crate::atoms::X11Atom;

verus! {

/// The category of an error.
#[derive(Debug, Copy, Clone, PartialEq, Eq, Structural)]
pub enum MarsErrorKind {
    ConnectionFailed,
    FailedRequest,
    IllegalValue,
    InvalidInput,
    PropertyUnavailable,
    Unknown,
    UnsupportedProtocol,
    WMAlreadyRunning,
}

/// An error: its kind and, where there is one, an explanation.
#[derive(Debug, Clone)]
pub struct MarsError {
    pub kind: MarsErrorKind,
    pub info: Option<String>,
}

/// Result type of the library.
pub type Result<T> = core::result::Result<T, MarsError>;

impl MarsErrorKind {
    /// The text that describes the kind.
    pub open spec fn spec_text(self) -> Seq<char> {
        match self {
            MarsErrorKind::ConnectionFailed => "Connection failed"@,
            MarsErrorKind::FailedRequest => "Failed request"@,
            MarsErrorKind::IllegalValue => "Illegal value"@,
            MarsErrorKind::InvalidInput => "Invalid input"@,
            MarsErrorKind::PropertyUnavailable => "Property not available"@,
            MarsErrorKind::Unknown => "Unknown error"@,
            MarsErrorKind::UnsupportedProtocol => "Protocol not supported"@,
            MarsErrorKind::WMAlreadyRunning => "Another WM is already running"@,
        }
    }

    /// The text that describes the kind.
    pub fn to_string(&self) -> (s: String)
        ensures
            s@ == self.spec_text(),
    {
        let name = match self {
            MarsErrorKind::ConnectionFailed => "Connection failed",
            MarsErrorKind::FailedRequest => "Failed request",
            MarsErrorKind::IllegalValue => "Illegal value",
            MarsErrorKind::InvalidInput => "Invalid input",
            MarsErrorKind::PropertyUnavailable => "Property not available",
            MarsErrorKind::Unknown => "Unknown error",
            MarsErrorKind::UnsupportedProtocol => "Protocol not supported",
            MarsErrorKind::WMAlreadyRunning => "Another WM is already running",
        };
        String::from_str(name)
    }
}

/// The error carries the given kind and explanation.
pub open spec fn error_is(e: MarsError, kind: MarsErrorKind, info: Seq<char>) -> bool {
    &&& e.kind == kind
    &&& e.info is Some
    &&& e.info.unwrap()@ == info
}

impl MarsError {
    /// The text of the error: the kind's text, followed by the explanation in parentheses.
    pub open spec fn spec_text(self) -> Seq<char> {
        match self.info {
            Some(info) => self.kind.spec_text() + " ("@ + info@ + ")"@,
            None => self.kind.spec_text(),
        }
    }

    /// A request to the display server failed.
    pub fn failed_request(call: &str) -> (e: MarsError)
        ensures
            error_is(e, MarsErrorKind::FailedRequest, call@ + " failed"@),
    {
        let mut info = String::from_str(call);
        info.append(" failed");
        MarsError { kind: MarsErrorKind::FailedRequest, info: Some(info) }
    }

    /// A value (given by its debug rendering) could not be converted from one type to another.
    pub fn failed_conversion(value: &str, from: &str, to: &str) -> (e: MarsError)
        ensures
            error_is(
                e,
                MarsErrorKind::IllegalValue,
                "unable to convert "@ + value@ + " from "@ + from@ + " to "@ + to@,
            ),
    {
        let mut info = String::from_str("unable to convert ");
        info.append(value);
        info.append(" from ");
        info.append(from);
        info.append(" to ");
        info.append(to);
        MarsError { kind: MarsErrorKind::IllegalValue, info: Some(info) }
    }

    /// The input was not acceptable.
    pub fn invalid_input(msg: &str) -> (e: MarsError)
        ensures
            error_is(e, MarsErrorKind::InvalidInput, msg@),
    {
        MarsError { kind: MarsErrorKind::InvalidInput, info: Some(String::from_str(msg)) }
    }

    /// The answer to a request held an unexpected value.
    pub fn invalid_response(request: &str) -> (e: MarsError)
        ensures
            error_is(
                e,
                MarsErrorKind::IllegalValue,
                "invalid response value to request '"@ + request@ + "'"@,
            ),
    {
        let mut info = String::from_str("invalid response value to request '");
        info.append(request);
        info.append("'");
        MarsError { kind: MarsErrorKind::IllegalValue, info: Some(info) }
    }

    /// A property is not set.
    pub fn property_unavailable(property: &str) -> (e: MarsError)
        ensures
            error_is(e, MarsErrorKind::PropertyUnavailable, property@),
    {
        MarsError { kind: MarsErrorKind::PropertyUnavailable, info: Some(String::from_str(property)) }
    }

    /// Any other error.
    pub fn unknown(info: &str) -> (e: MarsError)
        ensures
            error_is(e, MarsErrorKind::Unknown, info@),
    {
        MarsError { kind: MarsErrorKind::Unknown, info: Some(String::from_str(info)) }
    }

    /// The window manager does not support the atom.
    pub fn x11_unsupported_atom(atom: X11Atom) -> (e: MarsError)
        ensures
            error_is(e, MarsErrorKind::UnsupportedProtocol, atom.spec_name()),
    {
        MarsError { kind: MarsErrorKind::UnsupportedProtocol, info: Some(atom.to_string()) }
    }

    /// The connection to the display server could not be opened.
    pub fn x11_open_display() -> (e: MarsError)
        ensures
            error_is(e, MarsErrorKind::ConnectionFailed, "XOpenDisplay"@),
    {
        MarsError { kind: MarsErrorKind::ConnectionFailed, info: Some(String::from_str("XOpenDisplay")) }
    }

    /// Another window manager holds the display.
    pub fn wm_already_running() -> (e: MarsError)
        ensures
            e.kind == MarsErrorKind::WMAlreadyRunning,
            e.info is None,
    {
        MarsError { kind: MarsErrorKind::WMAlreadyRunning, info: None }
    }

    /// The text of the error: the kind's text, followed by the explanation in parentheses.
    pub fn to_string(&self) -> (s: String)
        ensures
            s@ == self.spec_text(),
    {
        let mut text = self.kind.to_string();
        match &self.info {
            Some(info) => {
                text.append(" (");
                text.append(info.as_str());
                text.append(")");
            },
            None => {},
        }
        text
    }
}

} // verus!
