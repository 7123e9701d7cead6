//! Errors of the FINS driver.

use crate::text;
use vstd::prelude::*;
use vstd::string::*;

verus! {

/// Errors produced by the FINS driver.
#[derive(Debug)]
pub enum DriverError {
    /// Underlying IO / network error, as text.
    Io(String),
    /// Operation timed out.
    Timeout,
    /// Protocol-level error or unexpected frame content.
    Protocol(String),
    /// Mapping/configuration related error (e.g. unknown tag mapping).
    Mapping(String),
    /// Miscellaneous other error.
    Other(String),
}

/// What a [`DriverError`] says.
#[verifier::ext_equal]
pub ghost enum DriverErrorView {
    Io(Seq<char>),
    Timeout,
    Protocol(Seq<char>),
    Mapping(Seq<char>),
    Other(Seq<char>),
}

impl View for DriverError {
    type V = DriverErrorView;

    open spec fn view(&self) -> DriverErrorView {
        match *self {
            DriverError::Io(s) => DriverErrorView::Io(s@),
            DriverError::Timeout => DriverErrorView::Timeout,
            DriverError::Protocol(s) => DriverErrorView::Protocol(s@),
            DriverError::Mapping(s) => DriverErrorView::Mapping(s@),
            DriverError::Other(s) => DriverErrorView::Other(s@),
        }
    }
}

/// The message of an error.
pub open spec fn error_text(e: DriverErrorView) -> Seq<char> {
    match e {
        DriverErrorView::Io(s) => "IO error: "@ + s,
        DriverErrorView::Timeout => "Timeout"@,
        DriverErrorView::Protocol(s) => "Protocol error: "@ + s,
        DriverErrorView::Mapping(s) => "Mapping error: "@ + s,
        DriverErrorView::Other(s) => "Other: "@ + s,
    }
}

impl DriverError {
    /// An IO error, from the text that describes it.
    pub fn io(s: &str) -> (r: DriverError)
        ensures
            r@ == DriverErrorView::Io(s@),
    {
        DriverError::Io(s.to_owned())
    }

    /// A protocol error.
    pub fn protocol(s: &str) -> (r: DriverError)
        ensures
            r@ == DriverErrorView::Protocol(s@),
    {
        DriverError::Protocol(s.to_owned())
    }

    /// A mapping error.
    pub fn mapping(s: &str) -> (r: DriverError)
        ensures
            r@ == DriverErrorView::Mapping(s@),
    {
        DriverError::Mapping(s.to_owned())
    }

    /// Another error.
    pub fn other(s: &str) -> (r: DriverError)
        ensures
            r@ == DriverErrorView::Other(s@),
    {
        DriverError::Other(s.to_owned())
    }

    /// The message of the error.
    pub fn message(&self) -> (r: String)
        ensures
            r@ == error_text(self@),
    {
        match self {
            DriverError::Io(s) => text::join2("IO error: ", s.as_str()),
            DriverError::Timeout => "Timeout".to_owned(),
            DriverError::Protocol(s) => text::join2("Protocol error: ", s.as_str()),
            DriverError::Mapping(s) => text::join2("Mapping error: ", s.as_str()),
            DriverError::Other(s) => text::join2("Other: ", s.as_str()),
        }
    }
}

} // verus!
