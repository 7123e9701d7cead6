//! Errors of the OPC UA server.

use crate::text;
use vstd::prelude::*;
use vstd::string::*;

verus! {

/// Errors surfaced by the OPC UA server.
#[derive(Debug)]
pub enum ServerError {
    /// Underlying I/O or network error.
    Io(String),
    /// Configuration deserialization or validation failure.
    Config(String),
    /// Error originating from the OPC UA backend.
    Backend(String),
    /// Client sent an invalid or malformed request.
    BadRequest(String),
    /// Catch-all for unexpected errors.
    Other(String),
}

/// What a [`ServerError`] says.
#[verifier::ext_equal]
pub ghost enum ServerErrorView {
    Io(Seq<char>),
    Config(Seq<char>),
    Backend(Seq<char>),
    BadRequest(Seq<char>),
    Other(Seq<char>),
}

impl View for ServerError {
    type V = ServerErrorView;

    open spec fn view(&self) -> ServerErrorView {
        match *self {
            ServerError::Io(s) => ServerErrorView::Io(s@),
            ServerError::Config(s) => ServerErrorView::Config(s@),
            ServerError::Backend(s) => ServerErrorView::Backend(s@),
            ServerError::BadRequest(s) => ServerErrorView::BadRequest(s@),
            ServerError::Other(s) => ServerErrorView::Other(s@),
        }
    }
}

/// The message of an error.
pub open spec fn server_error_text(e: ServerErrorView) -> Seq<char> {
    match e {
        ServerErrorView::Io(s) => "IO error: "@ + s,
        ServerErrorView::Config(s) => "Configuration error: "@ + s,
        ServerErrorView::Backend(s) => "OPC UA backend error: "@ + s,
        ServerErrorView::BadRequest(s) => "Invalid request: "@ + s,
        ServerErrorView::Other(s) => "Other: "@ + s,
    }
}

impl ServerError {
    /// The message of the error.
    pub fn message(&self) -> (r: String)
        ensures
            r@ == server_error_text(self@),
    {
        match self {
            ServerError::Io(s) => text::join2("IO error: ", s.as_str()),
            ServerError::Config(s) => text::join2("Configuration error: ", s.as_str()),
            ServerError::Backend(s) => text::join2("OPC UA backend error: ", s.as_str()),
            ServerError::BadRequest(s) => text::join2("Invalid request: ", s.as_str()),
            ServerError::Other(s) => text::join2("Other: ", s.as_str()),
        }
    }
}

} // verus!
