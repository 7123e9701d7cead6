//! Errors of the tag model.

use crate::text;
use vstd::prelude::*;
use vstd::string::*;

verus! {

/// What can go wrong with tags and their definitions.
#[derive(Debug)]
pub enum CoreError {
    /// A tag with the given id was not found in the registry.
    TagNotFound(String),
    /// A tag definition with the given id was not found.
    DefinitionNotFound(String),
    /// The runtime tag value does not match the expected data type.
    TypeMismatch(String),
    /// The provided configuration is invalid.
    InvalidConfig(String),
    /// An unexpected internal error occurred.
    Internal(String),
}

/// What a [`CoreError`] says.
#[verifier::ext_equal]
pub ghost enum CoreErrorView {
    TagNotFound(Seq<char>),
    DefinitionNotFound(Seq<char>),
    TypeMismatch(Seq<char>),
    InvalidConfig(Seq<char>),
    Internal(Seq<char>),
}

impl View for CoreError {
    type V = CoreErrorView;

    open spec fn view(&self) -> CoreErrorView {
        match *self {
            CoreError::TagNotFound(s) => CoreErrorView::TagNotFound(s@),
            CoreError::DefinitionNotFound(s) => CoreErrorView::DefinitionNotFound(s@),
            CoreError::TypeMismatch(s) => CoreErrorView::TypeMismatch(s@),
            CoreError::InvalidConfig(s) => CoreErrorView::InvalidConfig(s@),
            CoreError::Internal(s) => CoreErrorView::Internal(s@),
        }
    }
}

/// The message of an error.
pub open spec fn core_error_text(e: CoreErrorView) -> Seq<char> {
    match e {
        CoreErrorView::TagNotFound(s) => "Tag not found: "@ + s,
        CoreErrorView::DefinitionNotFound(s) => "Definition not found: "@ + s,
        CoreErrorView::TypeMismatch(s) => "Type mismatch for tag "@ + s,
        CoreErrorView::InvalidConfig(s) => "Invalid configuration: "@ + s,
        CoreErrorView::Internal(s) => "Internal error: "@ + s,
    }
}

impl CoreError {
    /// The message of the error.
    pub fn message(&self) -> (r: String)
        ensures
            r@ == core_error_text(self@),
    {
        match self {
            CoreError::TagNotFound(s) => text::join2("Tag not found: ", s.as_str()),
            CoreError::DefinitionNotFound(s) => text::join2("Definition not found: ", s.as_str()),
            CoreError::TypeMismatch(s) => text::join2("Type mismatch for tag ", s.as_str()),
            CoreError::InvalidConfig(s) => text::join2("Invalid configuration: ", s.as_str()),
            CoreError::Internal(s) => text::join2("Internal error: ", s.as_str()),
        }
    }
}

} // verus!
