//! Why an operation was refused.
use vstd::prelude::*;
use crate::text::{cat2, cat3};

verus! {

/// Why an operation was refused.
#[derive(Debug, PartialEq, Eq)]
pub enum QunuxError {
    InvalidId(String),
    InvalidState(String),
}

/// What a [`QunuxError`] says.
#[verifier::ext_equal]
pub enum QunuxErrorView {
    InvalidId(Seq<char>),
    InvalidState(Seq<char>),
}

impl View for QunuxError {
    type V = QunuxErrorView;

    open spec fn view(&self) -> QunuxErrorView {
        match self {
            QunuxError::InvalidId(id) => QunuxErrorView::InvalidId(id@),
            QunuxError::InvalidState(text) => QunuxErrorView::InvalidState(text@),
        }
    }
}

pub type Result<T> = std::result::Result<T, QunuxError>;

/// What a fallible operation gives, in contracts.
pub type Outcome<T> = std::result::Result<T, QunuxErrorView>;

/// What a fallible operation gave, by the views of what it holds.
pub open spec fn outcome<T: View>(r: std::result::Result<T, QunuxError>) -> Outcome<T::V> {
    match r {
        Ok(x) => Ok(x@),
        Err(e) => Err(e@),
    }
}

impl QunuxError {
    /// The error as a line of text.
    pub open spec fn message_view(e: QunuxErrorView) -> Seq<char> {
        match e {
            QunuxErrorView::InvalidId(id) => "invalid id `"@ + id + "`"@,
            QunuxErrorView::InvalidState(text) => "state error: "@ + text,
        }
    }

    /// The error as a line of text.
    pub fn message(&self) -> (r: String)
        ensures
            r@ == QunuxError::message_view(self@),
    {
        match self {
            QunuxError::InvalidId(id) => cat3("invalid id `", id.as_str(), "`"),
            QunuxError::InvalidState(text) => cat2("state error: ", text.as_str()),
        }
    }
}

} // verus!
