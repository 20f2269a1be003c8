//! The ways a reconciliation can fail.

use vstd::prelude::*;

verus! {

/// Why the reconciliation of one network stopped without a decision.
#[derive(Debug, PartialEq, Eq)]
pub enum WatchError {
    /// A tag does not fit the syntax of the channel it was declared for.
    MalformedTag,
    /// A call to the release host or to the chain failed; the text is the cause, in the words
    /// of whoever made the call.
    CollaboratorFailure(String),
    /// An answer arrived that the current state was not waiting for.
    UnexpectedEvent,
}

/// What a failure is in contracts.
pub enum WatchErrorView {
    MalformedTag,
    CollaboratorFailure(Seq<char>),
    UnexpectedEvent,
}

impl View for WatchError {
    type V = WatchErrorView;

    open spec fn view(&self) -> WatchErrorView {
        match self {
            WatchError::MalformedTag => WatchErrorView::MalformedTag,
            WatchError::CollaboratorFailure(cause) => WatchErrorView::CollaboratorFailure(cause@),
            WatchError::UnexpectedEvent => WatchErrorView::UnexpectedEvent,
        }
    }
}

/// The release workflow could not be dispatched; the text is the cause, in the words of
/// whoever sent the dispatch.
#[derive(Debug, PartialEq, Eq)]
pub struct TriggerError {
    pub cause: String,
}

} // verus!
