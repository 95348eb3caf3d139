//! The credential record and what can go wrong while it is resolved.
use crate::helper::{Failure, FailureView};
use vstd::prelude::*;

pub mod context;
pub mod record;
pub mod url;

pub use context::{Context, ContextView};

verus! {

/// Why a resolution ended without a result.
#[derive(Debug, PartialEq, Eq)]
pub enum Error {
    /// The URL of the context is malformed.
    Parse,
    /// A helper failed while credentials were retrieved, and not merely by being
    /// unusable.
    HelperCommunication(Failure),
    /// The user could not be asked. `prompt` is the text that was to be shown.
    Prompt { prompt: String, cause: String },
}

/// The view of an [`Error`].
pub enum ErrorView {
    Parse,
    HelperCommunication(FailureView),
    Prompt { prompt: Seq<char>, cause: Seq<char> },
}

impl View for Error {
    type V = ErrorView;

    open spec fn view(&self) -> ErrorView {
        match self {
            Error::Parse => ErrorView::Parse,
            Error::HelperCommunication(failure) => ErrorView::HelperCommunication(failure@),
            Error::Prompt { prompt, cause } => ErrorView::Prompt { prompt: prompt@, cause: cause@ },
        }
    }
}

} // verus!
