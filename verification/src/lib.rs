//! Resolution of credentials through an ordered cascade of helper programs.
//!
//! A [`program::Cascade`] asks each of its helper programs in turn, merges what
//! they reply into the [`protocol::Context`] of the request, and for a retrieval
//! falls back to asking the user for what is still missing. Running a helper and
//! asking the user are capabilities that the caller hands in; everything that is
//! decided from their answers is decided, and verified, here.
pub mod helper;
pub mod program;
pub mod prompt;
pub mod protocol;
pub mod text;

pub use program::{Cascade, Program};
