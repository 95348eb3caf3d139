//! What a resolution comes to, as a function of what the helpers and the user
//! answer.
use crate::helper::{ActionView, OutcomeView, ReplyView, VerdictView};
use crate::prompt::{AnswerView, Field, Mode};
use crate::protocol::context::ContextView;
use crate::protocol::ErrorView;
use vstd::prelude::*;

verus! {

/// How far asking the helpers has got.
pub enum Progress {
    /// No helper has settled the request: the next one is to be asked.
    Open(ActionView),
    /// A helper has settled the request: no further one is asked.
    Settled(ActionView),
    /// A helper has made the resolution fail: no further one is asked.
    Failed(ActionView, ErrorView),
}

impl Progress {
    /// The action as asking the helpers has left it.
    pub open spec fn action(self) -> ActionView {
        match self {
            Progress::Open(action) => action,
            Progress::Settled(action) => action,
            Progress::Failed(action, _) => action,
        }
    }
}

/// The progress after a helper was asked about `action` and came to `reply`.
pub open spec fn advanced(action: ActionView, reply: ReplyView) -> Progress {
    let (next, verdict) = action.absorbed(reply);
    match verdict {
        VerdictView::Continue => Progress::Open(next),
        VerdictView::Stop => Progress::Settled(next),
        VerdictView::Abort(e) => Progress::Failed(next, e),
    }
}

/// The progress after the helpers were asked in turn and came to `replies`. Each
/// reply is taken in as long as the progress is open; once a helper has settled
/// the request or made it fail, what follows counts for nothing.
pub open spec fn consulted(start: ActionView, replies: Seq<ReplyView>) -> Progress
    decreases replies.len(),
{
    if replies.len() == 0 {
        Progress::Open(start)
    } else {
        match consulted(start, replies.drop_last()) {
            Progress::Open(action) => advanced(action, replies.last()),
            halted => halted,
        }
    }
}

impl ContextView {
    /// The record after the user was asked for `field` if it was absent, and the
    /// error where asking failed.
    pub open spec fn asked(self, field: Field, answer: AnswerView) -> (
        ContextView,
        Option<ErrorView>,
    ) {
        if self.lacks(field) {
            self.answered(field, answer)
        } else {
            (self, None)
        }
    }

    /// The record after the user was asked for the name and then for the secret,
    /// each only if it was absent, and the secret only if asking for the name did
    /// not fail.
    pub open spec fn prompted(self, name: AnswerView, secret: AnswerView) -> (
        ContextView,
        Option<ErrorView>,
    ) {
        let named = self.asked(Field::Username, name);
        if named.1 is Some {
            named
        } else {
            named.0.asked(Field::Password, secret)
        }
    }
}

impl ActionView {
    /// The action after the user was asked for what a retrieval lacks. Nobody is
    /// asked where asking is disabled, nor for a store or an erase.
    pub open spec fn prompted(self, mode: Mode, name: AnswerView, secret: AnswerView) -> (
        ActionView,
        Option<ErrorView>,
    ) {
        match self {
            ActionView::Get(ctx) => if mode == Mode::Disabled {
                (self, None)
            } else {
                (ActionView::Get(ctx.prompted(name, secret).0), ctx.prompted(name, secret).1)
            },
            _ => (self, None),
        }
    }
}

/// The action as a resolution leaves it, and what the resolution returns, where
/// the helpers came to `replies` and the user answered `name` and `secret`.
///
/// A malformed URL in the request fails the resolution before any helper is
/// asked. Else the helpers are consulted; a failure among them fails the
/// resolution. Else the user is asked, and a failure there fails it. Else it
/// succeeds with the outcome of the action.
pub open spec fn resolved(
    start: ActionView,
    mode: Mode,
    replies: Seq<ReplyView>,
    name: AnswerView,
    secret: AnswerView,
) -> (ActionView, Result<Option<OutcomeView>, ErrorView>) {
    match start.normalized() {
        None => (start, Err(ErrorView::Parse)),
        Some(entered) => match consulted(entered, replies) {
            Progress::Failed(action, e) => (action, Err(e)),
            progress => {
                let (action, failure) = progress.action().prompted(mode, name, secret);
                match failure {
                    Some(e) => (action, Err(e)),
                    None => (action, Ok(action.outcome())),
                }
            },
        },
    }
}

} // verus!
