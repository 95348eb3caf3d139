//! What passes between a cascade and its helper programs, and what one reply
//! does to the request.
use crate::protocol::context::{Context, ContextView};
use crate::protocol::record::decoded;
use crate::protocol::{Error, ErrorView};
use crate::text::opt_text;
use vstd::prelude::*;

verus! {

/// What is asked of the helpers.
#[derive(Debug, PartialEq, Eq)]
pub enum Action {
    /// Find the credential for this record. Name and secret may be absent, and
    /// are what the resolution fills in.
    Get(Context),
    /// Keep the credential of this record.
    Store(Context),
    /// Forget the credential of this record.
    Erase(Context),
}

/// The view of an [`Action`].
pub enum ActionView {
    Get(ContextView),
    Store(ContextView),
    Erase(ContextView),
}

impl View for Action {
    type V = ActionView;

    open spec fn view(&self) -> ActionView {
        match self {
            Action::Get(ctx) => ActionView::Get(ctx@),
            Action::Store(ctx) => ActionView::Store(ctx@),
            Action::Erase(ctx) => ActionView::Erase(ctx@),
        }
    }
}

impl Clone for Action {
    fn clone(&self) -> (r: Self)
        ensures
            r@ == self@,
    {
        match self {
            Action::Get(ctx) => Action::Get(ctx.clone()),
            Action::Store(ctx) => Action::Store(ctx.clone()),
            Action::Erase(ctx) => Action::Erase(ctx.clone()),
        }
    }
}

/// How running a helper failed.
#[derive(Debug, PartialEq, Eq)]
pub enum Failure {
    /// The helper could not be run at all: it is missing, or cannot be started.
    Unusable,
    /// The helper ran, and what it wrote is no credential record.
    Malformed,
    /// Anything else, as the text describes it.
    Other(String),
}

/// The view of a [`Failure`].
pub enum FailureView {
    Unusable,
    Malformed,
    Other(Seq<char>),
}

impl View for Failure {
    type V = FailureView;

    open spec fn view(&self) -> FailureView {
        match self {
            Failure::Unusable => FailureView::Unusable,
            Failure::Malformed => FailureView::Malformed,
            Failure::Other(detail) => FailureView::Other(detail@),
        }
    }
}

impl Clone for Failure {
    fn clone(&self) -> (r: Self)
        ensures
            r@ == self@,
    {
        match self {
            Failure::Unusable => Failure::Unusable,
            Failure::Malformed => Failure::Malformed,
            Failure::Other(detail) => Failure::Other(detail.clone()),
        }
    }
}

/// What running a helper came to: nothing, the bytes it wrote, or a failure.
pub type Reply = Result<Option<Vec<u8>>, Failure>;

/// The view of a [`Reply`].
pub type ReplyView = Result<Option<Seq<u8>>, FailureView>;

/// The view of what running a helper came to.
pub open spec fn reply_view(reply: Reply) -> ReplyView {
    match reply {
        Ok(None) => Ok(None),
        Ok(Some(bytes)) => Ok(Some(bytes@)),
        Err(failure) => Err(failure@),
    }
}

/// What a reply means for the helpers that were not asked yet.
#[derive(Debug, PartialEq, Eq)]
pub enum Verdict {
    /// Ask the next helper.
    Continue,
    /// Ask no further helper: the request is settled.
    Stop,
    /// Give up with this error.
    Abort(Error),
}

/// The view of a [`Verdict`].
pub enum VerdictView {
    Continue,
    Stop,
    Abort(ErrorView),
}

impl View for Verdict {
    type V = VerdictView;

    open spec fn view(&self) -> VerdictView {
        match self {
            Verdict::Continue => VerdictView::Continue,
            Verdict::Stop => VerdictView::Stop,
            Verdict::Abort(e) => VerdictView::Abort(e@),
        }
    }
}

/// What a retrieval found.
#[derive(Debug, PartialEq, Eq)]
pub struct Outcome {
    /// The name of the user, if it was found.
    pub username: Option<String>,
    /// The secret of the user, if it was found.
    pub password: Option<String>,
    /// Whether a helper asked for the resolution to end.
    pub quit: bool,
    /// The whole record as the resolution left it.
    pub next: Context,
}

/// The view of an [`Outcome`].
pub struct OutcomeView {
    pub username: Option<Seq<char>>,
    pub password: Option<Seq<char>>,
    pub quit: bool,
    pub next: ContextView,
}

impl View for Outcome {
    type V = OutcomeView;

    open spec fn view(&self) -> OutcomeView {
        OutcomeView {
            username: opt_text(self.username),
            password: opt_text(self.password),
            quit: self.quit,
            next: self.next@,
        }
    }
}

impl ContextView {
    /// The record and the verdict once a reply is merged, where the reply asked to
    /// quit as `quit` says. A helper's wish to quit is noted in the record and
    /// stops the cascade, whether or not the record is complete; a complete
    /// record stops it too; else it goes on.
    pub open spec fn settled(self, quit: Option<bool>) -> (ContextView, VerdictView) {
        if quit == Some(true) {
            (ContextView { quit: Some(true), ..self }, VerdictView::Stop)
        } else if self.is_complete() {
            (self, VerdictView::Stop)
        } else {
            (self, VerdictView::Continue)
        }
    }

    /// The record and the verdict after the record `reply` of a helper was taken
    /// in: `reply` is laid over the record; where it holds a URL, protocol, host
    /// and path are derived anew from it, and a malformed URL aborts.
    pub open spec fn absorbed(self, reply: ContextView) -> (ContextView, VerdictView) {
        let merged = self.overlay(reply);
        if reply.url is Some {
            match merged.destructured() {
                Some(ctx) => ctx.settled(reply.quit),
                None => (merged, VerdictView::Abort(ErrorView::Parse)),
            }
        } else {
            merged.settled(reply.quit)
        }
    }
}

impl ActionView {
    /// The record that the action carries.
    pub open spec fn record(self) -> ContextView {
        match self {
            ActionView::Get(ctx) => ctx,
            ActionView::Store(ctx) => ctx,
            ActionView::Erase(ctx) => ctx,
        }
    }

    /// The word by which a helper is told what is asked of it.
    pub open spec fn word(self) -> Seq<char> {
        match self {
            ActionView::Get(_) => "get"@,
            ActionView::Store(_) => "store"@,
            ActionView::Erase(_) => "erase"@,
        }
    }

    /// The action with the URL of a retrieval taken apart, or `None` where that
    /// URL is malformed.
    pub open spec fn normalized(self) -> Option<ActionView> {
        match self {
            ActionView::Get(ctx) => match ctx.destructured() {
                Some(c) => Some(ActionView::Get(c)),
                None => None,
            },
            _ => Some(self),
        }
    }

    /// The verdict on a helper that failed: an unusable helper is passed over,
    /// and so is any failure while storing or erasing; any other failure aborts
    /// a retrieval.
    pub open spec fn failed(self, failure: FailureView) -> VerdictView {
        if self is Get && !(failure is Unusable) {
            VerdictView::Abort(ErrorView::HelperCommunication(failure))
        } else {
            VerdictView::Continue
        }
    }

    /// The action and the verdict after what one helper came to was taken in.
    /// Bytes that are no record count as a failure of the helper. A record
    /// changes a retrieval only.
    pub open spec fn absorbed(self, reply: ReplyView) -> (ActionView, VerdictView) {
        match reply {
            Ok(None) => (self, VerdictView::Continue),
            Ok(Some(bytes)) => match decoded(bytes) {
                Some(record) => match self {
                    ActionView::Get(ctx) => (
                        ActionView::Get(ctx.absorbed(record).0),
                        ctx.absorbed(record).1,
                    ),
                    _ => (self, VerdictView::Continue),
                },
                None => (self, self.failed(FailureView::Malformed)),
            },
            Err(failure) => (self, self.failed(failure)),
        }
    }

    /// What a resolution that got this far returns: for a retrieval what the
    /// record holds, whether or not name and secret are there; else nothing.
    pub open spec fn outcome(self) -> Option<OutcomeView> {
        match self {
            ActionView::Get(ctx) => Some(
                OutcomeView {
                    username: ctx.username,
                    password: ctx.password,
                    quit: ctx.quit == Some(true),
                    next: ctx,
                },
            ),
            _ => None,
        }
    }
}

/// The view of an optional [`Outcome`].
pub open spec fn opt_outcome(outcome: Option<Outcome>) -> Option<OutcomeView> {
    match outcome {
        Some(o) => Some(o@),
        None => None,
    }
}

impl Context {
    /// Takes in the record `reply` of a helper: merges it, derives protocol, host
    /// and path anew where it holds a URL, and decides how the cascade goes on.
    pub fn absorb(&mut self, reply: Context) -> (v: Verdict)
        ensures
            (final(self)@, v@) == old(self)@.absorbed(reply@),
    {
        let has_url = reply.url.is_some();
        let quit = reply.quit;
        self.merge(reply);
        if has_url {
            match self.destructure_url() {
                Ok(_) => {},
                Err(e) => {
                    return Verdict::Abort(e);
                },
            }
        }
        if let Some(true) = quit {
            self.quit = quit;
            Verdict::Stop
        } else if self.is_complete() {
            Verdict::Stop
        } else {
            Verdict::Continue
        }
    }
}

impl Action {
    /// The record that the action carries.
    pub fn record(&self) -> (r: &Context)
        ensures
            r@ == self@.record(),
    {
        match self {
            Action::Get(ctx) => ctx,
            Action::Store(ctx) => ctx,
            Action::Erase(ctx) => ctx,
        }
    }

    /// The word by which a helper is told what is asked of it.
    pub fn as_arg(&self) -> (r: &'static str)
        ensures
            r@ == self@.word(),
    {
        match self {
            Action::Get(_) => "get",
            Action::Store(_) => "store",
            Action::Erase(_) => "erase",
        }
    }

    /// The record of a retrieval; a store or an erase has none to resolve.
    pub fn context(&self) -> (r: Option<&Context>)
        ensures
            match *self {
                Action::Get(ctx) => r == Some(&ctx),
                _ => r is None,
            },
    {
        match self {
            Action::Get(ctx) => Some(ctx),
            _ => None,
        }
    }

    /// Takes the URL of a retrieval apart. A malformed URL is an error and leaves
    /// the action as it is.
    pub fn normalize(&mut self) -> (r: Result<(), Error>)
        ensures
            match old(self)@.normalized() {
                Some(action) => r is Ok && final(self)@ == action,
                None => r matches Err(e) && e@ == ErrorView::Parse && final(self)@ == old(self)@,
            },
    {
        match self {
            Action::Get(ctx) => ctx.destructure_url(),
            _ => Ok(()),
        }
    }

    /// The verdict on a helper that failed.
    pub fn fail(&self, failure: Failure) -> (v: Verdict)
        ensures
            v@ == self@.failed(failure@),
    {
        match (self, &failure) {
            (Action::Get(_), Failure::Unusable) => Verdict::Continue,
            (Action::Get(_), _) => Verdict::Abort(Error::HelperCommunication(failure)),
            _ => Verdict::Continue,
        }
    }

    /// Takes in what running one helper came to, and decides how the cascade goes
    /// on.
    pub fn absorb(&mut self, reply: Reply) -> (v: Verdict)
        ensures
            (final(self)@, v@) == old(self)@.absorbed(reply_view(reply)),
    {
        match reply {
            Ok(None) => Verdict::Continue,
            Ok(Some(bytes)) => match Context::from_bytes(bytes) {
                Some(record) => match self {
                    Action::Get(ctx) => ctx.absorb(record),
                    _ => Verdict::Continue,
                },
                None => self.fail(Failure::Malformed),
            },
            Err(failure) => self.fail(failure),
        }
    }

    /// What a resolution that got this far returns.
    pub fn outcome(&self) -> (r: Option<Outcome>)
        ensures
            opt_outcome(r) == self@.outcome(),
    {
        match self {
            Action::Get(ctx) => Some(
                Outcome {
                    username: ctx.username.clone(),
                    password: ctx.password.clone(),
                    quit: match ctx.quit {
                        Some(true) => true,
                        _ => false,
                    },
                    next: ctx.clone(),
                },
            ),
            _ => None,
        }
    }
}

} // verus!
