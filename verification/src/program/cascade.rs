//! Running a cascade: the helpers in turn, then the user, then the result.
//!
//! Running a helper and asking the user are done by two functions that the
//! caller hands in. Nothing is known of them but what they return, so what a run
//! comes to is stated over a [`Transcript`] of their answers: the action is left,
//! and the result is, what [`resolved`] makes of those answers.
use crate::helper::{
    opt_outcome, reply_view, Action, ActionView, Outcome, OutcomeView, Reply, ReplyView, Verdict,
};
use crate::program::model::{consulted, resolved, Progress};
use crate::program::{Cascade, Program};
use crate::prompt::{answer_view, opt_error, Answer, Field, Mode};
use crate::protocol::context::{Context, ContextView};
use crate::protocol::{Error, ErrorView};
use vstd::prelude::*;

verus! {

/// What the helpers and the user answered in the course of one run.
pub struct Transcript {
    /// The action as each helper that was run saw it, in turn.
    pub states: Seq<Action>,
    /// What each helper that was run came to, in turn.
    pub replies: Seq<Reply>,
    /// What asking for the name came to, where it was asked for.
    pub name: Answer,
    /// What asking for the secret came to, where it was asked for.
    pub secret: Answer,
}

/// The views of `replies`, in turn.
pub open spec fn reply_views(replies: Seq<Reply>) -> Seq<ReplyView> {
    Seq::new(replies.len(), |i: int| reply_view(replies[i]))
}

/// The view of what a run returns.
pub open spec fn result_view(result: Result<Option<Outcome>, Error>) -> Result<
    Option<OutcomeView>,
    ErrorView,
> {
    match result {
        Ok(Some(outcome)) => Ok(Some(outcome@)),
        Ok(None) => Ok(None),
        Err(e) => Err(e@),
    }
}

/// Whether the first `run` programs were set to show their error streams as the
/// cascade says, and nothing else of the cascade changed.
pub open spec fn flagged(before: Cascade, after: Cascade, run: nat) -> bool {
    &&& after.stderr == before.stderr
    &&& after.programs.len() == before.programs.len()
    &&& forall|i: int|
        0 <= i < before.programs.len() ==> {
            &&& (#[trigger] after.programs[i]).name == before.programs[i].name
            &&& after.programs[i].stderr == if i < run {
                before.stderr
            } else {
                before.programs[i].stderr
            }
        }
}

/// Whether the transcript holds what `helper` came to on the programs in turn.
/// Each program was run on the action as the replies before it had left it, and
/// none was run once a reply had settled the request or made it fail. Where no
/// reply did, every program was run.
pub open spec fn heard<H: Fn(&Program, &Action) -> Reply>(
    helper: H,
    programs: Seq<Program>,
    entered: ActionView,
    t: Transcript,
) -> bool {
    &&& t.states.len() == t.replies.len() <= programs.len()
    &&& forall|i: int|
        0 <= i < t.replies.len() ==> {
            &&& consulted(entered, reply_views(t.replies).take(i)) == Progress::Open(
                #[trigger] t.states[i]@,
            )
            &&& call_ensures(helper, (&programs[i], &t.states[i]), t.replies[i])
        }
    &&& consulted(entered, reply_views(t.replies)) is Open ==> t.replies.len() == programs.len()
}

/// Whether `answer` is what `ask` came to when it was to ask for `field`, with
/// the prompt that `ctx` gives and in the mode of the field.
pub open spec fn put<P: Fn(&str, Mode) -> Answer>(
    ask: P,
    ctx: ContextView,
    field: Field,
    answer: Answer,
) -> bool {
    exists|message: &str|
        message@ == ctx.prompt(field.label()) && #[trigger] call_ensures(
            ask,
            (message, field.spec_mode()),
            answer,
        )
}

/// Whether the transcript holds what `ask` came to for each field that the
/// action lacked once the helpers were done: first the name, then the secret.
pub open spec fn told<P: Fn(&str, Mode) -> Answer>(
    ask: P,
    action: ActionView,
    mode: Mode,
    t: Transcript,
) -> bool {
    match action {
        ActionView::Get(ctx) => mode != Mode::Disabled ==> {
            let named = ctx.asked(Field::Username, answer_view(t.name));
            &&& ctx.lacks(Field::Username) ==> put(ask, ctx, Field::Username, t.name)
            &&& named.1 is None && named.0.lacks(Field::Password) ==> put(
                ask,
                named.0,
                Field::Password,
                t.secret,
            )
        },
        _ => true,
    }
}

/// Whether `t` accounts for a run: the run left the action as `end` and returned
/// `result`, which is what [`resolved`] makes of the answers in `t`; the answers
/// are those of `helper` and `ask`, on what the run handed them; and of the
/// cascade only the programs that were run changed.
pub open spec fn accounts<H: Fn(&Program, &Action) -> Reply, P: Fn(&str, Mode) -> Answer>(
    helper: H,
    ask: P,
    before: Cascade,
    after: Cascade,
    start: ActionView,
    mode: Mode,
    t: Transcript,
    end: ActionView,
    result: Result<Option<OutcomeView>, ErrorView>,
) -> bool {
    &&& (end, result) == resolved(
        start,
        mode,
        reply_views(t.replies),
        answer_view(t.name),
        answer_view(t.secret),
    )
    &&& flagged(before, after, t.replies.len())
    &&& match start.normalized() {
        None => t.replies.len() == 0,
        Some(entered) => {
            let progress = consulted(entered, reply_views(t.replies));
            &&& heard(helper, after.programs@, entered, t)
            &&& !(progress is Failed) ==> told(ask, progress.action(), mode, t)
        },
    }
}

/// The views of replies once one more is there.
proof fn lemma_views_push(replies: Seq<Reply>, reply: Reply)
    ensures
        reply_views(replies.push(reply)) == reply_views(replies).push(reply_view(reply)),
        reply_views(replies.push(reply)).drop_last() == reply_views(replies),
        reply_views(replies.push(reply)).take(replies.len() as int) == reply_views(replies),
        forall|j: int|
            0 <= j < replies.len() ==> #[trigger] reply_views(replies.push(reply)).take(j)
                == reply_views(replies).take(j),
{
    let longer = reply_views(replies.push(reply));
    assert(longer =~= reply_views(replies).push(reply_view(reply)));
    assert(longer.drop_last() =~= reply_views(replies));
    assert(longer.take(replies.len() as int) =~= reply_views(replies));
    assert forall|j: int| 0 <= j < replies.len() implies #[trigger] longer.take(j) == reply_views(
        replies,
    ).take(j) by {
        assert(longer.take(j) =~= reply_views(replies).take(j));
    }
}

/// Asks for `field` where the record lacks it, and takes the answer in.
fn ask_for<P: Fn(&str, Mode) -> Answer>(ctx: &mut Context, field: Field, ask: &P) -> (r: (
    Result<(), Error>,
    Ghost<Answer>,
))
    requires
        forall|message: &str, mode: Mode|
            mode != Mode::Disabled ==> call_requires(*ask, (message, mode)),
    ensures
        (final(ctx)@, opt_error(r.0)) == old(ctx)@.asked(field, answer_view(r.1@)),
        old(ctx)@.lacks(field) ==> put(*ask, old(ctx)@, field, r.1@),
{
    if ctx.lacks(field) {
        let message = ctx.to_prompt(field.name());
        let text = message.as_str();
        let answer = ask(text, field.mode());
        let ghost heard = answer;
        assert(text@ == ctx@.prompt(field.label()) && call_ensures(
            *ask,
            (text, field.spec_mode()),
            answer,
        ));
        (ctx.answer(field, answer), Ghost(heard))
    } else {
        (Ok(()), Ghost(arbitrary()))
    }
}

impl Cascade {
    /// Resolves `action`: runs the programs in turn with `helper`, each set to
    /// show its error stream as the cascade says, and takes in what each comes
    /// to, until one settles the request; then, for a retrieval and unless `mode`
    /// is `Disabled`, asks the user with `ask` for the name and the secret that
    /// are still absent.
    ///
    /// A retrieval that gets through returns its outcome, whether or not name and
    /// secret were found: it is for the caller to look. A store or an erase
    /// returns nothing. What was changed in `action` before an error stays
    /// changed.
    #[verifier::loop_isolation(false)]
    pub fn invoke<H: Fn(&Program, &Action) -> Reply, P: Fn(&str, Mode) -> Answer>(
        &mut self,
        action: &mut Action,
        mode: Mode,
        helper: H,
        ask: P,
    ) -> (res: Result<Option<Outcome>, Error>)
        requires
            forall|program: &Program, state: &Action| call_requires(helper, (program, state)),
            forall|message: &str, how: Mode|
                how != Mode::Disabled ==> call_requires(ask, (message, how)),
        ensures
            exists|t: Transcript| #[trigger]
                accounts(
                    helper,
                    ask,
                    *old(self),
                    *final(self),
                    old(action)@,
                    mode,
                    t,
                    final(action)@,
                    result_view(res),
                ),
            old(action)@ is Get || (res matches Ok(None) && final(action)@ == old(action)@),
            res matches Ok(found) ==> opt_outcome(found) == final(action)@.outcome(),
            res matches Err(e) ==> e@ is Parse || e@ is HelperCommunication || (e@ is Prompt
                && mode != Mode::Disabled),
    {
        let ghost start = action@;
        let ghost mut states = Seq::<Action>::empty();
        let ghost mut replies = Seq::<Reply>::empty();
        let ghost mut name: Answer = arbitrary();
        let ghost mut secret: Answer = arbitrary();
        if let Err(e) = action.normalize() {
            proof {
                let t = Transcript { states, replies, name, secret };
                assert(accounts(helper, ask, *old(self), *self, start, mode, t, action@, Err(e@)));
            }
            return Err(e);
        }
        let ghost entered = action@;
        let flag = self.stderr;
        let n = self.programs.len();
        let mut i: usize = 0;
        let mut settled = false;
        while i < n && !settled
            invariant
                i <= n == self.programs.len(),
                states.len() == replies.len() == i,
                old(action)@ is Get || action@ == old(action)@,
                flagged(*old(self), *self, i as nat),
                consulted(entered, reply_views(replies)) == if settled {
                    Progress::Settled(action@)
                } else {
                    Progress::Open(action@)
                },
                forall|j: int|
                    0 <= j < i ==> {
                        &&& consulted(entered, reply_views(replies).take(j)) == Progress::Open(
                            #[trigger] states[j]@,
                        )
                        &&& call_ensures(helper, (&self.programs[j], &states[j]), replies[j])
                    },
            decreases n - i,
        {
            self.programs[i].stderr = flag;
            let reply = helper(&self.programs[i], action);
            proof {
                lemma_views_push(replies, reply);
                states = states.push(*action);
                replies = replies.push(reply);
            }
            match action.absorb(reply) {
                Verdict::Continue => {},
                Verdict::Stop => {
                    settled = true;
                },
                Verdict::Abort(e) => {
                    proof {
                        let t = Transcript { states, replies, name, secret };
                        assert(accounts(
                            helper,
                            ask,
                            *old(self),
                            *self,
                            start,
                            mode,
                            t,
                            action@,
                            Err(e@),
                        ));
                    }
                    return Err(e);
                },
            }
            i = i + 1;
        }
        let ghost consulted_action = action@;
        if !mode.is_disabled() {
            if let Action::Get(ctx) = action {
                let (named, Ghost(answer)) = ask_for(ctx, Field::Username, &ask);
                proof {
                    name = answer;
                }
                if let Err(e) = named {
                    proof {
                        let t = Transcript { states, replies, name, secret };
                        assert(accounts(
                            helper,
                            ask,
                            *old(self),
                            *self,
                            start,
                            mode,
                            t,
                            action@,
                            Err(e@),
                        ));
                    }
                    return Err(e);
                }
                let (kept, Ghost(answer)) = ask_for(ctx, Field::Password, &ask);
                proof {
                    secret = answer;
                }
                if let Err(e) = kept {
                    proof {
                        let t = Transcript { states, replies, name, secret };
                        assert(accounts(
                            helper,
                            ask,
                            *old(self),
                            *self,
                            start,
                            mode,
                            t,
                            action@,
                            Err(e@),
                        ));
                    }
                    return Err(e);
                }
            }
        }
        let outcome = action.outcome();
        proof {
            let t = Transcript { states, replies, name, secret };
            assert(accounts(
                helper,
                ask,
                *old(self),
                *self,
                start,
                mode,
                t,
                action@,
                result_view(Ok(outcome)),
            ));
        }
        Ok(outcome)
    }
}

} // verus!
