//! What holds of every resolution, whatever the helpers and the user answer.
use crate::helper::{Action, ActionView, FailureView, OutcomeView, Reply, ReplyView};
use crate::program::cascade::{heard, reply_views, Transcript};
use crate::program::model::{advanced, consulted, resolved, Progress};
use crate::program::Program;
use crate::prompt::{AnswerView, Mode};
use crate::protocol::context::{prefer, ContextView};
use crate::protocol::record::decoded;
use crate::protocol::url::split_url;
use crate::protocol::ErrorView;
use vstd::prelude::*;

verus! {

/// Whether `reply` is a record that holds a secret.
pub open spec fn holds_password(reply: ReplyView) -> bool {
    reply matches Ok(Some(bytes)) && decoded(bytes) matches Some(record) && record.password is Some
}

/// The failure that `reply` counts as, if any: the one it is, or `Malformed`
/// where it is bytes that are no record.
pub open spec fn failure_of(reply: ReplyView) -> Option<FailureView> {
    match reply {
        Err(failure) => Some(failure),
        Ok(Some(bytes)) => if decoded(bytes) is None {
            Some(FailureView::Malformed)
        } else {
            None
        },
        Ok(None) => None,
    }
}

/// Asking one more helper takes its reply in where the progress is open, and
/// changes nothing where it is not.
pub proof fn lemma_next(start: ActionView, replies: Seq<ReplyView>, k: int)
    requires
        0 <= k < replies.len(),
    ensures
        consulted(start, replies.take(k + 1)) == match consulted(start, replies.take(k)) {
            Progress::Open(action) => advanced(action, replies[k]),
            halted => halted,
        },
{
    assert(replies.take(k + 1).drop_last() =~= replies.take(k));
}

/// Once a helper has settled the request or made it fail, no further helper is
/// asked: what further helpers would answer changes nothing, and the progress is
/// never open again.
pub proof fn law_halted_stays(start: ActionView, replies: Seq<ReplyView>, k: int)
    requires
        0 <= k <= replies.len(),
        !(consulted(start, replies.take(k)) is Open),
    ensures
        consulted(start, replies) == consulted(start, replies.take(k)),
        forall|j: int|
            k <= j <= replies.len() ==> #[trigger] consulted(start, replies.take(j)) == consulted(
                start,
                replies.take(k),
            ),
    decreases replies.len() - k,
{
    if k == replies.len() {
        assert(replies.take(k) =~= replies);
    } else {
        lemma_next(start, replies, k);
        law_halted_stays(start, replies, k + 1);
    }
}

/// A run asks no helper once the progress is no longer open: its transcript ends
/// with the reply that settled the request or made it fail.
pub proof fn law_run_ends_where_progress_halts<H: Fn(&Program, &Action) -> Reply>(
    helper: H,
    programs: Seq<Program>,
    entered: ActionView,
    t: Transcript,
    k: int,
)
    requires
        heard(helper, programs, entered, t),
        0 <= k <= t.replies.len(),
        !(consulted(entered, reply_views(t.replies).take(k)) is Open),
    ensures
        t.replies.len() == k,
{
    if k < t.replies.len() {
        assert(consulted(entered, reply_views(t.replies).take(k)) == Progress::Open(
            t.states[k]@,
        ));
    }
}

/// A run that stores or erases asks every program, whatever the helpers come to.
pub proof fn law_storing_run_asks_every_program<H: Fn(&Program, &Action) -> Reply>(
    helper: H,
    programs: Seq<Program>,
    start: ActionView,
    t: Transcript,
)
    requires
        !(start is Get),
        heard(helper, programs, start, t),
    ensures
        t.replies.len() == programs.len(),
{
    law_store_and_erase_ask_every_program(
        start,
        Mode::Disabled,
        reply_views(t.replies),
        Ok(Seq::empty()),
        Ok(Seq::empty()),
    );
}

/// Asking the helpers never turns one kind of action into another.
pub proof fn lemma_kind_stays(start: ActionView, replies: Seq<ReplyView>)
    ensures
        consulted(start, replies).action() is Get <==> start is Get,
        consulted(start, replies).action() is Store <==> start is Store,
        consulted(start, replies).action() is Erase <==> start is Erase,
    decreases replies.len(),
{
    if replies.len() > 0 {
        lemma_kind_stays(start, replies.drop_last());
    }
}

/// A reply that leaves a retrieval with both name and secret ends the cascade:
/// the request is settled as that reply left it, and no helper behind the one
/// that sent it is asked.
pub proof fn law_complete_record_ends_cascade(
    start: ActionView,
    replies: Seq<ReplyView>,
    k: int,
    ctx: ContextView,
    record: ContextView,
)
    requires
        0 <= k < replies.len(),
        consulted(start, replies.take(k)) == Progress::Open(ActionView::Get(ctx)),
        replies[k] matches Ok(Some(bytes)) && decoded(bytes) == Some(record),
        ctx.overlay(record).is_complete(),
        record.url is Some ==> ctx.overlay(record).destructured() is Some,
    ensures
        consulted(start, replies) == Progress::Settled(ActionView::Get(ctx.absorbed(record).0)),
        ctx.absorbed(record).0.username == ctx.overlay(record).username,
        ctx.absorbed(record).0.password == ctx.overlay(record).password,
        forall|j: int| k < j <= replies.len() ==> !(#[trigger] consulted(start, replies.take(j)) is Open),
{
    lemma_next(start, replies, k);
    law_halted_stays(start, replies, k + 1);
}

/// A reply overrides exactly what it holds. The name and the secret after a
/// reply are those of the reply where it holds them, and else those from before
/// it. The same goes for protocol, host and path, unless the reply holds a URL,
/// from which the three are then derived.
pub proof fn law_reply_overrides_what_it_holds(ctx: ContextView, record: ContextView)
    ensures
        ctx.absorbed(record).0.username == prefer(record.username, ctx.username),
        ctx.absorbed(record).0.password == prefer(record.password, ctx.password),
        ctx.absorbed(record).0.url == prefer(record.url, ctx.url),
        record.url is None ==> {
            &&& ctx.absorbed(record).0.protocol == prefer(record.protocol, ctx.protocol)
            &&& ctx.absorbed(record).0.host == prefer(record.host, ctx.host)
            &&& ctx.absorbed(record).0.path == prefer(record.path, ctx.path)
        },
{
}

/// A secret that one helper has set stays as it is while the helpers behind it
/// send none: an earlier helper is overridden only by a later one that holds the
/// same field.
pub proof fn law_password_stays_until_overridden(
    start: ActionView,
    replies: Seq<ReplyView>,
    k: int,
    ctx: ContextView,
)
    requires
        0 <= k <= replies.len(),
        consulted(start, replies.take(k)).action() == ActionView::Get(ctx),
        forall|i: int| k <= i < replies.len() ==> !holds_password(#[trigger] replies[i]),
    ensures
        consulted(start, replies).action() matches ActionView::Get(end) && end.password
            == ctx.password,
    decreases replies.len() - k,
{
    if k == replies.len() {
        assert(replies.take(k) =~= replies);
    } else {
        lemma_next(start, replies, k);
        assert(!holds_password(replies[k]));
        let next = consulted(start, replies.take(k + 1)).action();
        assert(next matches ActionView::Get(c) && c.password == ctx.password);
        law_password_stays_until_overridden(start, replies, k + 1, next->Get_0);
    }
}

/// A helper that asks to quit ends the cascade, though name or secret may still
/// be absent, and its wish shows in the outcome.
pub proof fn law_quit_ends_cascade(
    start: ActionView,
    mode: Mode,
    replies: Seq<ReplyView>,
    k: int,
    ctx: ContextView,
    record: ContextView,
    name: AnswerView,
    secret: AnswerView,
)
    requires
        0 <= k < replies.len(),
        start.normalized() matches Some(entered) && consulted(entered, replies.take(k))
            == Progress::Open(ActionView::Get(ctx)),
        replies[k] matches Ok(Some(bytes)) && decoded(bytes) == Some(record),
        record.quit == Some(true),
        record.url is Some ==> ctx.overlay(record).destructured() is Some,
    ensures
        consulted(start.normalized()->0, replies) matches Progress::Settled(ActionView::Get(end))
            && end.quit == Some(true),
        forall|j: int|
            k < j <= replies.len() ==> !(#[trigger] consulted(
                start.normalized()->0,
                replies.take(j),
            ) is Open),
        resolved(start, mode, replies, name, secret).1 matches Ok(found) ==> found matches Some(
            outcome,
        ) && outcome.quit,
{
    let entered = start.normalized()->0;
    lemma_next(entered, replies, k);
    law_halted_stays(entered, replies, k + 1);
}

/// A URL that a helper sends is taken apart at once. A malformed one fails the
/// resolution with `Parse`, however many helpers are left; the record then holds
/// what the reply was merged to. A well-formed one sets protocol, host and path
/// to its parts.
pub proof fn law_url_in_reply_is_destructured(
    start: ActionView,
    mode: Mode,
    replies: Seq<ReplyView>,
    k: int,
    ctx: ContextView,
    record: ContextView,
    name: AnswerView,
    secret: AnswerView,
)
    requires
        0 <= k < replies.len(),
        start.normalized() matches Some(entered) && consulted(entered, replies.take(k))
            == Progress::Open(ActionView::Get(ctx)),
        replies[k] matches Ok(Some(bytes)) && decoded(bytes) == Some(record),
        record.url is Some,
    ensures
        match split_url(record.url->0) {
            None => resolved(start, mode, replies, name, secret) == (
                ActionView::Get(ctx.overlay(record)),
                Err::<Option<OutcomeView>, ErrorView>(ErrorView::Parse),
            ),
            Some(parts) => consulted(start.normalized()->0, replies.take(k + 1)).action()
                matches ActionView::Get(next) && next.url == record.url && next.protocol == Some(
                parts.protocol,
            ) && next.host == parts.host && next.path == parts.path,
        },
{
    let entered = start.normalized()->0;
    lemma_next(entered, replies, k);
    if split_url(record.url->0) is None {
        law_halted_stays(entered, replies, k + 1);
    }
}

/// While storing or erasing, nothing that a helper comes to ends the cascade or
/// changes the action: every program is asked, and the resolution succeeds
/// without an outcome.
pub proof fn law_store_and_erase_ask_every_program(
    start: ActionView,
    mode: Mode,
    replies: Seq<ReplyView>,
    name: AnswerView,
    secret: AnswerView,
)
    requires
        !(start is Get),
    ensures
        consulted(start, replies) == Progress::Open(start),
        resolved(start, mode, replies, name, secret) == (start, Ok::<Option<OutcomeView>, ErrorView>(None)),
    decreases replies.len(),
{
    if replies.len() > 0 {
        law_store_and_erase_ask_every_program(start, mode, replies.drop_last(), name, secret);
    }
}

/// While retrieving, a helper that fails, and not merely by being unusable, ends
/// the resolution at once with `HelperCommunication`: no helper behind it is
/// asked, nor the user, and the action stays as the helpers before it left it.
pub proof fn law_failure_ends_retrieval(
    start: ActionView,
    mode: Mode,
    replies: Seq<ReplyView>,
    k: int,
    ctx: ContextView,
    failure: FailureView,
    name: AnswerView,
    secret: AnswerView,
)
    requires
        0 <= k < replies.len(),
        start.normalized() matches Some(entered) && consulted(entered, replies.take(k))
            == Progress::Open(ActionView::Get(ctx)),
        failure_of(replies[k]) == Some(failure),
        !(failure is Unusable),
    ensures
        resolved(start, mode, replies, name, secret) == (
            ActionView::Get(ctx),
            Err::<Option<OutcomeView>, ErrorView>(ErrorView::HelperCommunication(failure)),
        ),
        forall|j: int|
            k < j <= replies.len() ==> !(#[trigger] consulted(
                start.normalized()->0,
                replies.take(j),
            ) is Open),
{
    let entered = start.normalized()->0;
    lemma_next(entered, replies, k);
    law_halted_stays(entered, replies, k + 1);
}

/// An unusable helper is passed over: the next one is asked about the action as
/// it was.
pub proof fn law_unusable_helper_is_passed_over(
    start: ActionView,
    replies: Seq<ReplyView>,
    k: int,
)
    requires
        0 <= k < replies.len(),
        consulted(start, replies.take(k)) is Open,
        replies[k] == Err::<Option<Seq<u8>>, _>(FailureView::Unusable),
    ensures
        consulted(start, replies.take(k + 1)) == consulted(start, replies.take(k)),
{
    lemma_next(start, replies, k);
}

/// Where the user is not to be asked, a retrieval that no helper made fail
/// succeeds with what the helpers left, be name and secret there or not.
pub proof fn law_disabled_prompt_returns_what_is_there(
    start: ActionView,
    replies: Seq<ReplyView>,
    name: AnswerView,
    secret: AnswerView,
)
    requires
        start is Get,
        start.normalized() matches Some(entered) && !(consulted(entered, replies) is Failed),
    ensures
        ({
            let end = consulted(start.normalized()->0, replies).action();
            &&& resolved(start, Mode::Disabled, replies, name, secret) == (
                end,
                Ok::<Option<OutcomeView>, ErrorView>(end.outcome()),
            )
            &&& end matches ActionView::Get(ctx) && end.outcome() matches Some(outcome)
                && outcome.username == ctx.username && outcome.password == ctx.password
                && outcome.next == ctx
        }),
{
    lemma_kind_stays(start.normalized()->0, replies);
}

/// Where the user is asked and answers, a retrieval that no helper made fail
/// returns both a name and a secret.
pub proof fn law_answers_complete_a_retrieval(
    start: ActionView,
    mode: Mode,
    replies: Seq<ReplyView>,
    name: AnswerView,
    secret: AnswerView,
)
    requires
        start is Get,
        mode != Mode::Disabled,
        resolved(start, mode, replies, name, secret).1 is Ok,
    ensures
        resolved(start, mode, replies, name, secret).1 matches Ok(Some(outcome))
            && outcome.username is Some && outcome.password is Some,
{
    lemma_kind_stays(start.normalized()->0, replies);
}

} // verus!
