//! The course of one request, from the arrival of its email to the reply
//! or to the reason why it was given up.
//!
//! ```text
//! Start -> Parsing -> Validating -> Assembling -> Submitting -> Replying -> Done
//!                         |             ^
//!                         v             |
//!                    WaitingBalance ----+
//! ```
//!
//! From `Validating`, `WaitingBalance`, `Assembling` and `Submitting` a
//! request can also go to `Aborted`. The coordinator performs nothing: it
//! is told what happened and says what to do next.

use crate::calldata::{assemble_result_view, AssembleError, CalldataView, ProofCalldata};
use crate::request::{ParsedEmail, ParsedEmailView};
use crate::submitter::{ChainSubmissionError, SubmissionResult};
use crate::validator::{
    reason_text, BalanceRequirement, FailureReason, OutcomeView, RequirementView,
    ValidationOutcome,
};
use crate::watcher::WatchDecision;
use vstd::prelude::*;
use vstd::string::StringExecFns;

verus! {

/// Why a request was given up.
#[derive(Clone, Copy, Debug, PartialEq, Eq, Structural)]
pub enum AbortReason {
    Validation(FailureReason),
    WatchTimedOut,
    WatchCancelled,
    Assembly(AssembleError),
    Submission(ChainSubmissionError),
}

/// The reason in words, for the reply to the sender.
pub open spec fn rejection_text(reason: AbortReason) -> Seq<char> {
    match reason {
        AbortReason::Validation(why) => reason_text(why),
        AbortReason::WatchTimedOut => "funds did not arrive in time"@,
        AbortReason::WatchCancelled => "request cancelled while waiting for funds"@,
        AbortReason::Assembly(AssembleError::Io) => "proof artifacts could not be read"@,
        AbortReason::Assembly(AssembleError::Parse(_)) => "proof artifacts are malformed"@,
        AbortReason::Submission(ChainSubmissionError::Rpc) => "chain endpoint unreachable"@,
        AbortReason::Submission(ChainSubmissionError::Signing) => "transaction could not be signed"@,
        AbortReason::Submission(ChainSubmissionError::Reverted) => "contract rejected the transfer"@,
    }
}

impl AbortReason {
    /// The reason in words.
    pub fn message(&self) -> (r: String)
        ensures
            r@ == rejection_text(*self),
    {
        match self {
            AbortReason::Validation(why) => why.message(),
            AbortReason::WatchTimedOut => String::from_str("funds did not arrive in time"),
            AbortReason::WatchCancelled => String::from_str(
                "request cancelled while waiting for funds",
            ),
            AbortReason::Assembly(AssembleError::Io) => String::from_str(
                "proof artifacts could not be read",
            ),
            AbortReason::Assembly(AssembleError::Parse(_)) => String::from_str(
                "proof artifacts are malformed",
            ),
            AbortReason::Submission(ChainSubmissionError::Rpc) => String::from_str(
                "chain endpoint unreachable",
            ),
            AbortReason::Submission(ChainSubmissionError::Signing) => String::from_str(
                "transaction could not be signed",
            ),
            AbortReason::Submission(ChainSubmissionError::Reverted) => String::from_str(
                "contract rejected the transfer",
            ),
        }
    }
}

/// Where a request stands.
#[derive(Clone, Copy, Debug, PartialEq, Eq, Structural)]
pub enum State {
    Start,
    Parsing,
    Validating,
    WaitingBalance,
    Assembling,
    Submitting,
    Replying,
    Done,
    Aborted(AbortReason),
}

/// What happened outside.
#[derive(Debug, PartialEq, Eq)]
pub enum Event {
    EmailReceived,
    Parsed(ParsedEmail),
    Validated(ValidationOutcome),
    WatchEnded(WatchDecision),
    Assembled(Result<ProofCalldata, AssembleError>),
    Submitted(Result<SubmissionResult, ChainSubmissionError>),
    ReplySent,
}

pub enum EventView {
    EmailReceived,
    Parsed(ParsedEmailView),
    Validated(OutcomeView),
    WatchEnded(WatchDecision),
    Assembled(Result<CalldataView, AssembleError>),
    Submitted(Result<Seq<char>, ChainSubmissionError>),
    ReplySent,
}

pub open spec fn submission_view(r: Result<SubmissionResult, ChainSubmissionError>) -> Result<
    Seq<char>,
    ChainSubmissionError,
> {
    match r {
        Ok(result) => Ok(result.tx_hash@),
        Err(e) => Err(e),
    }
}

impl View for Event {
    type V = EventView;

    open spec fn view(&self) -> EventView {
        match self {
            Event::EmailReceived => EventView::EmailReceived,
            Event::Parsed(email) => EventView::Parsed(email@),
            Event::Validated(outcome) => EventView::Validated(outcome@),
            Event::WatchEnded(decision) => EventView::WatchEnded(*decision),
            Event::Assembled(r) => EventView::Assembled(assemble_result_view(*r)),
            Event::Submitted(r) => EventView::Submitted(submission_view(*r)),
            Event::ReplySent => EventView::ReplySent,
        }
    }
}

/// What to do next.
#[derive(Debug, PartialEq, Eq)]
pub enum Action {
    /// Extract the fields of the email.
    Parse,
    /// Make the request out of these fields and classify it.
    Validate(ParsedEmail),
    /// Wait until the funding address holds the amount.
    WatchBalance(BalanceRequirement),
    /// Read the artifacts of the request and assemble the calldata.
    Assemble,
    /// Submit the transaction with this calldata.
    Submit(ProofCalldata),
    /// Tell the sender that the transaction was broadcast.
    Reply(SubmissionResult),
    /// Tell the sender why the request was given up.
    Reject(AbortReason),
    /// The request is through.
    Finish,
    /// The event does not belong here: nothing is to be done.
    Ignore,
}

pub enum ActionView {
    Parse,
    Validate(ParsedEmailView),
    WatchBalance(RequirementView),
    Assemble,
    Submit(CalldataView),
    Reply(Seq<char>),
    Reject(AbortReason),
    Finish,
    Ignore,
}

impl View for Action {
    type V = ActionView;

    open spec fn view(&self) -> ActionView {
        match self {
            Action::Parse => ActionView::Parse,
            Action::Validate(email) => ActionView::Validate(email@),
            Action::WatchBalance(requirement) => ActionView::WatchBalance(requirement@),
            Action::Assemble => ActionView::Assemble,
            Action::Submit(calldata) => ActionView::Submit(calldata@),
            Action::Reply(result) => ActionView::Reply(result.tx_hash@),
            Action::Reject(reason) => ActionView::Reject(*reason),
            Action::Finish => ActionView::Finish,
            Action::Ignore => ActionView::Ignore,
        }
    }
}

pub open spec fn aborted(reason: AbortReason) -> (State, ActionView) {
    (State::Aborted(reason), ActionView::Reject(reason))
}

/// The state after an event, and what to do. An event that the state does
/// not wait for changes nothing.
pub open spec fn next(state: State, event: EventView) -> (State, ActionView) {
    match (state, event) {
        (State::Start, EventView::EmailReceived) => (State::Parsing, ActionView::Parse),
        (State::Parsing, EventView::Parsed(email)) => (
            State::Validating,
            ActionView::Validate(email),
        ),
        (State::Validating, EventView::Validated(OutcomeView::Ready)) => (
            State::Assembling,
            ActionView::Assemble,
        ),
        (State::Validating, EventView::Validated(OutcomeView::Pending(requirement))) => (
            State::WaitingBalance,
            ActionView::WatchBalance(requirement),
        ),
        (State::Validating, EventView::Validated(OutcomeView::Failure(reason))) => aborted(
            AbortReason::Validation(reason),
        ),
        (State::WaitingBalance, EventView::WatchEnded(WatchDecision::Funded)) => (
            State::Assembling,
            ActionView::Assemble,
        ),
        (State::WaitingBalance, EventView::WatchEnded(WatchDecision::TimedOut)) => aborted(
            AbortReason::WatchTimedOut,
        ),
        (State::WaitingBalance, EventView::WatchEnded(WatchDecision::Cancelled)) => aborted(
            AbortReason::WatchCancelled,
        ),
        (State::Assembling, EventView::Assembled(Ok(calldata))) => (
            State::Submitting,
            ActionView::Submit(calldata),
        ),
        (State::Assembling, EventView::Assembled(Err(e))) => aborted(AbortReason::Assembly(e)),
        (State::Submitting, EventView::Submitted(Ok(tx_hash))) => (
            State::Replying,
            ActionView::Reply(tx_hash),
        ),
        (State::Submitting, EventView::Submitted(Err(e))) => aborted(AbortReason::Submission(e)),
        (State::Replying, EventView::ReplySent) => (State::Done, ActionView::Finish),
        _ => (state, ActionView::Ignore),
    }
}

/// Takes the request one step on.
pub fn step(state: State, event: Event) -> (r: (State, Action))
    ensures
        r.0 == next(state, event@).0,
        r.1@ == next(state, event@).1,
{
    match (state, event) {
        (State::Start, Event::EmailReceived) => (State::Parsing, Action::Parse),
        (State::Parsing, Event::Parsed(email)) => (State::Validating, Action::Validate(email)),
        (State::Validating, Event::Validated(ValidationOutcome::Ready)) => (
            State::Assembling,
            Action::Assemble,
        ),
        (State::Validating, Event::Validated(ValidationOutcome::Pending(requirement))) => (
            State::WaitingBalance,
            Action::WatchBalance(requirement),
        ),
        (State::Validating, Event::Validated(ValidationOutcome::Failure(reason))) => {
            let why = AbortReason::Validation(reason);
            (State::Aborted(why), Action::Reject(why))
        },
        (State::WaitingBalance, Event::WatchEnded(WatchDecision::Funded)) => (
            State::Assembling,
            Action::Assemble,
        ),
        (State::WaitingBalance, Event::WatchEnded(WatchDecision::TimedOut)) => (
            State::Aborted(AbortReason::WatchTimedOut),
            Action::Reject(AbortReason::WatchTimedOut),
        ),
        (State::WaitingBalance, Event::WatchEnded(WatchDecision::Cancelled)) => (
            State::Aborted(AbortReason::WatchCancelled),
            Action::Reject(AbortReason::WatchCancelled),
        ),
        (State::Assembling, Event::Assembled(Ok(calldata))) => (
            State::Submitting,
            Action::Submit(calldata),
        ),
        (State::Assembling, Event::Assembled(Err(e))) => {
            let why = AbortReason::Assembly(e);
            (State::Aborted(why), Action::Reject(why))
        },
        (State::Submitting, Event::Submitted(Ok(result))) => (
            State::Replying,
            Action::Reply(result),
        ),
        (State::Submitting, Event::Submitted(Err(e))) => {
            let why = AbortReason::Submission(e);
            (State::Aborted(why), Action::Reject(why))
        },
        (State::Replying, Event::ReplySent) => (State::Done, Action::Finish),
        (state, _) => (state, Action::Ignore),
    }
}

/// Whether a request has come to its end.
pub fn is_terminal(state: State) -> (r: bool)
    ensures
        r == (state is Done || state is Aborted),
{
    match state {
        State::Done => true,
        State::Aborted(_) => true,
        _ => false,
    }
}

/// The state after a series of events, and the actions asked for on the
/// way, one for each event.
pub open spec fn run(state: State, events: Seq<EventView>) -> (State, Seq<ActionView>)
    decreases events.len(),
{
    if events.len() == 0 {
        (state, Seq::empty())
    } else {
        let (reached, actions) = run(state, events.drop_last());
        let (last, action) = next(reached, events.last());
        (last, actions.push(action))
    }
}

/// The stages of a request that cost something outside.
#[derive(Clone, Copy, Debug, PartialEq, Eq, Structural)]
pub enum Stage {
    Parse,
    Validate,
    Watch,
    Assemble,
    Submit,
    Reply,
}

/// The action asks for this stage.
pub open spec fn asks_for(action: ActionView, stage: Stage) -> bool {
    match stage {
        Stage::Parse => action is Parse,
        Stage::Validate => action is Validate,
        Stage::Watch => action is WatchBalance,
        Stage::Assemble => action is Assemble,
        Stage::Submit => action is Submit,
        Stage::Reply => action is Reply,
    }
}

/// How often a stage was asked for.
pub open spec fn times(actions: Seq<ActionView>, stage: Stage) -> nat
    decreases actions.len(),
{
    if actions.len() == 0 {
        0
    } else {
        times(actions.drop_last(), stage) + if asks_for(actions.last(), stage) {
            1nat
        } else {
            0nat
        }
    }
}

/// What the state says of the actions that led to it.
spec fn accounted(state: State, actions: Seq<ActionView>) -> bool {
    let p = times(actions, Stage::Parse);
    let v = times(actions, Stage::Validate);
    let w = times(actions, Stage::Watch);
    let a = times(actions, Stage::Assemble);
    let s = times(actions, Stage::Submit);
    let r = times(actions, Stage::Reply);
    w <= 1 && match state {
        State::Start => p == 0 && v == 0 && w == 0 && a == 0 && s == 0 && r == 0,
        State::Parsing => p == 1 && v == 0 && w == 0 && a == 0 && s == 0 && r == 0,
        State::Validating => p == 1 && v == 1 && w == 0 && a == 0 && s == 0 && r == 0,
        State::WaitingBalance => p == 1 && v == 1 && w == 1 && a == 0 && s == 0 && r == 0,
        State::Assembling => p == 1 && v == 1 && a == 1 && s == 0 && r == 0,
        State::Submitting => p == 1 && v == 1 && a == 1 && s == 1 && r == 0,
        State::Replying => p == 1 && v == 1 && a == 1 && s == 1 && r == 1,
        State::Done => p == 1 && v == 1 && a == 1 && s == 1 && r == 1,
        State::Aborted(AbortReason::Validation(_)) => p == 1 && v == 1 && w == 0 && a == 0 && s
            == 0 && r == 0,
        State::Aborted(AbortReason::WatchTimedOut) => p == 1 && v == 1 && w == 1 && a == 0 && s
            == 0 && r == 0,
        State::Aborted(AbortReason::WatchCancelled) => p == 1 && v == 1 && w == 1 && a == 0 && s
            == 0 && r == 0,
        State::Aborted(AbortReason::Assembly(_)) => p == 1 && v == 1 && a == 1 && s == 0 && r == 0,
        State::Aborted(AbortReason::Submission(_)) => p == 1 && v == 1 && a == 1 && s == 1 && r
            == 0,
    }
}

proof fn lemma_run_accounted(events: Seq<EventView>)
    ensures
        accounted(run(State::Start, events).0, run(State::Start, events).1),
        run(State::Start, events).1.len() == events.len(),
    decreases events.len(),
{
    if events.len() > 0 {
        lemma_run_accounted(events.drop_last());
        let (reached, actions) = run(State::Start, events.drop_last());
        let (last, action) = next(reached, events.last());
        assert(actions.push(action).drop_last() =~= actions);
    }
}

/// In the course of one request no stage is asked for twice, whatever
/// happens and in whatever order; and each stage but the watcher is asked
/// for only after the one before it: nothing is assembled that was not
/// validated, nothing submitted that was not assembled, nothing replied
/// that was not submitted.
pub proof fn law_each_stage_at_most_once(events: Seq<EventView>)
    ensures
        forall|stage: Stage| #[trigger] times(run(State::Start, events).1, stage) <= 1,
        times(run(State::Start, events).1, Stage::Reply) <= times(
            run(State::Start, events).1,
            Stage::Submit,
        ) <= times(run(State::Start, events).1, Stage::Assemble) <= times(
            run(State::Start, events).1,
            Stage::Validate,
        ) <= times(run(State::Start, events).1, Stage::Parse),
        times(run(State::Start, events).1, Stage::Watch) <= times(
            run(State::Start, events).1,
            Stage::Validate,
        ),
{
    lemma_run_accounted(events);
    let actions = run(State::Start, events).1;
    assert forall|stage: Stage| #[trigger] times(actions, stage) <= 1 by {
        match stage {
            Stage::Parse => {},
            Stage::Validate => {},
            Stage::Watch => {},
            Stage::Assemble => {},
            Stage::Submit => {},
            Stage::Reply => {},
        }
    }
}

/// A request that came through was parsed, validated, assembled,
/// submitted and answered exactly once each.
pub proof fn law_completed_request_submitted_once(events: Seq<EventView>)
    requires
        run(State::Start, events).0 is Done,
    ensures
        times(run(State::Start, events).1, Stage::Parse) == 1,
        times(run(State::Start, events).1, Stage::Validate) == 1,
        times(run(State::Start, events).1, Stage::Assemble) == 1,
        times(run(State::Start, events).1, Stage::Submit) == 1,
        times(run(State::Start, events).1, Stage::Reply) == 1,
{
    lemma_run_accounted(events);
}

/// A request given up before its calldata was there was never submitted:
/// not when validation refused it, not when the wait for funds ended
/// without them, not when assembling failed.
pub proof fn law_aborted_early_never_submitted(events: Seq<EventView>)
    requires
        run(State::Start, events).0 matches State::Aborted(reason) && !(reason is Submission),
    ensures
        times(run(State::Start, events).1, Stage::Submit) == 0,
{
    lemma_run_accounted(events);
}

/// A failed submission is not tried again: the request is given up with
/// one submission made.
pub proof fn law_failed_submission_not_retried(events: Seq<EventView>)
    requires
        run(State::Start, events).0 matches State::Aborted(reason) && reason is Submission,
    ensures
        times(run(State::Start, events).1, Stage::Submit) == 1,
{
    lemma_run_accounted(events);
}

/// A request that has come to its end stays there, whatever happens.
pub proof fn law_terminal_states_stay(state: State, event: EventView)
    requires
        state is Done || state is Aborted,
    ensures
        next(state, event) == (state, ActionView::Ignore),
{
}

/// A request classified as ready goes from validation straight to
/// assembling, and the watcher is never asked for.
pub proof fn law_ready_skips_watcher(events: Seq<EventView>, email: ParsedEmailView)
    requires
        events.len() >= 3,
        events[0] == EventView::EmailReceived,
        events[1] == EventView::Parsed(email),
        events[2] == EventView::Validated(OutcomeView::Ready),
    ensures
        run(State::Start, events).1.len() == events.len(),
        run(State::Start, events).1[2] == ActionView::Assemble,
        times(run(State::Start, events).1, Stage::Watch) == 0,
    decreases events.len(),
{
    lemma_classified_run(events, email, OutcomeView::Ready);
    lemma_run_accounted(events);
    if events.len() > 3 {
        let before = events.drop_last();
        law_ready_skips_watcher(before, email);
        lemma_run_accounted(before);
        let (reached, actions) = run(State::Start, before);
        let (last, action) = next(reached, events.last());
        assert(actions.push(action).drop_last() =~= actions);
        assert(actions[2] is Assemble);
        lemma_times_positive(actions, Stage::Assemble, 2);
    } else {
        let before = events.drop_last();
        lemma_run_accounted(before);
        let (reached, actions) = run(State::Start, before);
        let (last, action) = next(reached, events.last());
        assert(reached == State::Validating);
        assert(actions.push(action).drop_last() =~= actions);
    }
}

/// A request classified as pending asks for the watcher once, right after
/// validation and so before any assembling.
pub proof fn law_pending_watches_once(
    events: Seq<EventView>,
    email: ParsedEmailView,
    requirement: RequirementView,
)
    requires
        events.len() >= 3,
        events[0] == EventView::EmailReceived,
        events[1] == EventView::Parsed(email),
        events[2] == EventView::Validated(OutcomeView::Pending(requirement)),
    ensures
        run(State::Start, events).1.len() == events.len(),
        run(State::Start, events).1[2] == ActionView::WatchBalance(requirement),
        times(run(State::Start, events).1, Stage::Watch) == 1,
        forall|k: int|
            0 <= k < events.len() && #[trigger] run(State::Start, events).1[k] is Assemble ==> k
                > 2,
{
    lemma_classified_run(events, email, OutcomeView::Pending(requirement));
    lemma_run_accounted(events);
    let actions = run(State::Start, events).1;
    lemma_times_positive(actions, Stage::Watch, 2);
}

/// An action that asks for a stage counts towards it.
proof fn lemma_times_positive(actions: Seq<ActionView>, stage: Stage, k: int)
    requires
        0 <= k < actions.len(),
        asks_for(actions[k], stage),
    ensures
        times(actions, stage) >= 1,
    decreases actions.len(),
{
    if k < actions.len() - 1 {
        lemma_times_positive(actions.drop_last(), stage, k);
    }
}

/// The first three actions of a run that starts with an email, its fields
/// and its class.
proof fn lemma_classified_run(events: Seq<EventView>, email: ParsedEmailView, outcome: OutcomeView)
    requires
        events.len() >= 3,
        events[0] == EventView::EmailReceived,
        events[1] == EventView::Parsed(email),
        events[2] == EventView::Validated(outcome),
    ensures
        run(State::Start, events).1.len() == events.len(),
        run(State::Start, events).1[0] == ActionView::Parse,
        run(State::Start, events).1[1] == ActionView::Validate(email),
        run(State::Start, events).1[2] == next(State::Validating, events[2]).1,
        events.len() == 3 ==> run(State::Start, events.drop_last()).0 == State::Validating,
    decreases events.len(),
{
    let before = events.drop_last();
    let (reached, actions) = run(State::Start, before);
    let (last, action) = next(reached, events.last());
    if events.len() == 3 {
        let two = before;
        let one = two.drop_last();
        let none = one.drop_last();
        assert(none.len() == 0);
        assert(one.last() == events[0]);
        assert(two.last() == events[1]);
        assert(run(State::Start, none) == (State::Start, Seq::<ActionView>::empty()));
        assert(run(State::Start, one).0 == State::Parsing);
        assert(run(State::Start, one).1 =~= seq![ActionView::Parse]);
        assert(run(State::Start, two).0 == State::Validating);
        assert(run(State::Start, two).1 =~= seq![ActionView::Parse, ActionView::Validate(email)]);
    } else {
        assert(before[0] == events[0] && before[1] == events[1] && before[2] == events[2]);
        lemma_classified_run(before, email, outcome);
    }
}

} // verus!
