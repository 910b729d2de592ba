//! Waiting for a job: its state is asked for again and again until it has ended.

use crate::graphql::{job_status, optional_text, status_result, Failure, FailureView};
use crate::graphql::{Operation, Subject};
use crate::json::{Json, JsonView};
use crate::text::same_text;
use vstd::prelude::*;

verus! {

/// How long the backend pauses between two questions for the state of a job, in seconds.
pub const POLL_INTERVAL_SECS: u64 = 2;

/// A job that is waited for, and how often its state has been asked for.
#[derive(Debug, Clone, Copy, PartialEq, Eq, Structural)]
pub struct JobWait {
    pub job_id: i64,
    pub attempt: u32,
    pub max_attempts: u32,
}

/// What comes next in waiting for a job.
#[derive(Debug, PartialEq, Eq)]
pub enum WaitStep {
    /// The state of the job is to be asked for.
    Ask(JobWait),
    /// A pause is to be made.
    Pause(JobWait),
    /// The job has ended in this state, with this message.
    Ended { state: String, message: Option<String> },
    /// The waiting is over without an end of the job.
    Failed(Failure),
}

/// What a `WaitStep` says.
#[verifier::ext_equal]
pub enum WaitStepView {
    Ask(JobWait),
    Pause(JobWait),
    Ended { state: Seq<char>, message: Option<Seq<char>> },
    Failed(FailureView),
}

impl View for WaitStep {
    type V = WaitStepView;

    open spec fn view(&self) -> WaitStepView {
        match *self {
            WaitStep::Ask(wait) => WaitStepView::Ask(wait),
            WaitStep::Pause(wait) => WaitStepView::Pause(wait),
            WaitStep::Ended { state, message } => WaitStepView::Ended {
                state: state@,
                message: optional_text(message),
            },
            WaitStep::Failed(failure) => WaitStepView::Failed(failure@),
        }
    }
}

/// Whether a job in this state has ended.
pub open spec fn is_final(state: Seq<char>) -> bool {
    state == "FINISHED"@ || state == "FAILED"@
}

/// What a reply decides, where it decides anything: the end of the job or a failure.
pub open spec fn decision(job_id: i64, reply: JsonView) -> Option<WaitStepView> {
    match status_result(job_id, reply) {
        Err(failure) => Some(WaitStepView::Failed(failure)),
        Ok(status) => if is_final(status.state) {
            Some(WaitStepView::Ended { state: status.state, message: status.message })
        } else {
            None
        },
    }
}

/// The failure of a job that was asked for too often.
pub open spec fn timed_out(job_id: i64, attempts: u32) -> WaitStepView {
    WaitStepView::Failed(FailureView::TimedOut { job_id, attempts })
}

/// The first step in waiting for a job.
pub open spec fn first_step(job_id: i64, max_attempts: u32) -> WaitStepView {
    if max_attempts == 0 {
        timed_out(job_id, max_attempts)
    } else {
        WaitStepView::Ask(JobWait { job_id, attempt: 1, max_attempts })
    }
}

impl JobWait {
    /// The step after a reply.
    pub open spec fn after_reply(self, reply: JsonView) -> WaitStepView {
        match decision(self.job_id, reply) {
            Some(step) => step,
            None => WaitStepView::Pause(self),
        }
    }

    /// The step after a pause.
    pub open spec fn after_pause(self) -> WaitStepView {
        if self.attempt < self.max_attempts {
            WaitStepView::Ask(JobWait { attempt: (self.attempt + 1) as u32, ..self })
        } else {
            timed_out(self.job_id, self.max_attempts)
        }
    }

    /// Begins to wait for a job.
    pub fn begin(job_id: i64, max_attempts: u32) -> (r: WaitStep)
        ensures
            r@ == first_step(job_id, max_attempts),
    {
        if max_attempts == 0 {
            WaitStep::Failed(Failure::TimedOut { job_id, attempts: max_attempts })
        } else {
            WaitStep::Ask(JobWait { job_id, attempt: 1, max_attempts })
        }
    }

    /// Takes the reply to the question for the state of the job.
    pub fn on_reply(self, reply: &Json) -> (r: WaitStep)
        ensures
            r@ == self.after_reply(reply@),
    {
        match job_status(self.job_id, reply) {
            Err(failure) => WaitStep::Failed(failure),
            Ok(status) => {
                let state = status.state;
                if same_text(state.as_str(), "FINISHED") || same_text(state.as_str(), "FAILED") {
                    WaitStep::Ended { state, message: status.message }
                } else {
                    WaitStep::Pause(self)
                }
            },
        }
    }

    /// Goes on after a pause.
    pub fn on_pause(self) -> (r: WaitStep)
        ensures
            r@ == self.after_pause(),
    {
        if self.attempt < self.max_attempts {
            WaitStep::Ask(
                JobWait {
                    job_id: self.job_id,
                    attempt: self.attempt + 1,
                    max_attempts: self.max_attempts,
                },
            )
        } else {
            WaitStep::Failed(
                Failure::TimedOut { job_id: self.job_id, attempts: self.max_attempts },
            )
        }
    }
}

/// Waiting with the given replies, one for each question, as far as they go.
pub open spec fn wait_through(step: WaitStepView, replies: Seq<JsonView>) -> WaitStepView
    decreases replies.len(),
{
    match step {
        WaitStepView::Ask(wait) => if replies.len() == 0 {
            step
        } else {
            wait_through(
                match wait.after_reply(replies[0]) {
                    WaitStepView::Pause(paused) => paused.after_pause(),
                    other => other,
                },
                replies.skip(1),
            )
        },
        _ => step,
    }
}

/// Whether none of the first `n` replies decides anything.
pub open spec fn undecided(job_id: i64, replies: Seq<JsonView>, n: int) -> bool {
    forall|i: int| 0 <= i < n ==> decision(job_id, #[trigger] replies[i]) is None
}

/// From the `attempt`-th question on, the first decisive reply within the limit decides.
proof fn lemma_wait_from(wait: JobWait, replies: Seq<JsonView>, n: int)
    requires
        1 <= wait.attempt <= wait.max_attempts,
        0 <= n < replies.len(),
        wait.attempt + n <= wait.max_attempts,
        undecided(wait.job_id, replies, n),
        decision(wait.job_id, replies[n]) is Some,
    ensures
        wait_through(WaitStepView::Ask(wait), replies) == decision(wait.job_id, replies[n])->0,
    decreases n,
{
    let rest = replies.skip(1);
    if n > 0 {
        assert(decision(wait.job_id, replies[0]) is None);
        let next = JobWait { attempt: (wait.attempt + 1) as u32, ..wait };
        assert(rest[n - 1] == replies[n]);
        assert forall|i: int| 0 <= i < n - 1 implies decision(wait.job_id, #[trigger] rest[i]) is None by {
            assert(rest[i] == replies[i + 1]);
        }
        lemma_wait_from(next, rest, n - 1);
    } else {
        let step = decision(wait.job_id, replies[0])->0;
        assert(wait.after_reply(replies[0]) == step);
        assert(wait_through(step, rest) == step);
    }
}

/// From the `attempt`-th question on, undecided replies up to the limit end in a time-out.
proof fn lemma_wait_out(wait: JobWait, replies: Seq<JsonView>)
    requires
        1 <= wait.attempt <= wait.max_attempts,
        wait.max_attempts - wait.attempt < replies.len(),
        undecided(wait.job_id, replies, wait.max_attempts - wait.attempt + 1),
    ensures
        wait_through(WaitStepView::Ask(wait), replies) == timed_out(wait.job_id, wait.max_attempts),
    decreases wait.max_attempts - wait.attempt,
{
    let rest = replies.skip(1);
    assert(decision(wait.job_id, replies[0]) is None);
    if wait.attempt < wait.max_attempts {
        let next = JobWait { attempt: (wait.attempt + 1) as u32, ..wait };
        assert forall|i: int| 0 <= i < wait.max_attempts - wait.attempt implies decision(
            wait.job_id,
            #[trigger] rest[i],
        ) is None by {
            assert(rest[i] == replies[i + 1]);
        }
        lemma_wait_out(next, rest);
    } else {
        let step = timed_out(wait.job_id, wait.max_attempts);
        assert(wait_through(step, rest) == step);
    }
}

/// The first reply that decides, within the allowed number of questions, is what waiting for a
/// job comes to; later replies do not matter.
pub proof fn law_first_decision_ends_the_wait(
    job_id: i64,
    max_attempts: u32,
    replies: Seq<JsonView>,
    n: int,
)
    requires
        0 <= n < replies.len(),
        n < max_attempts,
        undecided(job_id, replies, n),
        decision(job_id, replies[n]) is Some,
    ensures
        wait_through(first_step(job_id, max_attempts), replies) == decision(job_id, replies[n])->0,
{
    lemma_wait_from(JobWait { job_id, attempt: 1, max_attempts }, replies, n);
}

/// A job whose state was asked for the allowed number of times without a decision is given up.
pub proof fn law_undecided_wait_times_out(job_id: i64, max_attempts: u32, replies: Seq<JsonView>)
    requires
        max_attempts <= replies.len(),
        undecided(job_id, replies, max_attempts as int),
    ensures
        wait_through(first_step(job_id, max_attempts), replies) == timed_out(job_id, max_attempts),
{
    if max_attempts > 0 {
        lemma_wait_out(JobWait { job_id, attempt: 1, max_attempts }, replies);
    } else {
        assert(wait_through(timed_out(job_id, 0), replies) == timed_out(job_id, 0));
    }
}

/// From the `attempt`-th question on, fewer undecided replies than are allowed leave one question
/// open.
proof fn lemma_wait_on(wait: JobWait, replies: Seq<JsonView>)
    requires
        1 <= wait.attempt,
        wait.attempt + replies.len() <= wait.max_attempts,
        undecided(wait.job_id, replies, replies.len() as int),
    ensures
        wait_through(WaitStepView::Ask(wait), replies) == WaitStepView::Ask(
            JobWait { attempt: (wait.attempt + replies.len()) as u32, ..wait },
        ),
    decreases replies.len(),
{
    if replies.len() > 0 {
        let rest = replies.skip(1);
        assert(decision(wait.job_id, replies[0]) is None);
        assert forall|i: int| 0 <= i < rest.len() implies decision(
            wait.job_id,
            #[trigger] rest[i],
        ) is None by {
            assert(rest[i] == replies[i + 1]);
        }
        lemma_wait_on(JobWait { attempt: (wait.attempt + 1) as u32, ..wait }, rest);
    }
}

/// As long as nothing is decided and the allowed number of questions is not used up, the state of
/// the job is asked for once more.
pub proof fn law_undecided_wait_goes_on(job_id: i64, max_attempts: u32, replies: Seq<JsonView>)
    requires
        replies.len() < max_attempts,
        undecided(job_id, replies, replies.len() as int),
    ensures
        wait_through(first_step(job_id, max_attempts), replies) == WaitStepView::Ask(
            JobWait { job_id, attempt: (replies.len() + 1) as u32, max_attempts },
        ),
{
    lemma_wait_on(JobWait { job_id, attempt: 1, max_attempts }, replies);
}

/// Whether a reply without errors says that the job is in a state.
pub open spec fn says(reply: JsonView, state: Seq<char>) -> bool {
    &&& reply.get("errors"@) is None
    &&& reply.get("data"@) is Some
    &&& reply.get("data"@)->0.get("jobStatus"@) is Some
    &&& reply.get("data"@)->0.get("jobStatus"@)->0.get("state"@) == Some(JsonView::Text(state))
}

/// Whether a reply without errors says neither that the job has finished nor that it has failed.
pub open spec fn says_no_end(reply: JsonView) -> bool {
    &&& reply.get("errors"@) is None
    &&& !says(reply, "FINISHED"@)
    &&& !says(reply, "FAILED"@)
}

/// A reply that says no end decides nothing.
pub proof fn lemma_no_end(job_id: i64, reply: JsonView)
    requires
        says_no_end(reply),
    ensures
        decision(job_id, reply) is None,
{
    reveal_strlit("FINISHED");
    reveal_strlit("FAILED");
    reveal_strlit("UNKNOWN");
    assert("FINISHED"@.len() == 8 && "FAILED"@.len() == 6 && "UNKNOWN"@.len() == 7);
}

/// A job has ended exactly where a reply says that it has finished or failed, with the message of
/// that reply; any other reply without errors lets the wait go on, and errors end it.
pub proof fn law_end_is_what_the_reply_says(
    wait: JobWait,
    reply: JsonView,
    state: Seq<char>,
    errors: JsonView,
)
    ensures
        says(reply, state) && (state == "FINISHED"@ || state == "FAILED"@) ==> {
            &&& wait.after_reply(reply) is Ended
            &&& wait.after_reply(reply)->state == state
            &&& forall|text: Seq<char>|
                wait.after_reply(reply)->message == Some(text) <==> #[trigger] message_is(reply, text)
        },
        says_no_end(reply) ==> wait.after_reply(reply) == WaitStepView::Pause(wait),
        reply.get("errors"@) == Some(errors) ==> wait.after_reply(reply) == WaitStepView::Failed(
            FailureView::Errors {
                operation: Operation::JobStatus,
                subject: Subject::Job(wait.job_id),
                errors,
            },
        ),
{
    if says_no_end(reply) {
        lemma_no_end(wait.job_id, reply);
    }
}

/// Whether a reply holds a message on the job.
pub open spec fn message_is(reply: JsonView, text: Seq<char>) -> bool {
    &&& reply.get("data"@) is Some
    &&& reply.get("data"@)->0.get("jobStatus"@) is Some
    &&& reply.get("data"@)->0.get("jobStatus"@)->0.get("message"@) == Some(JsonView::Text(text))
}

/// The questions are counted from one, and after the last one allowed the job is given up.
pub proof fn law_questions_are_counted(job_id: i64, attempt: u32, max_attempts: u32)
    ensures
        max_attempts > 0 ==> first_step(job_id, max_attempts) == WaitStepView::Ask(
            JobWait { job_id, attempt: 1, max_attempts },
        ),
        max_attempts == 0 ==> first_step(job_id, max_attempts) == WaitStepView::Failed(
            FailureView::TimedOut { job_id, attempts: 0 },
        ),
        attempt < max_attempts ==> (JobWait { job_id, attempt, max_attempts }).after_pause()
            == WaitStepView::Ask(
            JobWait { job_id, attempt: (attempt + 1) as u32, max_attempts },
        ),
        attempt >= max_attempts ==> (JobWait { job_id, attempt, max_attempts }).after_pause()
            == WaitStepView::Failed(FailureView::TimedOut { job_id, attempts: max_attempts }),
{
}

/// A wait within its limit ends with the first reply that says that the job has ended, however many
/// replies said otherwise before.
pub proof fn law_wait_ends_with_the_job(
    job_id: i64,
    max_attempts: u32,
    replies: Seq<JsonView>,
    n: int,
    state: Seq<char>,
)
    requires
        0 <= n < replies.len(),
        n < max_attempts,
        forall|i: int| 0 <= i < n ==> says_no_end(#[trigger] replies[i]),
        says(replies[n], state),
        state == "FINISHED"@ || state == "FAILED"@,
    ensures
        wait_through(first_step(job_id, max_attempts), replies) is Ended,
        wait_through(first_step(job_id, max_attempts), replies)->state == state,
{
    assert forall|i: int| 0 <= i < n implies decision(job_id, #[trigger] replies[i]) is None by {
        lemma_no_end(job_id, replies[i]);
    }
    law_first_decision_ends_the_wait(job_id, max_attempts, replies, n);
}

/// A wait ends without the job exactly after the allowed number of replies that said no end.
pub proof fn law_wait_without_an_end_is_given_up(
    job_id: i64,
    max_attempts: u32,
    replies: Seq<JsonView>,
)
    requires
        forall|i: int| 0 <= i < replies.len() ==> says_no_end(#[trigger] replies[i]),
    ensures
        replies.len() >= max_attempts ==> wait_through(first_step(job_id, max_attempts), replies)
            == WaitStepView::Failed(FailureView::TimedOut { job_id, attempts: max_attempts }),
        replies.len() < max_attempts ==> wait_through(first_step(job_id, max_attempts), replies)
            == WaitStepView::Ask(
            JobWait { job_id, attempt: (replies.len() + 1) as u32, max_attempts },
        ),
{
    assert forall|i: int| 0 <= i < replies.len() implies decision(
        job_id,
        #[trigger] replies[i],
    ) is None by {
        lemma_no_end(job_id, replies[i]);
    }
    if replies.len() >= max_attempts {
        law_undecided_wait_times_out(job_id, max_attempts, replies);
    } else {
        law_undecided_wait_goes_on(job_id, max_attempts, replies);
    }
}

/// What is shown of a step of waiting is all that it holds.
pub proof fn law_wait_views_hide_nothing(step: WaitStep)
    ensures
        match step {
            WaitStep::Ask(wait) => step@ == WaitStepView::Ask(wait),
            WaitStep::Pause(wait) => step@ == WaitStepView::Pause(wait),
            WaitStep::Ended { state, message } => {
                &&& step@ is Ended
                &&& step@->state == state@
                &&& message is None <==> step@->message is None
                &&& message is Some ==> step@->message == Some(message->0@)
            },
            WaitStep::Failed(failure) => step@ == WaitStepView::Failed(failure@),
        },
{
}

} // verus!
