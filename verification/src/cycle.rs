//! The cycles of the backend: an optimisation, a weather forecast, a list of prices.
//!
//! A cycle says what is to be asked of the service, takes each reply, and says what comes next.

use crate::graphql::{job_outcome, save_model, set_optimization_timeline, start_job};
use crate::graphql::{
    optional_json, outcome_result, save_model_result, started_result, status_result,
    timeline_result,
};
use crate::graphql::{payload_view, request_payload, request_variables, variables_view};
use crate::graphql::{Failure, FailureView, JobKind, Operation};
use crate::job::{decision, first_step, undecided, JobWait, WaitStep, WaitStepView};
use crate::job::{lemma_no_end, message_is, says, says_no_end, POLL_INTERVAL_SECS};
use crate::json::{Json, JsonView, Number};
use crate::text::same_text;
use vstd::prelude::*;

verus! {

/// A question that is open in a cycle.
#[derive(Debug, Clone, Copy, PartialEq, Eq, Structural)]
pub enum Question {
    /// The time line of the next optimisation is to be set.
    Timeline,
    /// The model is to be saved.
    Save,
    /// The job is to be started.
    Start(JobKind),
    /// The state of the job is asked for.
    Status(JobKind, JobWait),
    /// The outcome of the job is asked for.
    Outcome(JobKind, i64),
}

/// A cycle that pauses before it asks again.
#[derive(Debug, Clone, Copy, PartialEq, Eq, Structural)]
pub struct Pause {
    pub kind: JobKind,
    pub wait: JobWait,
}

/// Where a cycle stands.
#[derive(Debug, PartialEq, Eq)]
pub enum Progress {
    /// A question is to be sent, and its reply to be handed back.
    Ask(Question),
    /// A pause is to be made.
    Rest(Pause),
    /// The cycle has come to its end, with the outcome of the job where that has the expected type.
    Done(Option<Json>),
    /// The cycle was broken off.
    Failed(Failure),
}

/// What a `Progress` says.
#[verifier::ext_equal]
pub enum ProgressView {
    Ask(Question),
    Rest(Pause),
    Done(Option<JsonView>),
    Failed(FailureView),
}

impl View for Progress {
    type V = ProgressView;

    open spec fn view(&self) -> ProgressView {
        match *self {
            Progress::Ask(question) => ProgressView::Ask(question),
            Progress::Rest(pause) => ProgressView::Rest(pause),
            Progress::Done(outcome) => ProgressView::Done(optional_json(outcome)),
            Progress::Failed(failure) => ProgressView::Failed(failure@),
        }
    }
}

/// What came back for a question: a reply, or a text that says how the request failed.
pub open spec fn answer_view(answer: Result<Json, String>) -> Result<JsonView, Seq<char>> {
    match answer {
        Ok(reply) => Ok(reply@),
        Err(text) => Err(text@),
    }
}

/// Where a cycle of the given kind begins.
///
/// Before an optimisation the time line is set and the model is saved.
pub open spec fn first_progress(kind: JobKind) -> ProgressView {
    match kind {
        JobKind::Optimization => ProgressView::Ask(Question::Timeline),
        _ => ProgressView::Ask(Question::Start(kind)),
    }
}

/// Where a cycle stands after a step of waiting for its job.
///
/// A job that has finished is asked for its outcome; one that ended in another state breaks the
/// cycle off.
pub open spec fn waiting(kind: JobKind, job_id: i64, step: WaitStepView) -> ProgressView {
    match step {
        WaitStepView::Ask(wait) => ProgressView::Ask(Question::Status(kind, wait)),
        WaitStepView::Pause(wait) => ProgressView::Rest(Pause { kind, wait }),
        WaitStepView::Ended { state, message } => if state == "FINISHED"@ {
            ProgressView::Ask(Question::Outcome(kind, job_id))
        } else {
            ProgressView::Failed(FailureView::JobEnded { kind, job_id, state, message })
        },
        WaitStepView::Failed(failure) => ProgressView::Failed(failure),
    }
}

impl Question {
    /// The operation that asks the question.
    pub open spec fn asks(self) -> Operation {
        match self {
            Question::Timeline => Operation::SetOptimizationTimeline,
            Question::Save => Operation::SaveModel,
            Question::Start(kind) => kind.start(),
            Question::Status(_, _) => Operation::JobStatus,
            Question::Outcome(_, _) => Operation::GetJobOutcome,
        }
    }

    /// The job that the question speaks of.
    pub open spec fn job(self) -> Option<i64> {
        match self {
            Question::Status(_, wait) => Some(wait.job_id),
            Question::Outcome(_, job_id) => Some(job_id),
            _ => None,
        }
    }

    /// The body of the request that asks the question.
    pub open spec fn body(self, document: Seq<char>) -> JsonView {
        payload_view(document, Some(self.asks().title()), variables_view(self.job()))
    }

    /// Where the cycle stands after a reply.
    pub open spec fn after(self, reply: JsonView) -> ProgressView {
        match self {
            Question::Timeline => match timeline_result(reply) {
                Ok(_) => ProgressView::Ask(Question::Save),
                Err(failure) => ProgressView::Failed(failure),
            },
            Question::Save => match save_model_result(reply) {
                Ok(_) => ProgressView::Ask(Question::Start(JobKind::Optimization)),
                Err(failure) => ProgressView::Failed(failure),
            },
            Question::Start(kind) => match started_result(kind, reply) {
                Ok(job_id) => waiting(kind, job_id, first_step(job_id, kind.attempts())),
                Err(failure) => ProgressView::Failed(failure),
            },
            Question::Status(kind, wait) => waiting(kind, wait.job_id, wait.after_reply(reply)),
            Question::Outcome(kind, job_id) => match outcome_result(kind, job_id, reply) {
                Ok(outcome) => ProgressView::Done(outcome),
                Err(failure) => ProgressView::Failed(failure),
            },
        }
    }

    /// Where the cycle stands after what came back, be it a reply or not.
    pub open spec fn answered(self, answer: Result<JsonView, Seq<char>>) -> ProgressView {
        match answer {
            Ok(reply) => self.after(reply),
            Err(text) => ProgressView::Failed(FailureView::Transport(text)),
        }
    }

    /// The operation that asks the question.
    pub fn operation(&self) -> (r: Operation)
        ensures
            r == self.asks(),
    {
        match *self {
            Question::Timeline => Operation::SetOptimizationTimeline,
            Question::Save => Operation::SaveModel,
            Question::Start(kind) => kind.start_operation(),
            Question::Status(_, _) => Operation::JobStatus,
            Question::Outcome(_, _) => Operation::GetJobOutcome,
        }
    }

    /// The job that the question speaks of.
    pub fn job_id(&self) -> (r: Option<i64>)
        ensures
            r == self.job(),
    {
        match *self {
            Question::Status(_, wait) => Some(wait.job_id),
            Question::Outcome(_, job_id) => Some(job_id),
            _ => None,
        }
    }

    /// The body of the request that asks the question, with the document that holds the operations.
    pub fn request(&self, document: &str) -> (r: Json)
        ensures
            r@ == payload_view(document@, Some(self.asks().title()), variables_view(self.job())),
            r@ == self.body(document@),
    {
        request_payload(
            document,
            Some(self.operation().name()),
            request_variables(self.job_id()),
        )
    }

    /// Takes what came back for the question.
    pub fn answer(self, answer: Result<Json, String>) -> (r: Progress)
        ensures
            r@ == self.answered(answer_view(answer)),
    {
        let reply = match answer {
            Ok(reply) => reply,
            Err(text) => {
                return Progress::Failed(Failure::Transport(text));
            },
        };
        match self {
            Question::Timeline => match set_optimization_timeline(&reply) {
                Ok(_) => Progress::Ask(Question::Save),
                Err(failure) => Progress::Failed(failure),
            },
            Question::Save => match save_model(&reply) {
                Ok(_) => Progress::Ask(Question::Start(JobKind::Optimization)),
                Err(failure) => Progress::Failed(failure),
            },
            Question::Start(kind) => match start_job(kind, &reply) {
                Ok(job_id) => go_on(kind, job_id, JobWait::begin(job_id, kind.max_attempts())),
                Err(failure) => Progress::Failed(failure),
            },
            Question::Status(kind, wait) => go_on(kind, wait.job_id, wait.on_reply(&reply)),
            Question::Outcome(kind, job_id) => match job_outcome(kind, job_id, &reply) {
                Ok(outcome) => Progress::Done(outcome),
                Err(failure) => Progress::Failed(failure),
            },
        }
    }
}

impl Pause {
    /// Where the cycle stands after the pause.
    pub open spec fn over(self) -> ProgressView {
        waiting(self.kind, self.wait.job_id, self.wait.after_pause())
    }

    /// Goes on after the pause.
    pub fn resume(self) -> (r: Progress)
        ensures
            r@ == self.over(),
    {
        go_on(self.kind, self.wait.job_id, self.wait.on_pause())
    }
}

/// Goes on after a step of waiting for the job.
fn go_on(kind: JobKind, job_id: i64, step: WaitStep) -> (r: Progress)
    ensures
        r@ == waiting(kind, job_id, step@),
{
    match step {
        WaitStep::Ask(wait) => Progress::Ask(Question::Status(kind, wait)),
        WaitStep::Pause(wait) => Progress::Rest(Pause { kind, wait }),
        WaitStep::Ended { state, message } => {
            if same_text(state.as_str(), "FINISHED") {
                Progress::Ask(Question::Outcome(kind, job_id))
            } else {
                Progress::Failed(Failure::JobEnded { kind, job_id, state, message })
            }
        },
        WaitStep::Failed(failure) => Progress::Failed(failure),
    }
}

/// Begins a cycle of the given kind.
pub fn begin_cycle(kind: JobKind) -> (r: Progress)
    ensures
        r@ == first_progress(kind),
{
    match kind {
        JobKind::Optimization => Progress::Ask(Question::Timeline),
        _ => Progress::Ask(Question::Start(kind)),
    }
}

/// A cycle with what came back for its questions, one by one, as far as that goes.
pub open spec fn run(
    progress: ProgressView,
    answers: Seq<Result<JsonView, Seq<char>>>,
) -> ProgressView
    decreases answers.len(), (if progress is Rest { 1nat } else { 0nat }),
{
    match progress {
        ProgressView::Ask(question) => if answers.len() == 0 {
            progress
        } else {
            run(question.answered(answers[0]), answers.skip(1))
        },
        ProgressView::Rest(pause) => run(pause.over(), answers),
        _ => progress,
    }
}

/// Replies that all arrived.
pub open spec fn arrived(replies: Seq<JsonView>) -> Seq<Result<JsonView, Seq<char>>> {
    replies.map_values(|reply: JsonView| Ok::<JsonView, Seq<char>>(reply))
}

/// Whether a cycle has come to its end or was broken off.
pub open spec fn is_over(progress: ProgressView) -> bool {
    progress is Done || progress is Failed
}

/// The number of questions in a cycle, at most: those before the job, those for its state, and the
/// one for its outcome.
pub open spec fn question_limit(kind: JobKind) -> nat {
    match kind {
        JobKind::Optimization => (3 + kind.attempts() + 1) as nat,
        _ => (1 + kind.attempts() + 1) as nat,
    }
}

/// The number of questions that a cycle can still ask.
spec fn questions_left(progress: ProgressView) -> int {
    match progress {
        ProgressView::Ask(Question::Timeline) => question_limit(JobKind::Optimization) as int,
        ProgressView::Ask(Question::Save) => question_limit(JobKind::Optimization) - 1,
        ProgressView::Ask(Question::Start(kind)) => kind.attempts() + 2,
        ProgressView::Ask(Question::Status(_, wait)) => wait.max_attempts - wait.attempt + 2,
        ProgressView::Ask(Question::Outcome(_, _)) => 1,
        ProgressView::Rest(pause) => pause.wait.max_attempts - pause.wait.attempt + 1,
        _ => 0,
    }
}

/// Whether the wait of a cycle is within its limit.
spec fn within_limit(progress: ProgressView) -> bool {
    match progress {
        ProgressView::Ask(Question::Status(_, wait)) => 1 <= wait.attempt <= wait.max_attempts,
        ProgressView::Rest(pause) => 1 <= pause.wait.attempt <= pause.wait.max_attempts,
        _ => true,
    }
}

/// Every answer brings a cycle nearer to its end.
proof fn lemma_run_ends(progress: ProgressView, answers: Seq<Result<JsonView, Seq<char>>>)
    requires
        within_limit(progress),
        questions_left(progress) <= answers.len(),
    ensures
        is_over(run(progress, answers)),
    decreases answers.len(), (if progress is Rest { 1nat } else { 0nat }),
{
    match progress {
        ProgressView::Ask(question) => {
            let next = question.answered(answers[0]);
            assert(within_limit(next));
            assert(questions_left(next) < questions_left(progress));
            lemma_run_ends(next, answers.skip(1));
        },
        ProgressView::Rest(pause) => {
            lemma_run_ends(pause.over(), answers);
        },
        _ => {},
    }
}

/// Whatever comes back, a cycle is over after as many answers as it has questions at most.
pub proof fn law_every_cycle_ends(kind: JobKind, answers: Seq<Result<JsonView, Seq<char>>>)
    requires
        question_limit(kind) <= answers.len(),
    ensures
        is_over(run(first_progress(kind), answers)),
{
    lemma_run_ends(first_progress(kind), answers);
}

/// No optimisation is started unless the time line was set and the model was saved: a failure of
/// either breaks the cycle off, whatever else would have come back.
pub proof fn law_optimization_needs_timeline_and_model(
    answers: Seq<Result<JsonView, Seq<char>>>,
)
    requires
        answers.len() >= 2,
    ensures
        ({
            let end = run(first_progress(JobKind::Optimization), answers);
            match answers[0] {
                Err(text) => end == ProgressView::Failed(FailureView::Transport(text)),
                Ok(timeline) => match timeline_result(timeline) {
                    Err(failure) => end == ProgressView::Failed(failure),
                    Ok(_) => match answers[1] {
                        Err(text) => end == ProgressView::Failed(FailureView::Transport(text)),
                        Ok(model) => match save_model_result(model) {
                            Err(failure) => end == ProgressView::Failed(failure),
                            Ok(_) => end == run(
                                ProgressView::Ask(Question::Start(JobKind::Optimization)),
                                answers.skip(2),
                            ),
                        },
                    },
                },
            }
        }),
{
    let first = ProgressView::Ask(Question::Timeline);
    let second = Question::Timeline.answered(answers[0]);
    let third = Question::Save.answered(answers[1]);
    assert(run(first, answers) == run(second, answers.skip(1)));
    assert(answers.skip(1)[0] == answers[1]);
    assert(answers.skip(1).skip(1) =~= answers.skip(2));
    if second is Ask {
        assert(run(second, answers.skip(1)) == run(third, answers.skip(2)));
    }
}

/// The questions for the state of a job lead to what its first decisive reply says.
proof fn lemma_status_run(
    kind: JobKind,
    wait: JobWait,
    statuses: Seq<JsonView>,
    rest: Seq<Result<JsonView, Seq<char>>>,
)
    requires
        1 <= wait.attempt,
        statuses.len() >= 1,
        wait.attempt + statuses.len() - 1 <= wait.max_attempts,
        undecided(wait.job_id, statuses, statuses.len() - 1),
        decision(wait.job_id, statuses.last()) is Some,
    ensures
        run(ProgressView::Ask(Question::Status(kind, wait)), arrived(statuses) + rest) == run(
            waiting(kind, wait.job_id, decision(wait.job_id, statuses.last())->0),
            rest,
        ),
    decreases statuses.len(),
{
    let answers = arrived(statuses) + rest;
    assert(answers[0] == Ok::<JsonView, Seq<char>>(statuses[0]));
    let later = statuses.skip(1);
    assert(answers.skip(1) =~= arrived(later) + rest);
    if statuses.len() == 1 {
        assert(arrived(later) + rest =~= rest);
    } else {
        assert(decision(wait.job_id, statuses[0]) is None);
        let next = JobWait { attempt: (wait.attempt + 1) as u32, ..wait };
        let pause = Pause { kind, wait };
        assert forall|i: int| 0 <= i < later.len() - 1 implies decision(
            wait.job_id,
            #[trigger] later[i],
        ) is None by {
            assert(later[i] == statuses[i + 1]);
        }
        assert(later.last() == statuses.last());
        lemma_status_run(kind, next, later, rest);
        assert(Question::Status(kind, wait).answered(answers[0]) == ProgressView::Rest(pause));
        assert(pause.over() == ProgressView::Ask(Question::Status(kind, next)));
        assert(run(ProgressView::Rest(pause), answers.skip(1)) == run(
            pause.over(),
            answers.skip(1),
        ));
    }
}

/// The first reply that decides, within the allowed number of questions, decides how the cycle of a
/// started job goes on.
pub proof fn law_first_decision_decides_the_cycle(
    kind: JobKind,
    job_id: i64,
    started: JsonView,
    statuses: Seq<JsonView>,
    rest: Seq<Result<JsonView, Seq<char>>>,
)
    requires
        started_result(kind, started) == Ok::<i64, FailureView>(job_id),
        1 <= statuses.len() <= kind.attempts(),
        undecided(job_id, statuses, statuses.len() - 1),
        decision(job_id, statuses.last()) is Some,
    ensures
        run(
            ProgressView::Ask(Question::Start(kind)),
            arrived(seq![started] + statuses) + rest,
        ) == run(waiting(kind, job_id, decision(job_id, statuses.last())->0), rest),
{
    let answers = arrived(seq![started] + statuses) + rest;
    let wait = JobWait { job_id, attempt: 1, max_attempts: kind.attempts() };
    assert(answers[0] == Ok::<JsonView, Seq<char>>(started));
    assert(answers.skip(1) =~= arrived(statuses) + rest);
    lemma_status_run(kind, wait, statuses, rest);
}

/// A job that was started and reported as finished, within the allowed number of questions, is
/// asked for its outcome, and the cycle ends with what that reply says.
pub proof fn law_finished_job_yields_its_outcome(
    kind: JobKind,
    job_id: i64,
    started: JsonView,
    statuses: Seq<JsonView>,
    last: JsonView,
)
    requires
        started_result(kind, started) == Ok::<i64, FailureView>(job_id),
        1 <= statuses.len() <= kind.attempts(),
        undecided(job_id, statuses, statuses.len() - 1),
        status_result(job_id, statuses.last()) is Ok,
        status_result(job_id, statuses.last())->Ok_0.state == "FINISHED"@,
    ensures
        run(
            ProgressView::Ask(Question::Start(kind)),
            arrived(seq![started] + statuses + seq![last]),
        ) == (match outcome_result(kind, job_id, last) {
            Ok(outcome) => ProgressView::Done(outcome),
            Err(failure) => ProgressView::Failed(failure),
        }),
{
    let rest = arrived(seq![last]);
    assert(arrived(seq![started] + statuses + seq![last]) =~= arrived(seq![started] + statuses)
        + rest);
    law_first_decision_decides_the_cycle(kind, job_id, started, statuses, rest);
    let asked = ProgressView::Ask(Question::Outcome(kind, job_id));
    assert(rest[0] == Ok::<JsonView, Seq<char>>(last));
    assert(run(asked, rest) == run(Question::Outcome(kind, job_id).after(last), rest.skip(1)));
}

/// A job that ended in another state than finished breaks its cycle off, whatever else would have
/// come back.
pub proof fn law_failed_job_breaks_its_cycle_off(
    kind: JobKind,
    job_id: i64,
    started: JsonView,
    statuses: Seq<JsonView>,
    rest: Seq<Result<JsonView, Seq<char>>>,
)
    requires
        started_result(kind, started) == Ok::<i64, FailureView>(job_id),
        1 <= statuses.len() <= kind.attempts(),
        undecided(job_id, statuses, statuses.len() - 1),
        status_result(job_id, statuses.last()) is Ok,
        status_result(job_id, statuses.last())->Ok_0.state == "FAILED"@,
    ensures
        run(
            ProgressView::Ask(Question::Start(kind)),
            arrived(seq![started] + statuses) + rest,
        ) == ProgressView::Failed(
            FailureView::JobEnded {
                kind,
                job_id,
                state: "FAILED"@,
                message: status_result(job_id, statuses.last())->Ok_0.message,
            },
        ),
{
    law_first_decision_decides_the_cycle(kind, job_id, started, statuses, rest);
    reveal_strlit("FINISHED");
    reveal_strlit("FAILED");
    assert("FINISHED"@.len() != "FAILED"@.len());
}

/// The questions for the state of a job that never ends lead to a time-out.
proof fn lemma_status_run_out(
    kind: JobKind,
    wait: JobWait,
    statuses: Seq<JsonView>,
    rest: Seq<Result<JsonView, Seq<char>>>,
)
    requires
        1 <= wait.attempt <= wait.max_attempts,
        statuses.len() == wait.max_attempts - wait.attempt + 1,
        undecided(wait.job_id, statuses, statuses.len() as int),
    ensures
        run(ProgressView::Ask(Question::Status(kind, wait)), arrived(statuses) + rest)
            == ProgressView::Failed(
            FailureView::TimedOut { job_id: wait.job_id, attempts: wait.max_attempts },
        ),
    decreases statuses.len(),
{
    let answers = arrived(statuses) + rest;
    let later = statuses.skip(1);
    let pause = Pause { kind, wait };
    assert(answers[0] == Ok::<JsonView, Seq<char>>(statuses[0]));
    assert(answers.skip(1) =~= arrived(later) + rest);
    assert(decision(wait.job_id, statuses[0]) is None);
    assert(Question::Status(kind, wait).answered(answers[0]) == ProgressView::Rest(pause));
    assert(run(ProgressView::Rest(pause), answers.skip(1)) == run(pause.over(), answers.skip(1)));
    if wait.attempt < wait.max_attempts {
        let next = JobWait { attempt: (wait.attempt + 1) as u32, ..wait };
        assert forall|i: int| 0 <= i < later.len() implies decision(
            wait.job_id,
            #[trigger] later[i],
        ) is None by {
            assert(later[i] == statuses[i + 1]);
        }
        lemma_status_run_out(kind, next, later, rest);
        assert(pause.over() == ProgressView::Ask(Question::Status(kind, next)));
    }
}

/// A job that was started and did not end within the allowed number of questions breaks its cycle
/// off with a time-out, whatever else would have come back.
pub proof fn law_endless_job_times_out(
    kind: JobKind,
    job_id: i64,
    started: JsonView,
    statuses: Seq<JsonView>,
    rest: Seq<Result<JsonView, Seq<char>>>,
)
    requires
        started_result(kind, started) == Ok::<i64, FailureView>(job_id),
        statuses.len() == kind.attempts(),
        undecided(job_id, statuses, statuses.len() as int),
    ensures
        run(
            ProgressView::Ask(Question::Start(kind)),
            arrived(seq![started] + statuses) + rest,
        ) == ProgressView::Failed(FailureView::TimedOut { job_id, attempts: kind.attempts() }),
{
    let answers = arrived(seq![started] + statuses) + rest;
    let wait = JobWait { job_id, attempt: 1, max_attempts: kind.attempts() };
    assert(answers[0] == Ok::<JsonView, Seq<char>>(started));
    assert(answers.skip(1) =~= arrived(statuses) + rest);
    lemma_status_run_out(kind, wait, statuses, rest);
}

/// A request that fails breaks its cycle off, whatever else would have come back.
pub proof fn law_failed_request_breaks_its_cycle_off(
    question: Question,
    text: Seq<char>,
    rest: Seq<Result<JsonView, Seq<char>>>,
)
    ensures
        run(
            ProgressView::Ask(question),
            seq![Err::<JsonView, Seq<char>>(text)] + rest,
        ) == ProgressView::Failed(FailureView::Transport(text)),
{
    let answers = seq![Err::<JsonView, Seq<char>>(text)] + rest;
    assert(run(ProgressView::Ask(question), answers) == run(
        question.answered(answers[0]),
        answers.skip(1),
    ));
}

/// Whether a reply without errors says that the time line was set: it lists no validation error.
pub open spec fn sets_time_line(reply: JsonView) -> bool {
    &&& reply.get("errors"@) is None
    &&& reply.get("data"@) is Some
    &&& reply.get("data"@)->0.get("updateTimeLine"@) is Some
    &&& reply.get("data"@)->0.get("updateTimeLine"@)->0.get("errors"@) == Some(
        JsonView::List(seq![]),
    )
}

/// Whether a reply without errors says that the model was saved: it holds no message.
pub open spec fn saves_model(reply: JsonView) -> bool {
    &&& reply.get("errors"@) is None
    &&& forall|text: Seq<char>| !#[trigger] refuses_model(reply, text)
}

/// Whether a reply holds a message on why the model was not saved.
pub open spec fn refuses_model(reply: JsonView, text: Seq<char>) -> bool {
    &&& reply.get("data"@) is Some
    &&& reply.get("data"@)->0.get("saveModel"@) is Some
    &&& reply.get("data"@)->0.get("saveModel"@)->0.get("message"@) == Some(JsonView::Text(text))
}

/// Whether a reply without errors holds the number of the job that was started.
pub open spec fn starts_job(kind: JobKind, reply: JsonView, job_id: i64) -> bool {
    let number = reply.get("data"@)->0.get(
        match kind {
            JobKind::Optimization => "startOptimization"@,
            JobKind::Weather => "startWeatherForecastFetch"@,
            JobKind::Price => "startElectricityPriceFetch"@,
        },
    );
    &&& reply.get("errors"@) is None
    &&& reply.get("data"@) is Some
    &&& number == Some(JsonView::Number(Number::NegInt(job_id))) || (job_id >= 0 && number == Some(
        JsonView::Number(Number::PosInt(job_id as u64)),
    ))
}

/// Whether a reply without errors holds an outcome.
pub open spec fn holds_outcome(reply: JsonView, outcome: JsonView) -> bool {
    &&& reply.get("errors"@) is None
    &&& reply.get("data"@) is Some
    &&& reply.get("data"@)->0.get("jobOutcome"@) == Some(outcome)
}

/// Whether an outcome bears the type that a job of the kind is to yield.
pub open spec fn bears_type(kind: JobKind, outcome: JsonView) -> bool {
    outcome.get("__typename"@) == Some(
        JsonView::Text(
            match kind {
                JobKind::Optimization => "OptimizationOutcome"@,
                JobKind::Weather => "WeatherForecastOutcome"@,
                JobKind::Price => "ElectricityPriceOutcome"@,
            },
        ),
    )
}

/// The questions of a cycle in their order, each after the reply that lets the cycle go on: the time
/// line and the model only before an optimisation, then the start, the state of the job again and
/// again, and its outcome.
pub proof fn law_questions_come_in_order(
    kind: JobKind,
    job_id: i64,
    wait: JobWait,
    reply: JsonView,
    outcome: JsonView,
)
    ensures
        first_progress(JobKind::Optimization) == ProgressView::Ask(Question::Timeline),
        first_progress(JobKind::Weather) == ProgressView::Ask(Question::Start(JobKind::Weather)),
        first_progress(JobKind::Price) == ProgressView::Ask(Question::Start(JobKind::Price)),
        sets_time_line(reply) ==> Question::Timeline.answered(Ok(reply)) == ProgressView::Ask(
            Question::Save,
        ),
        !sets_time_line(reply) ==> Question::Timeline.answered(Ok(reply)) is Failed,
        saves_model(reply) ==> Question::Save.answered(Ok(reply)) == ProgressView::Ask(
            Question::Start(JobKind::Optimization),
        ),
        !saves_model(reply) ==> Question::Save.answered(Ok(reply)) is Failed,
        starts_job(kind, reply, job_id) ==> Question::Start(kind).answered(Ok(reply))
            == ProgressView::Ask(
            Question::Status(
                kind,
                JobWait { job_id, attempt: 1, max_attempts: (if kind == JobKind::Optimization {
            1800u32
        } else {
            300u32
        }) },
            ),
        ),
        says_no_end(reply) ==> Question::Status(kind, wait).answered(Ok(reply))
            == ProgressView::Rest(Pause { kind, wait }),
        says(reply, "FINISHED"@) ==> Question::Status(kind, wait).answered(Ok(reply))
            == ProgressView::Ask(Question::Outcome(kind, wait.job_id)),
        says(reply, "FAILED"@) ==> {
            let end = Question::Status(kind, wait).answered(Ok(reply));
            &&& end is Failed
            &&& end->Failed_0 is JobEnded
            &&& end->Failed_0->JobEnded_kind == kind
            &&& end->Failed_0->JobEnded_job_id == wait.job_id
            &&& end->Failed_0->JobEnded_state == "FAILED"@
            &&& forall|text: Seq<char>|
                end->Failed_0->JobEnded_message == Some(text) <==> #[trigger] message_is(
                    reply,
                    text,
                )
        },
        wait.attempt < wait.max_attempts ==> (Pause { kind, wait }).over() == ProgressView::Ask(
            Question::Status(kind, JobWait { attempt: (wait.attempt + 1) as u32, ..wait }),
        ),
        wait.attempt >= wait.max_attempts ==> (Pause { kind, wait }).over()
            == ProgressView::Failed(
            FailureView::TimedOut { job_id: wait.job_id, attempts: wait.max_attempts },
        ),
        holds_outcome(reply, outcome) && bears_type(kind, outcome) ==> Question::Outcome(
            kind,
            job_id,
        ).answered(Ok(reply)) == ProgressView::Done(Some(outcome)),
        holds_outcome(reply, outcome) && !bears_type(kind, outcome) ==> Question::Outcome(
            kind,
            job_id,
        ).answered(Ok(reply)) == ProgressView::Done(None),
{
    reveal_strlit("FINISHED");
    reveal_strlit("FAILED");
    assert("FINISHED"@.len() != "FAILED"@.len());
    if says_no_end(reply) {
        lemma_no_end(wait.job_id, reply);
    }
    if !saves_model(reply) && reply.get("errors"@) is None {
        let text = choose|text: Seq<char>| #[trigger] refuses_model(reply, text);
        assert(refuses_model(reply, text));
    }
    if saves_model(reply) && save_model_result(reply) is Err {
        assert(refuses_model(reply, save_model_result(reply)->Err_0->ModelNotSaved_0));
    }
    if reply.get("errors"@) is None && timeline_result(reply) is Ok {
        let found = reply.get("data"@)->0.get("updateTimeLine"@)->0.get("errors"@)->0;
        assert(found->List_0 =~= seq![]);
        assert(sets_time_line(reply));
    }
}

/// A question that cannot be answered as it is meant breaks the cycle off with the failure that says
/// so.
pub proof fn law_bad_replies_break_the_cycle_off(
    question: Question,
    kind: JobKind,
    job_id: i64,
    reply: JsonView,
    text: Seq<char>,
)
    ensures
        reply.get("errors"@) is Some ==> {
            let end = question.answered(Ok(reply));
            &&& end is Failed
            &&& end->Failed_0 is Errors
            &&& end->Failed_0->Errors_operation == question.asks()
            &&& end->Failed_0->Errors_errors == reply.get("errors"@)->0
        },
        reply.get("errors"@) is None && refuses_model(reply, text) ==> Question::Save.answered(
            Ok(reply),
        ) == ProgressView::Failed(FailureView::ModelNotSaved(text)),
        reply.get("errors"@) is None && (forall|id: i64| !#[trigger] starts_job(kind, reply, id))
            ==> Question::Start(kind).answered(Ok(reply)) == ProgressView::Failed(
            FailureView::NoJob(kind),
        ),
        reply.get("errors"@) is None && (forall|outcome: JsonView|
            !#[trigger] holds_outcome(reply, outcome)) ==> Question::Outcome(kind, job_id).answered(
            Ok(reply),
        ) == ProgressView::Failed(FailureView::OutcomeMissing),
        question.answered(Err(text)) == ProgressView::Failed(FailureView::Transport(text)),
{
    if started_result(kind, reply) is Ok {
        assert(starts_job(kind, reply, started_result(kind, reply)->Ok_0));
    }
    if reply.get("data"@) is Some && reply.get("data"@)->0.get("jobOutcome"@) is Some
        && reply.get("errors"@) is None {
        assert(holds_outcome(reply, reply.get("data"@)->0.get("jobOutcome"@)->0));
    }
}

/// Whether the replies to the questions for the state of a job lead to its end within the limit.
pub open spec fn reach_end(kind: JobKind, statuses: Seq<JsonView>, state: Seq<char>) -> bool {
    &&& 1 <= statuses.len() <= (if kind == JobKind::Optimization {
            1800u32
        } else {
            300u32
        })
    &&& forall|i: int| 0 <= i < statuses.len() - 1 ==> says_no_end(#[trigger] statuses[i])
    &&& says(statuses.last(), state)
}

/// Replies that say no end decide nothing.
proof fn lemma_no_end_decides_nothing(job_id: i64, statuses: Seq<JsonView>, n: int)
    requires
        0 <= n <= statuses.len(),
        forall|i: int| 0 <= i < n ==> says_no_end(#[trigger] statuses[i]),
    ensures
        undecided(job_id, statuses, n),
{
    assert forall|i: int| 0 <= i < n implies decision(job_id, #[trigger] statuses[i]) is None by {
        lemma_no_end(job_id, statuses[i]);
    }
}

/// A job that was started and is said to have finished, within 1800 questions for an optimisation and
/// 300 for a forecast, ends its cycle with the outcome that the last reply holds, where that bears
/// the type of the kind, and without one where it does not.
pub proof fn law_finished_job_brings_its_outcome(
    kind: JobKind,
    job_id: i64,
    started: JsonView,
    statuses: Seq<JsonView>,
    last: JsonView,
    outcome: JsonView,
)
    requires
        starts_job(kind, started, job_id),
        reach_end(kind, statuses, "FINISHED"@),
        holds_outcome(last, outcome),
    ensures
        run(
            ProgressView::Ask(Question::Start(kind)),
            arrived(seq![started] + statuses + seq![last]),
        ) == ProgressView::Done(
            if bears_type(kind, outcome) {
                Some(outcome)
            } else {
                None
            },
        ),
{
    lemma_no_end_decides_nothing(job_id, statuses, statuses.len() - 1);
    law_finished_job_yields_its_outcome(kind, job_id, started, statuses, last);
}

/// An optimisation sets its time line, saves its model, starts its job and waits for it; where all of
/// that succeeds, it ends with the outcome of the job.
pub proof fn law_optimization_brings_its_outcome(
    timeline: JsonView,
    model: JsonView,
    job_id: i64,
    started: JsonView,
    statuses: Seq<JsonView>,
    last: JsonView,
    outcome: JsonView,
)
    requires
        sets_time_line(timeline),
        saves_model(model),
        starts_job(JobKind::Optimization, started, job_id),
        reach_end(JobKind::Optimization, statuses, "FINISHED"@),
        holds_outcome(last, outcome),
        bears_type(JobKind::Optimization, outcome),
    ensures
        run(
            first_progress(JobKind::Optimization),
            arrived(seq![timeline, model, started] + statuses + seq![last]),
        ) == ProgressView::Done(Some(outcome)),
{
    let answers = arrived(seq![timeline, model, started] + statuses + seq![last]);
    let kind = JobKind::Optimization;
    let wait = JobWait { job_id, attempt: 1, max_attempts: 1800 };
    law_questions_come_in_order(kind, job_id, wait, timeline, outcome);
    law_questions_come_in_order(kind, job_id, wait, model, outcome);
    law_optimization_needs_timeline_and_model(answers);
    assert(answers[0] == Ok::<JsonView, Seq<char>>(timeline));
    assert(answers[1] == Ok::<JsonView, Seq<char>>(model));
    assert(answers.skip(2) =~= arrived(seq![started] + statuses + seq![last]));
    law_finished_job_brings_its_outcome(kind, job_id, started, statuses, last, outcome);
}

/// A job that was started and is said to have failed within the limit breaks its cycle off, whatever
/// else would have come back.
pub proof fn law_job_said_to_have_failed_breaks_its_cycle_off(
    kind: JobKind,
    job_id: i64,
    started: JsonView,
    statuses: Seq<JsonView>,
    rest: Seq<Result<JsonView, Seq<char>>>,
)
    requires
        starts_job(kind, started, job_id),
        reach_end(kind, statuses, "FAILED"@),
    ensures
        ({
            let end = run(
                ProgressView::Ask(Question::Start(kind)),
                arrived(seq![started] + statuses) + rest,
            );
            &&& end is Failed
            &&& end->Failed_0 is JobEnded
            &&& end->Failed_0->JobEnded_kind == kind
            &&& end->Failed_0->JobEnded_job_id == job_id
            &&& end->Failed_0->JobEnded_state == "FAILED"@
        }),
{
    lemma_no_end_decides_nothing(job_id, statuses, statuses.len() - 1);
    law_failed_job_breaks_its_cycle_off(kind, job_id, started, statuses, rest);
}

/// A job that is never said to have ended is given up after 1800 questions for an optimisation and
/// 300 for a forecast, which is an hour and ten minutes of pauses.
pub proof fn law_job_without_an_end_is_given_up(
    kind: JobKind,
    job_id: i64,
    started: JsonView,
    statuses: Seq<JsonView>,
    rest: Seq<Result<JsonView, Seq<char>>>,
)
    requires
        starts_job(kind, started, job_id),
        statuses.len() == (if kind == JobKind::Optimization {
            1800u32
        } else {
            300u32
        }),
        forall|i: int| 0 <= i < statuses.len() ==> says_no_end(#[trigger] statuses[i]),
    ensures
        run(
            ProgressView::Ask(Question::Start(kind)),
            arrived(seq![started] + statuses) + rest,
        ) == ProgressView::Failed(
            FailureView::TimedOut { job_id, attempts: (if kind == JobKind::Optimization {
            1800u32
        } else {
            300u32
        }) },
        ),
        statuses.len() * POLL_INTERVAL_SECS == (if kind == JobKind::Optimization {
            60 * 60int
        } else {
            10 * 60int
        }),
{
    lemma_no_end_decides_nothing(job_id, statuses, statuses.len() as int);
    law_endless_job_times_out(kind, job_id, started, statuses, rest);
}

/// The request of each question names its operation, and the job where it speaks of one.
pub proof fn law_requests_ask_the_questions(
    document: Seq<char>,
    question: Question,
    job_id: i64,
    wait: JobWait,
    kind: JobKind,
)
    ensures
        question == Question::Timeline ==> question.asks().title() == "SetOptimizationTimeline"@
            && question.job() is None,
        question == Question::Save ==> question.asks().title() == "SaveModel"@
            && question.job() is None,
        question == Question::Start(JobKind::Optimization) ==> question.asks().title()
            == "StartOptimization"@ && question.job() is None,
        question == Question::Start(JobKind::Weather) ==> question.asks().title()
            == "StartWeatherForecastFetch"@ && question.job() is None,
        question == Question::Start(JobKind::Price) ==> question.asks().title()
            == "StartElectricityPriceFetch"@ && question.job() is None,
        question == Question::Status(kind, wait) ==> question.asks().title() == "JobStatus"@
            && question.job() == Some(wait.job_id),
        question == Question::Outcome(kind, job_id) ==> question.asks().title()
            == "GetJobOutcome"@ && question.job() == Some(job_id),
{
}

/// What is shown of a cycle or of an answer is all that it holds.
pub proof fn law_progress_views_hide_nothing(
    progress: Progress,
    answer: Result<Json, String>,
)
    ensures
        match progress {
            Progress::Ask(question) => progress@ == ProgressView::Ask(question),
            Progress::Rest(pause) => progress@ == ProgressView::Rest(pause),
            Progress::Done(Some(outcome)) => progress@ == ProgressView::Done(Some(outcome@)),
            Progress::Done(None) => progress@ == ProgressView::Done(None),
            Progress::Failed(failure) => progress@ == ProgressView::Failed(failure@),
        },
        match answer {
            Ok(reply) => answer_view(answer) == Ok::<_, Seq<char>>(reply@),
            Err(text) => answer_view(answer) == Err::<JsonView, _>(text@),
        },
{
}

/// The request of each question holds the document, the name of its own operation and, where it
/// speaks of a job, the number of that job; it holds nothing else.
pub proof fn law_each_question_has_its_own_request(
    document: Seq<char>,
    kind: JobKind,
    job_id: i64,
    wait: JobWait,
)
    ensures
        ({
            let plain = |operation: Seq<char>|
                JsonView::Object(
                    map![
                        "query"@ => JsonView::Text(document),
                        "variables"@ => JsonView::Object(Map::empty()),
                        "operationName"@ => JsonView::Text(operation),
                    ],
                );
            let with_job = |operation: Seq<char>, id: i64|
                JsonView::Object(
                    map![
                        "query"@ => JsonView::Text(document),
                        "variables"@ => JsonView::Object(
                            map![
                                "jobId"@ => JsonView::Number(
                                    if id < 0 {
                                        Number::NegInt(id)
                                    } else {
                                        Number::PosInt(id as u64)
                                    },
                                ),
                            ],
                        ),
                        "operationName"@ => JsonView::Text(operation),
                    ],
                );
            &&& Question::Timeline.body(document) == plain("SetOptimizationTimeline"@)
            &&& Question::Save.body(document) == plain("SaveModel"@)
            &&& Question::Start(JobKind::Optimization).body(document) == plain(
                "StartOptimization"@,
            )
            &&& Question::Start(JobKind::Weather).body(document) == plain(
                "StartWeatherForecastFetch"@,
            )
            &&& Question::Start(JobKind::Price).body(document) == plain(
                "StartElectricityPriceFetch"@,
            )
            &&& Question::Status(kind, wait).body(document) == with_job(
                "JobStatus"@,
                wait.job_id,
            )
            &&& Question::Outcome(kind, job_id).body(document) == with_job(
                "GetJobOutcome"@,
                job_id,
            )
        }),
{
}

} // verus!
