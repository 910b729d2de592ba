//! The GraphQL service that holds the model and runs the jobs: what is asked of it, and what its
//! replies mean.

use crate::json::{Json, JsonView, Number};
use crate::text::same_text;
use vstd::prelude::*;

verus! {

/// The kinds of jobs that the service runs for the backend.
#[derive(Debug, Clone, Copy, PartialEq, Eq, Structural)]
pub enum JobKind {
    Optimization,
    Weather,
    Price,
}

/// The operations of the document that goes with every request.
#[derive(Debug, Clone, Copy, PartialEq, Eq, Structural)]
pub enum Operation {
    SetOptimizationTimeline,
    SaveModel,
    StartOptimization,
    StartWeatherForecastFetch,
    StartElectricityPriceFetch,
    JobStatus,
    GetJobOutcome,
}

/// How a failed request names the job that it spoke of.
#[derive(Debug, Clone, Copy, PartialEq, Eq, Structural)]
pub enum Subject {
    Nothing,
    Job(i64),
    PriceJob(i64),
}

/// What the service says of a running job.
#[derive(Debug, PartialEq, Eq)]
pub struct JobStatus {
    pub state: String,
    pub message: Option<String>,
}

/// Why a cycle did not reach its end.
#[derive(Debug, PartialEq, Eq)]
pub enum Failure {
    /// The request itself failed; the text says how.
    Transport(String),
    /// The service answered with errors.
    Errors { operation: Operation, subject: Subject, errors: Json },
    /// The model was not saved; the text says why.
    ModelNotSaved(String),
    /// The reply to the new time line cannot be read.
    TimelineUnreadable,
    /// The new time line was refused for the listed reasons.
    TimelineRejected { errors: Json },
    /// The reply names no job.
    NoJob(JobKind),
    /// The reply holds no outcome.
    OutcomeMissing,
    /// The job did not end within the allowed number of questions.
    TimedOut { job_id: i64, attempts: u32 },
    /// The job ended, but not well.
    JobEnded { kind: JobKind, job_id: i64, state: String, message: Option<String> },
}

/// What a `JobStatus` says.
#[verifier::ext_equal]
pub struct JobStatusView {
    pub state: Seq<char>,
    pub message: Option<Seq<char>>,
}

/// What a `Failure` says.
#[verifier::ext_equal]
pub enum FailureView {
    Transport(Seq<char>),
    Errors { operation: Operation, subject: Subject, errors: JsonView },
    ModelNotSaved(Seq<char>),
    TimelineUnreadable,
    TimelineRejected { errors: JsonView },
    NoJob(JobKind),
    OutcomeMissing,
    TimedOut { job_id: i64, attempts: u32 },
    JobEnded { kind: JobKind, job_id: i64, state: Seq<char>, message: Option<Seq<char>> },
}

/// What an optional text says.
pub open spec fn optional_text(text: Option<String>) -> Option<Seq<char>> {
    match text {
        Some(text) => Some(text@),
        None => None,
    }
}

/// What an optional document says.
pub open spec fn optional_json(document: Option<Json>) -> Option<JsonView> {
    match document {
        Some(document) => Some(document@),
        None => None,
    }
}

impl View for JobStatus {
    type V = JobStatusView;

    open spec fn view(&self) -> JobStatusView {
        JobStatusView { state: self.state@, message: optional_text(self.message) }
    }
}

impl View for Failure {
    type V = FailureView;

    open spec fn view(&self) -> FailureView {
        match *self {
            Failure::Transport(text) => FailureView::Transport(text@),
            Failure::Errors { operation, subject, errors } => FailureView::Errors {
                operation,
                subject,
                errors: errors@,
            },
            Failure::ModelNotSaved(text) => FailureView::ModelNotSaved(text@),
            Failure::TimelineUnreadable => FailureView::TimelineUnreadable,
            Failure::TimelineRejected { errors } => FailureView::TimelineRejected {
                errors: errors@,
            },
            Failure::NoJob(kind) => FailureView::NoJob(kind),
            Failure::OutcomeMissing => FailureView::OutcomeMissing,
            Failure::TimedOut { job_id, attempts } => FailureView::TimedOut { job_id, attempts },
            Failure::JobEnded { kind, job_id, state, message } => FailureView::JobEnded {
                kind,
                job_id,
                state: state@,
                message: optional_text(message),
            },
        }
    }
}

/// A result with its failure seen as a `FailureView`.
pub open spec fn seen<T>(result: Result<T, Failure>) -> Result<T, FailureView> {
    match result {
        Ok(value) => Ok(value),
        Err(failure) => Err(failure@),
    }
}

impl JobKind {
    /// The operation that starts a job of this kind.
    pub open spec fn start(self) -> Operation {
        match self {
            JobKind::Optimization => Operation::StartOptimization,
            JobKind::Weather => Operation::StartWeatherForecastFetch,
            JobKind::Price => Operation::StartElectricityPriceFetch,
        }
    }

    /// The member of the reply that holds the number of the started job.
    pub open spec fn field(self) -> Seq<char> {
        match self {
            JobKind::Optimization => "startOptimization"@,
            JobKind::Weather => "startWeatherForecastFetch"@,
            JobKind::Price => "startElectricityPriceFetch"@,
        }
    }

    /// The type of the outcome of a job of this kind.
    pub open spec fn outcome_type(self) -> Seq<char> {
        match self {
            JobKind::Optimization => "OptimizationOutcome"@,
            JobKind::Weather => "WeatherForecastOutcome"@,
            JobKind::Price => "ElectricityPriceOutcome"@,
        }
    }

    /// How a failure names a job of this kind.
    pub open spec fn title(self) -> Seq<char> {
        match self {
            JobKind::Optimization => "Job "@,
            JobKind::Weather => "Weather job "@,
            JobKind::Price => "Electricity price job "@,
        }
    }

    /// What a failed request for the outcome of a job of this kind spoke of.
    pub open spec fn subject(self, job_id: i64) -> Subject {
        match self {
            JobKind::Price => Subject::PriceJob(job_id),
            _ => Subject::Job(job_id),
        }
    }

    /// How often the state of a job of this kind is asked for, at most.
    pub open spec fn attempts(self) -> u32 {
        match self {
            JobKind::Optimization => 1800,
            _ => 300,
        }
    }

    /// The operation that starts a job of this kind.
    pub fn start_operation(&self) -> (r: Operation)
        ensures
            r == self.start(),
    {
        match *self {
            JobKind::Optimization => Operation::StartOptimization,
            JobKind::Weather => Operation::StartWeatherForecastFetch,
            JobKind::Price => Operation::StartElectricityPriceFetch,
        }
    }

    /// The member of the reply that holds the number of the started job.
    pub fn reply_field(&self) -> (r: &'static str)
        ensures
            r@ == self.field(),
    {
        match *self {
            JobKind::Optimization => "startOptimization",
            JobKind::Weather => "startWeatherForecastFetch",
            JobKind::Price => "startElectricityPriceFetch",
        }
    }

    /// The type of the outcome of a job of this kind.
    pub fn outcome_typename(&self) -> (r: &'static str)
        ensures
            r@ == self.outcome_type(),
    {
        match *self {
            JobKind::Optimization => "OptimizationOutcome",
            JobKind::Weather => "WeatherForecastOutcome",
            JobKind::Price => "ElectricityPriceOutcome",
        }
    }

    /// How a failure names a job of this kind.
    pub fn failure_title(&self) -> (r: &'static str)
        ensures
            r@ == self.title(),
    {
        match *self {
            JobKind::Optimization => "Job ",
            JobKind::Weather => "Weather job ",
            JobKind::Price => "Electricity price job ",
        }
    }

    /// What a failed request for the outcome of a job of this kind spoke of.
    pub fn outcome_subject(&self, job_id: i64) -> (r: Subject)
        ensures
            r == self.subject(job_id),
    {
        match *self {
            JobKind::Price => Subject::PriceJob(job_id),
            _ => Subject::Job(job_id),
        }
    }

    /// How often the state of a job of this kind is asked for, at most.
    ///
    /// The first optimisation on slow hardware takes far longer than a forecast.
    pub fn max_attempts(&self) -> (r: u32)
        ensures
            r == self.attempts(),
    {
        match *self {
            JobKind::Optimization => 1800,
            _ => 300,
        }
    }
}

impl Operation {
    /// The name of the operation in the document.
    pub open spec fn title(self) -> Seq<char> {
        match self {
            Operation::SetOptimizationTimeline => "SetOptimizationTimeline"@,
            Operation::SaveModel => "SaveModel"@,
            Operation::StartOptimization => "StartOptimization"@,
            Operation::StartWeatherForecastFetch => "StartWeatherForecastFetch"@,
            Operation::StartElectricityPriceFetch => "StartElectricityPriceFetch"@,
            Operation::JobStatus => "JobStatus"@,
            Operation::GetJobOutcome => "GetJobOutcome"@,
        }
    }

    /// The name of the operation in the document.
    pub fn name(&self) -> (r: &'static str)
        ensures
            r@ == self.title(),
    {
        match *self {
            Operation::SetOptimizationTimeline => "SetOptimizationTimeline",
            Operation::SaveModel => "SaveModel",
            Operation::StartOptimization => "StartOptimization",
            Operation::StartWeatherForecastFetch => "StartWeatherForecastFetch",
            Operation::StartElectricityPriceFetch => "StartElectricityPriceFetch",
            Operation::JobStatus => "JobStatus",
            Operation::GetJobOutcome => "GetJobOutcome",
        }
    }
}

// What is asked.

/// The variables of a request that speaks of a job, or of none.
pub open spec fn variables_view(job_id: Option<i64>) -> JsonView {
    match job_id {
        Some(id) => JsonView::object().with(
            "jobId"@,
            JsonView::Number(Number::of_integer(id)),
        ),
        None => JsonView::object(),
    }
}

/// The body of a request.
pub open spec fn payload_view(
    document: Seq<char>,
    operation: Option<Seq<char>>,
    variables: JsonView,
) -> JsonView {
    let plain = JsonView::object().with("query"@, JsonView::Text(document)).with(
        "variables"@,
        variables,
    );
    match operation {
        Some(name) => plain.with("operationName"@, JsonView::Text(name)),
        None => plain,
    }
}

/// The variables of a request that speaks of a job, or of none.
pub fn request_variables(job_id: Option<i64>) -> (r: Json)
    ensures
        r@ == variables_view(job_id),
{
    match job_id {
        Some(id) => Json::object().with("jobId", Json::Number(Number::from_i64(id))),
        None => Json::object(),
    }
}

/// The body of a request.
pub fn request_payload(document: &str, operation: Option<&str>, variables: Json) -> (r: Json)
    ensures
        r@ == payload_view(
            document@,
            match operation {
                Some(name) => Some(name@),
                None => None,
            },
            variables@,
        ),
{
    let plain = Json::object().with("query", Json::text(document)).with("variables", variables);
    match operation {
        Some(name) => plain.with("operationName", Json::text(name)),
        None => plain,
    }
}

// What the replies mean.

/// The member `name` of the data in a reply.
pub open spec fn data_of(reply: JsonView, name: Seq<char>) -> Option<JsonView> {
    reply.get_in("data"@, name)
}

/// The member `inner` of the member `name` of the data in a reply.
pub open spec fn data_in(reply: JsonView, name: Seq<char>, inner: Seq<char>) -> Option<JsonView> {
    match data_of(reply, name) {
        Some(document) => document.get(inner),
        None => None,
    }
}

/// The text in the member `inner` of the member `name` of the data in a reply.
pub open spec fn data_text(reply: JsonView, name: Seq<char>, inner: Seq<char>) -> Option<Seq<char>> {
    match data_in(reply, name, inner) {
        Some(document) => document.text(),
        None => None,
    }
}

/// What the reply to `SaveModel` means: the model was saved unless the reply holds errors or a
/// message.
pub open spec fn save_model_result(reply: JsonView) -> Result<(), FailureView> {
    if let Some(errors) = reply.get("errors"@) {
        Err(
            FailureView::Errors {
                operation: Operation::SaveModel,
                subject: Subject::Nothing,
                errors,
            },
        )
    } else if let Some(message) = data_text(reply, "saveModel"@, "message"@) {
        Err(FailureView::ModelNotSaved(message))
    } else {
        Ok(())
    }
}

/// What the reply to `SetOptimizationTimeline` means: the time line was set where the reply lists
/// no validation error.
pub open spec fn timeline_result(reply: JsonView) -> Result<(), FailureView> {
    let found = match data_in(reply, "updateTimeLine"@, "errors"@) {
        Some(document) => document.elements(),
        None => None,
    };
    if let Some(errors) = reply.get("errors"@) {
        Err(
            FailureView::Errors {
                operation: Operation::SetOptimizationTimeline,
                subject: Subject::Nothing,
                errors,
            },
        )
    } else if let Some(list) = found {
        if list.len() == 0 {
            Ok(())
        } else {
            Err(FailureView::TimelineRejected { errors: JsonView::List(list) })
        }
    } else {
        Err(FailureView::TimelineUnreadable)
    }
}

/// What the reply to the start of a job means: the number of the job.
pub open spec fn started_result(kind: JobKind, reply: JsonView) -> Result<i64, FailureView> {
    let found = match data_of(reply, kind.field()) {
        Some(document) => document.integer(),
        None => None,
    };
    if let Some(errors) = reply.get("errors"@) {
        Err(FailureView::Errors { operation: kind.start(), subject: Subject::Nothing, errors })
    } else if let Some(job_id) = found {
        Ok(job_id)
    } else {
        Err(FailureView::NoJob(kind))
    }
}

/// What the reply to `JobStatus` means: the state of the job, `UNKNOWN` where the reply has none.
pub open spec fn status_result(job_id: i64, reply: JsonView) -> Result<JobStatusView, FailureView> {
    if let Some(errors) = reply.get("errors"@) {
        Err(
            FailureView::Errors {
                operation: Operation::JobStatus,
                subject: Subject::Job(job_id),
                errors,
            },
        )
    } else {
        Ok(
            JobStatusView {
                state: match data_text(reply, "jobStatus"@, "state"@) {
                    Some(state) => state,
                    None => "UNKNOWN"@,
                },
                message: data_text(reply, "jobStatus"@, "message"@),
            },
        )
    }
}

/// Whether an outcome is of the type that a job of this kind yields.
pub open spec fn has_outcome_type(kind: JobKind, outcome: JsonView) -> bool {
    match outcome.get("__typename"@) {
        Some(name) => name.text() == Some(kind.outcome_type()),
        None => false,
    }
}

/// What the reply to `GetJobOutcome` means: the outcome, where it is of the expected type.
pub open spec fn outcome_result(kind: JobKind, job_id: i64, reply: JsonView) -> Result<
    Option<JsonView>,
    FailureView,
> {
    if let Some(errors) = reply.get("errors"@) {
        Err(
            FailureView::Errors {
                operation: Operation::GetJobOutcome,
                subject: kind.subject(job_id),
                errors,
            },
        )
    } else if let Some(outcome) = data_of(reply, "jobOutcome"@) {
        if has_outcome_type(kind, outcome) {
            Ok(Some(outcome))
        } else {
            Ok(None)
        }
    } else {
        Err(FailureView::OutcomeMissing)
    }
}

/// The text in the member `inner` of the member `name` of the data in a reply.
fn read_data_text(reply: &Json, name: &str, inner: &str) -> (r: Option<String>)
    ensures
        optional_text(r) == data_text(reply@, name@, inner@),
{
    if let Some(document) = reply.get_in("data", name) {
        if let Some(member) = document.get(inner) {
            if let Some(text) = member.as_str() {
                return Some(text.to_string());
            }
        }
    }
    None
}

/// Reads the reply to `SaveModel`.
pub fn save_model(reply: &Json) -> (r: Result<(), Failure>)
    ensures
        seen(r) == save_model_result(reply@),
{
    if let Some(errors) = reply.get("errors") {
        return Err(
            Failure::Errors {
                operation: Operation::SaveModel,
                subject: Subject::Nothing,
                errors: errors.copy(),
            },
        );
    }
    match read_data_text(reply, "saveModel", "message") {
        Some(message) => Err(Failure::ModelNotSaved(message)),
        None => Ok(()),
    }
}

/// Reads the reply to `SetOptimizationTimeline`.
pub fn set_optimization_timeline(reply: &Json) -> (r: Result<(), Failure>)
    ensures
        seen(r) == timeline_result(reply@),
{
    if let Some(errors) = reply.get("errors") {
        return Err(
            Failure::Errors {
                operation: Operation::SetOptimizationTimeline,
                subject: Subject::Nothing,
                errors: errors.copy(),
            },
        );
    }
    if let Some(document) = reply.get_in("data", "updateTimeLine") {
        if let Some(errors) = document.get("errors") {
            if let Some(list) = errors.as_array() {
                proof {
                    crate::json::lemma_list_view(list@);
                }
                if list.len() == 0 {
                    return Ok(());
                }
                return Err(Failure::TimelineRejected { errors: errors.copy() });
            }
        }
    }
    Err(Failure::TimelineUnreadable)
}

/// Reads the reply to the start of a job.
pub fn start_job(kind: JobKind, reply: &Json) -> (r: Result<i64, Failure>)
    ensures
        seen(r) == started_result(kind, reply@),
{
    if let Some(errors) = reply.get("errors") {
        return Err(
            Failure::Errors {
                operation: kind.start_operation(),
                subject: Subject::Nothing,
                errors: errors.copy(),
            },
        );
    }
    if let Some(document) = reply.get_in("data", kind.reply_field()) {
        if let Some(job_id) = document.as_i64() {
            return Ok(job_id);
        }
    }
    Err(Failure::NoJob(kind))
}

/// Reads the reply to `JobStatus`.
pub fn job_status(job_id: i64, reply: &Json) -> (r: Result<JobStatus, Failure>)
    ensures
        match r {
            Ok(status) => status_result(job_id, reply@) == Ok::<_, FailureView>(status@),
            Err(failure) => status_result(job_id, reply@) == Err::<JobStatusView, _>(failure@),
        },
{
    if let Some(errors) = reply.get("errors") {
        return Err(
            Failure::Errors {
                operation: Operation::JobStatus,
                subject: Subject::Job(job_id),
                errors: errors.copy(),
            },
        );
    }
    let state = match read_data_text(reply, "jobStatus", "state") {
        Some(state) => state,
        None => "UNKNOWN".to_string(),
    };
    let message = read_data_text(reply, "jobStatus", "message");
    Ok(JobStatus { state, message })
}

/// Reads the reply to `GetJobOutcome`.
pub fn job_outcome(kind: JobKind, job_id: i64, reply: &Json) -> (r: Result<Option<Json>, Failure>)
    ensures
        match r {
            Ok(outcome) => outcome_result(kind, job_id, reply@) == Ok::<_, FailureView>(
                optional_json(outcome),
            ),
            Err(failure) => outcome_result(kind, job_id, reply@) == Err::<Option<JsonView>, _>(
                failure@,
            ),
        },
{
    if let Some(errors) = reply.get("errors") {
        return Err(
            Failure::Errors {
                operation: Operation::GetJobOutcome,
                subject: kind.outcome_subject(job_id),
                errors: errors.copy(),
            },
        );
    }
    match reply.get_in("data", "jobOutcome") {
        Some(outcome) => {
            if let Some(member) = outcome.get("__typename") {
                if let Some(name) = member.as_str() {
                    if same_text(name, kind.outcome_typename()) {
                        return Ok(Some(outcome.copy()));
                    }
                }
            }
            Ok(None)
        },
        None => Err(Failure::OutcomeMissing),
    }
}

/// A reply with errors is never taken for a success, whatever else it holds.
pub proof fn law_errors_are_no_success(reply: JsonView, kind: JobKind, job_id: i64)
    requires
        reply.get("errors"@) is Some,
    ensures
        timeline_result(reply) is Err,
        save_model_result(reply) is Err,
        started_result(kind, reply) is Err,
        status_result(job_id, reply) is Err,
        outcome_result(kind, job_id, reply) is Err,
{
}

/// The job that a request speaks of is the job whose number it was given.
pub proof fn law_request_names_its_job(document: Seq<char>, operation: Seq<char>, job_id: i64)
    ensures
        ({
            let payload = payload_view(document, Some(operation), variables_view(Some(job_id)));
            &&& payload.get("query"@) == Some(JsonView::Text(document))
            &&& payload.get("operationName"@) == Some(JsonView::Text(operation))
            &&& payload.get_in("variables"@, "jobId"@) is Some
            &&& payload.get_in("variables"@, "jobId"@)->0.integer() == Some(job_id)
        }),
{
    reveal_strlit("query");
    reveal_strlit("variables");
    reveal_strlit("operationName");
    assert("query"@.len() == 5);
    assert("variables"@.len() == 9);
    assert("operationName"@.len() == 13);
}

/// An outcome is handed on unchanged, and only where it is of the expected type.
pub proof fn law_outcome_is_handed_on(kind: JobKind, job_id: i64, reply: JsonView)
    ensures
        match outcome_result(kind, job_id, reply) {
            Ok(Some(outcome)) => data_of(reply, "jobOutcome"@) == Some(outcome)
                && has_outcome_type(kind, outcome),
            _ => true,
        },
{
}

/// Errors in a reply are handed on as they are, with the operation and the job that they belong to.
pub proof fn law_errors_are_handed_on(
    reply: JsonView,
    errors: JsonView,
    kind: JobKind,
    job_id: i64,
)
    requires
        reply.get("errors"@) == Some(errors),
    ensures
        timeline_result(reply) == Err::<(), _>(
            FailureView::Errors {
                operation: Operation::SetOptimizationTimeline,
                subject: Subject::Nothing,
                errors,
            },
        ),
        save_model_result(reply) == Err::<(), _>(
            FailureView::Errors {
                operation: Operation::SaveModel,
                subject: Subject::Nothing,
                errors,
            },
        ),
        started_result(kind, reply) == Err::<i64, _>(
            FailureView::Errors {
                operation: match kind {
                    JobKind::Optimization => Operation::StartOptimization,
                    JobKind::Weather => Operation::StartWeatherForecastFetch,
                    JobKind::Price => Operation::StartElectricityPriceFetch,
                },
                subject: Subject::Nothing,
                errors,
            },
        ),
        status_result(job_id, reply) == Err::<JobStatusView, _>(
            FailureView::Errors {
                operation: Operation::JobStatus,
                subject: Subject::Job(job_id),
                errors,
            },
        ),
        outcome_result(kind, job_id, reply) == Err::<Option<JsonView>, _>(
            FailureView::Errors {
                operation: Operation::GetJobOutcome,
                subject: if kind == JobKind::Price {
                    Subject::PriceJob(job_id)
                } else {
                    Subject::Job(job_id)
                },
                errors,
            },
        ),
{
}

/// A reply without errors whose outcome has the type of the kind of job yields that outcome,
/// whatever else it holds; an outcome of any other type is ignored.
pub proof fn law_outcome_of_its_type_is_yielded(
    kind: JobKind,
    job_id: i64,
    reply: JsonView,
    data: JsonView,
    outcome: JsonView,
)
    requires
        reply.get("errors"@) is None,
        reply.get("data"@) == Some(data),
        data.get("jobOutcome"@) == Some(outcome),
    ensures
        ({
            let typename = match kind {
                JobKind::Optimization => "OptimizationOutcome"@,
                JobKind::Weather => "WeatherForecastOutcome"@,
                JobKind::Price => "ElectricityPriceOutcome"@,
            };
            &&& outcome.get("__typename"@) == Some(JsonView::Text(typename)) ==> outcome_result(
                kind,
                job_id,
                reply,
            ) == Ok::<_, FailureView>(Some(outcome))
            &&& outcome.get("__typename"@) != Some(JsonView::Text(typename)) ==> outcome_result(
                kind,
                job_id,
                reply,
            ) == Ok::<_, FailureView>(None::<JsonView>)
        }),
{
}

/// A reply with neither errors nor an outcome is no success.
pub proof fn law_missing_outcome_is_a_failure(kind: JobKind, job_id: i64, reply: JsonView)
    requires
        reply.get("errors"@) is None,
        reply.get("data"@) is None || reply.get("data"@)->0.get("jobOutcome"@) is None,
    ensures
        outcome_result(kind, job_id, reply) == Err::<Option<JsonView>, _>(
            FailureView::OutcomeMissing,
        ),
{
}

/// A model counts as saved exactly where the reply holds neither errors nor a message, which says
/// otherwise why it was not.
pub proof fn law_model_is_saved_without_a_message(reply: JsonView, message: Seq<char>)
    requires
        reply.get("errors"@) is None,
    ensures
        save_model_result(reply) == Err::<(), _>(FailureView::ModelNotSaved(message)) <==> {
            &&& reply.get("data"@) is Some
            &&& reply.get("data"@)->0.get("saveModel"@) is Some
            &&& reply.get("data"@)->0.get("saveModel"@)->0.get("message"@) == Some(
                JsonView::Text(message),
            )
        },
        save_model_result(reply) is Ok <==> !{
            &&& reply.get("data"@) is Some
            &&& reply.get("data"@)->0.get("saveModel"@) is Some
            &&& reply.get("data"@)->0.get("saveModel"@)->0.get("message"@) is Some
            &&& reply.get("data"@)->0.get("saveModel"@)->0.get("message"@)->0 is Text
        },
{
}

/// The time line counts as set exactly where the reply lists validation errors and the list is
/// empty; a list that is not empty is handed on, and a reply without a list cannot be read.
pub proof fn law_time_line_is_set_without_validation_errors(
    reply: JsonView,
    data: JsonView,
    update: JsonView,
    list: Seq<JsonView>,
)
    requires
        reply.get("errors"@) is None,
    ensures
        reply.get("data"@) == Some(data) && data.get("updateTimeLine"@) == Some(update)
            && update.get("errors"@) == Some(JsonView::List(list)) ==> timeline_result(reply) == (
        if list.len() == 0 {
            Ok::<(), FailureView>(())
        } else {
            Err::<(), _>(FailureView::TimelineRejected { errors: JsonView::List(list) })
        }),
        reply.get("data"@) == Some(data) && data.get("updateTimeLine"@) == Some(update) && !(
        update.get("errors"@) is Some && update.get("errors"@)->0 is List) ==> timeline_result(
            reply,
        ) == Err::<(), _>(FailureView::TimelineUnreadable),
        reply.get("data"@) is None || reply.get("data"@)->0.get("updateTimeLine"@) is None
            ==> timeline_result(reply) == Err::<(), _>(FailureView::TimelineUnreadable),
{
}

/// A started job has the number that the reply holds under the name of what started it; where that
/// is no integer, no job was started.
pub proof fn law_started_job_has_its_number(
    kind: JobKind,
    reply: JsonView,
    data: JsonView,
    n: u64,
    m: i64,
)
    requires
        reply.get("errors"@) is None,
        reply.get("data"@) == Some(data),
    ensures
        ({
            let name = match kind {
                JobKind::Optimization => "startOptimization"@,
                JobKind::Weather => "startWeatherForecastFetch"@,
                JobKind::Price => "startElectricityPriceFetch"@,
            };
            let number = data.get(name);
            let none = Err::<i64, _>(FailureView::NoJob(kind));
            &&& number == Some(JsonView::Number(Number::PosInt(n))) && n <= i64::MAX
                ==> started_result(kind, reply) == Ok::<i64, FailureView>(n as i64)
            &&& number == Some(JsonView::Number(Number::NegInt(m))) ==> started_result(kind, reply)
                == Ok::<i64, FailureView>(m)
            &&& number == Some(JsonView::Number(Number::PosInt(n))) && n > i64::MAX
                ==> started_result(kind, reply) == none
            &&& number == Some(JsonView::Number(Number::Float(n))) ==> started_result(kind, reply)
                == none
            &&& number is None || !(number->0 is Number) ==> started_result(kind, reply) == none
        }),
{
}

/// A reply without data started no job.
pub proof fn law_no_job_without_data(kind: JobKind, reply: JsonView)
    requires
        reply.get("errors"@) is None,
        reply.get("data"@) is None,
    ensures
        started_result(kind, reply) == Err::<i64, _>(FailureView::NoJob(kind)),
{
}

/// What a reply without errors says of a job: its state and its message where they are texts; a
/// state that is missing is unknown.
pub proof fn law_status_is_what_the_reply_says(
    job_id: i64,
    reply: JsonView,
    data: JsonView,
    job: JsonView,
    text: Seq<char>,
)
    requires
        reply.get("errors"@) is None,
        reply.get("data"@) == Some(data),
        data.get("jobStatus"@) == Some(job),
    ensures
        status_result(job_id, reply) is Ok,
        job.get("state"@) == Some(JsonView::Text(text)) ==> status_result(
            job_id,
            reply,
        )->Ok_0.state == text,
        job.get("state"@) is None || !(job.get("state"@)->0 is Text) ==> status_result(
            job_id,
            reply,
        )->Ok_0.state == "UNKNOWN"@,
        status_result(job_id, reply)->Ok_0.message == Some(text) <==> job.get("message"@) == Some(
            JsonView::Text(text),
        ),
{
}

/// A reply with neither errors nor a status says nothing of the job.
pub proof fn law_missing_status_is_unknown(job_id: i64, reply: JsonView)
    requires
        reply.get("errors"@) is None,
        reply.get("data"@) is None || reply.get("data"@)->0.get("jobStatus"@) is None,
    ensures
        status_result(job_id, reply) == Ok::<_, FailureView>(
            JobStatusView { state: "UNKNOWN"@, message: None },
        ),
{
}

/// A request holds its document, its variables and the name of its operation, and nothing else; one
/// that speaks of a job holds its number, and one that does not has no variables.
pub proof fn law_request_holds_nothing_else(
    document: Seq<char>,
    operation: Seq<char>,
    variables: JsonView,
    job_id: i64,
)
    ensures
        payload_view(document, Some(operation), variables) == JsonView::Object(
            map![
                "query"@ => JsonView::Text(document),
                "variables"@ => variables,
                "operationName"@ => JsonView::Text(operation),
            ],
        ),
        payload_view(document, None, variables) == JsonView::Object(
            map!["query"@ => JsonView::Text(document), "variables"@ => variables],
        ),
        variables_view(None) == JsonView::Object(Map::empty()),
        job_id >= 0 ==> variables_view(Some(job_id)) == JsonView::Object(
            map!["jobId"@ => JsonView::Number(Number::PosInt(job_id as u64))],
        ),
        job_id < 0 ==> variables_view(Some(job_id)) == JsonView::Object(
            map!["jobId"@ => JsonView::Number(Number::NegInt(job_id))],
        ),
{
}

/// What is shown of a failure or of a status is all that it holds.
pub proof fn law_views_hide_nothing(failure: Failure, status: JobStatus, document: Json)
    ensures
        optional_json(Some(document)) == Some(document@),
        optional_json(None) is None,
        status@.state == status.state@,
        status.message is None <==> status@.message is None,
        status.message is Some ==> status@.message == Some(status.message->0@),
        match failure {
            Failure::Transport(text) => failure@ == FailureView::Transport(text@),
            Failure::Errors { operation, subject, errors } => failure@ == (FailureView::Errors {
                operation,
                subject,
                errors: errors@,
            }),
            Failure::ModelNotSaved(text) => failure@ == FailureView::ModelNotSaved(text@),
            Failure::TimelineUnreadable => failure@ == FailureView::TimelineUnreadable,
            Failure::TimelineRejected { errors } => failure@ == (FailureView::TimelineRejected {
                errors: errors@,
            }),
            Failure::NoJob(kind) => failure@ == FailureView::NoJob(kind),
            Failure::OutcomeMissing => failure@ == FailureView::OutcomeMissing,
            Failure::TimedOut { job_id, attempts } => failure@ == (FailureView::TimedOut {
                job_id,
                attempts,
            }),
            Failure::JobEnded { kind, job_id, state, message } => {
                &&& failure@ is JobEnded
                &&& failure@->JobEnded_kind == kind
                &&& failure@->JobEnded_job_id == job_id
                &&& failure@->JobEnded_state == state@
                &&& message is None <==> failure@->JobEnded_message is None
                &&& message is Some ==> failure@->JobEnded_message == Some(message->0@)
            },
        },
{
}

/// A result is shown with its value as it is and its failure in full.
pub proof fn law_results_are_shown_in_full<T>(value: T, failure: Failure)
    ensures
        seen(Ok(value)) == Ok::<T, FailureView>(value),
        seen(Err::<T, Failure>(failure)) == Err::<T, FailureView>(failure@),
{
}

} // verus!
