//! The texts in which failures are reported.

use crate::graphql::{Failure, FailureView, JobKind, Operation, Subject};
use crate::json::JsonView;
use crate::text::decimal;
use crate::text::{decimal_i64, decimal_u64};
use vstd::prelude::*;

verus! {

/// The quoted and escaped form of a text: what `Debug` of std's `str` writes.
pub uninterp spec fn quoted(text: Seq<char>) -> Seq<char>;

/// Calls `Debug` of std's `str`, by way of `format!`.
///
/// Nothing is claimed of the form that it gives but that it depends on the text alone.
#[verifier::external_body]
fn quote(text: &str) -> (r: String)
    ensures
        r@ == quoted(text@),
{
    format!("{:?}", text)
}

/// How a message is shown, given its quoted form; a missing one is shown as such.
pub open spec fn optional_message(quoted_form: Option<Seq<char>>) -> Seq<char> {
    match quoted_form {
        Some(form) => "Some("@ + form + ")"@,
        None => "None"@,
    }
}

/// How an optional message is shown.
pub open spec fn message_text(message: Option<Seq<char>>) -> Seq<char> {
    optional_message(
        match message {
            Some(text) => Some(quoted(text)),
            None => None,
        },
    )
}

/// How the job of a failed request is named.
pub open spec fn subject_text(subject: Subject) -> Seq<char> {
    match subject {
        Subject::Nothing => ""@,
        Subject::Job(job_id) => " for job "@ + decimal(job_id as int),
        Subject::PriceJob(job_id) => " for price job "@ + decimal(job_id as int),
    }
}

/// How a job that did not end well is reported, given its message as it is shown.
pub open spec fn ended_text(
    kind: JobKind,
    job_id: i64,
    state: Seq<char>,
    message: Seq<char>,
) -> Seq<char> {
    kind.title() + decimal(job_id as int) + " ended in state "@ + state + ", message="@ + message
}

/// How a failure is reported, given the reasons that the service listed as they are shown.
pub open spec fn failure_text(failure: FailureView, reasons: Seq<char>) -> Seq<char> {
    match failure {
        FailureView::Transport(text) => text,
        FailureView::Errors { operation, subject, errors: _ } => "GraphQL errors in "@
            + operation.title() + subject_text(subject) + ": "@ + reasons,
        FailureView::ModelNotSaved(text) => "saveModel failed: "@ + text,
        FailureView::TimelineUnreadable => "SetOptimizationTimeline returned an invalid response"@,
        FailureView::TimelineRejected { errors: _ } =>
            "SetOptimizationTimeline validation errors: "@ + reasons,
        FailureView::NoJob(kind) => kind.field() + " did not return a valid jobId"@,
        FailureView::OutcomeMissing => "jobOutcome missing in response"@,
        FailureView::TimedOut { job_id, attempts } => "Timeout waiting for job "@ + decimal(
            job_id as int,
        ) + " to finish (reached "@ + decimal(attempts as int) + " attempts)"@,
        FailureView::JobEnded { kind, job_id, state, message } => ended_text(
            kind,
            job_id,
            state,
            message_text(message),
        ),
    }
}

/// Shows a message, given its quoted form.
pub fn show_quoted(quoted_form: Option<&str>) -> (r: String)
    ensures
        r@ == optional_message(
            match quoted_form {
                Some(form) => Some(form@),
                None => None,
            },
        ),
{
    match quoted_form {
        Some(form) => {
            let mut r = "Some(".to_string();
            r.append(form);
            r.append(")");
            r
        },
        None => "None".to_string(),
    }
}

/// Shows an optional message.
pub fn show_message(message: &Option<String>) -> (r: String)
    ensures
        r@ == message_text(crate::graphql::optional_text(*message)),
{
    match message {
        Some(text) => show_quoted(Some(quote(text.as_str()).as_str())),
        None => show_quoted(None),
    }
}

/// Names the job of a failed request.
pub fn show_subject(subject: Subject) -> (r: String)
    ensures
        r@ == subject_text(subject),
{
    match subject {
        Subject::Nothing => "".to_string(),
        Subject::Job(job_id) => {
            let mut r = " for job ".to_string();
            r.append(decimal_i64(job_id).as_str());
            r
        },
        Subject::PriceJob(job_id) => {
            let mut r = " for price job ".to_string();
            r.append(decimal_i64(job_id).as_str());
            r
        },
    }
}

/// Reports a job that did not end well, given its message as it is shown.
pub fn show_ended(kind: JobKind, job_id: i64, state: &str, message: &str) -> (r: String)
    ensures
        r@ == ended_text(kind, job_id, state@, message@),
{
    let mut r = kind.failure_title().to_string();
    r.append(decimal_i64(job_id).as_str());
    r.append(" ended in state ");
    r.append(state);
    r.append(", message=");
    r.append(message);
    r
}

impl Failure {
    /// Reports the failure, given the reasons that the service listed as they are shown.
    pub fn report(&self, reasons: &str) -> (r: String)
        ensures
            r@ == failure_text(self@, reasons@),
    {
        match self {
            Failure::Transport(text) => text.clone(),
            Failure::Errors { operation, subject, errors: _ } => {
                let mut r = "GraphQL errors in ".to_string();
                r.append(operation.name());
                r.append(show_subject(*subject).as_str());
                r.append(": ");
                r.append(reasons);
                r
            },
            Failure::ModelNotSaved(text) => {
                let mut r = "saveModel failed: ".to_string();
                r.append(text.as_str());
                r
            },
            Failure::TimelineUnreadable => {
                "SetOptimizationTimeline returned an invalid response".to_string()
            },
            Failure::TimelineRejected { errors: _ } => {
                let mut r = "SetOptimizationTimeline validation errors: ".to_string();
                r.append(reasons);
                r
            },
            Failure::NoJob(kind) => {
                let mut r = kind.reply_field().to_string();
                r.append(" did not return a valid jobId");
                r
            },
            Failure::OutcomeMissing => "jobOutcome missing in response".to_string(),
            Failure::TimedOut { job_id, attempts } => {
                let mut r = "Timeout waiting for job ".to_string();
                r.append(decimal_i64(*job_id).as_str());
                r.append(" to finish (reached ");
                r.append(decimal_u64(*attempts as u64).as_str());
                r.append(" attempts)");
                r
            },
            Failure::JobEnded { kind, job_id, state, message } => {
                show_ended(*kind, *job_id, state.as_str(), show_message(message).as_str())
            },
        }
    }
}

/// A failed request is reported with the name of its operation, the job that it spoke of, and the
/// reasons that the service gave.
pub proof fn law_failed_requests_are_reported(
    operation: Operation,
    job_id: i64,
    errors: JsonView,
    reasons: Seq<char>,
)
    ensures
        failure_text(FailureView::Errors { operation, subject: Subject::Nothing, errors }, reasons)
            == "GraphQL errors in "@ + operation.title() + ""@ + ": "@ + reasons,
        failure_text(
            FailureView::Errors { operation, subject: Subject::Job(job_id), errors },
            reasons,
        ) == "GraphQL errors in "@ + operation.title() + (" for job "@ + decimal(job_id as int))
            + ": "@ + reasons,
        failure_text(
            FailureView::Errors { operation, subject: Subject::PriceJob(job_id), errors },
            reasons,
        ) == "GraphQL errors in "@ + operation.title() + (" for price job "@ + decimal(
            job_id as int,
        )) + ": "@ + reasons,
        failure_text(FailureView::TimelineRejected { errors }, reasons)
            == "SetOptimizationTimeline validation errors: "@ + reasons,
{
}

/// A job that did not end well is reported with its number, its state and its message, which is
/// shown as missing where there is none; one that was given up, with the number of questions.
pub proof fn law_unfinished_jobs_are_reported(
    job_id: i64,
    state: Seq<char>,
    message: Seq<char>,
    attempts: u32,
    reasons: Seq<char>,
)
    ensures
        ({
            let number = decimal(job_id as int);
            let ended = |kind: JobKind, message: Option<Seq<char>>|
                failure_text(FailureView::JobEnded { kind, job_id, state, message }, reasons);
            &&& ended(JobKind::Optimization, None) == "Job "@ + number + " ended in state "@ + state
                + ", message="@ + "None"@
            &&& ended(JobKind::Weather, None) == "Weather job "@ + number + " ended in state "@
                + state + ", message="@ + "None"@
            &&& ended(JobKind::Price, None) == "Electricity price job "@ + number
                + " ended in state "@ + state + ", message="@ + "None"@
            &&& ended(JobKind::Optimization, Some(message)) == "Job "@ + number
                + " ended in state "@ + state + ", message="@ + ("Some("@ + quoted(message) + ")"@)
            &&& ended(JobKind::Weather, Some(message)) == "Weather job "@ + number
                + " ended in state "@ + state + ", message="@ + ("Some("@ + quoted(message) + ")"@)
            &&& ended(JobKind::Price, Some(message)) == "Electricity price job "@ + number
                + " ended in state "@ + state + ", message="@ + ("Some("@ + quoted(message) + ")"@)
            &&& failure_text(FailureView::TimedOut { job_id, attempts }, reasons)
                == "Timeout waiting for job "@ + number + " to finish (reached "@ + decimal(
                attempts as int,
            ) + " attempts)"@
        }),
{
}

/// The other failures are reported in words of their own, with the text that came with them.
pub proof fn law_other_failures_are_reported(text: Seq<char>, reasons: Seq<char>)
    ensures
        failure_text(FailureView::Transport(text), reasons) == text,
        failure_text(FailureView::ModelNotSaved(text), reasons) == "saveModel failed: "@ + text,
        failure_text(FailureView::TimelineUnreadable, reasons)
            == "SetOptimizationTimeline returned an invalid response"@,
        failure_text(FailureView::OutcomeMissing, reasons) == "jobOutcome missing in response"@,
        failure_text(FailureView::NoJob(JobKind::Optimization), reasons) == "startOptimization"@
            + " did not return a valid jobId"@,
        failure_text(FailureView::NoJob(JobKind::Weather), reasons)
            == "startWeatherForecastFetch"@ + " did not return a valid jobId"@,
        failure_text(FailureView::NoJob(JobKind::Price), reasons)
            == "startElectricityPriceFetch"@ + " did not return a valid jobId"@,
{
}

} // verus!
