use hass_backend::cycle::{begin_cycle, Progress, Question};
use hass_backend::graphql::{Failure, JobKind, Operation};
use hass_backend::job::{JobWait, WaitStep};
use hass_backend::json::{Json, Number};

fn text(s: &str) -> Json {
    Json::Text(s.to_string())
}

fn data(name: &str, value: Json) -> Json {
    Json::object().with("data", Json::object().with(name, value))
}

fn status(state: &str) -> Json {
    data("jobStatus", Json::object().with("state", text(state)))
}

fn timeline() -> Json {
    data(
        "updateTimeLine",
        Json::object().with("errors", Json::List(vec![])),
    )
}

fn started(field: &str, id: u64) -> Json {
    data(field, Json::Number(Number::PosInt(id)))
}

/// Hands the answers over, one for each question; the operations that were asked come back too.
fn drive(kind: JobKind, answers: Vec<Result<Json, String>>) -> (Progress, Vec<Operation>) {
    let mut asked = vec![];
    let mut answers = answers.into_iter();
    let mut progress = begin_cycle(kind);
    loop {
        progress = match progress {
            Progress::Ask(question) => match answers.next() {
                Some(answer) => {
                    asked.push(question.operation());
                    question.answer(answer)
                }
                None => return (Progress::Ask(question), asked),
            },
            Progress::Rest(pause) => pause.resume(),
            over => return (over, asked),
        };
    }
}

#[test]
fn an_optimisation_goes_through_all_its_questions() {
    let outcome = Json::object().with("__typename", text("OptimizationOutcome"));
    let (end, asked) = drive(
        JobKind::Optimization,
        vec![
            Ok(timeline()),
            Ok(data("saveModel", Json::Null)),
            Ok(started("startOptimization", 7)),
            Ok(status("QUEUED")),
            Ok(status("RUNNING")),
            Ok(status("FINISHED")),
            Ok(data("jobOutcome", outcome.copy())),
        ],
    );
    assert_eq!(end, Progress::Done(Some(outcome)));
    assert_eq!(
        asked,
        vec![
            Operation::SetOptimizationTimeline,
            Operation::SaveModel,
            Operation::StartOptimization,
            Operation::JobStatus,
            Operation::JobStatus,
            Operation::JobStatus,
            Operation::GetJobOutcome,
        ]
    );
}

#[test]
fn a_forecast_starts_at_once() {
    let (end, asked) = drive(
        JobKind::Weather,
        vec![
            Ok(started("startWeatherForecastFetch", 7)),
            Ok(status("FINISHED")),
            Ok(data(
                "jobOutcome",
                Json::object().with("__typename", text("Other")),
            )),
        ],
    );
    assert_eq!(end, Progress::Done(None));
    assert_eq!(
        asked,
        vec![
            Operation::StartWeatherForecastFetch,
            Operation::JobStatus,
            Operation::GetJobOutcome
        ]
    );
}

#[test]
fn no_optimisation_without_time_line_and_model() {
    let (end, asked) = drive(JobKind::Optimization, vec![Ok(Json::Null), Ok(Json::Null)]);
    assert_eq!(end, Progress::Failed(Failure::TimelineUnreadable));
    assert_eq!(asked.len(), 1);
    let (end, asked) = drive(
        JobKind::Optimization,
        vec![
            Ok(timeline()),
            Ok(data(
                "saveModel",
                Json::object().with("message", text("no")),
            )),
            Ok(Json::Null),
        ],
    );
    assert_eq!(
        end,
        Progress::Failed(Failure::ModelNotSaved("no".to_string()))
    );
    assert_eq!(asked.len(), 2);
}

#[test]
fn a_failed_request_breaks_a_cycle_off() {
    let (end, asked) = drive(
        JobKind::Price,
        vec![
            Ok(started("startElectricityPriceFetch", 1)),
            Ok(status("RUNNING")),
            Err("connection refused".to_string()),
            Ok(status("FINISHED")),
        ],
    );
    assert_eq!(
        end,
        Progress::Failed(Failure::Transport("connection refused".to_string()))
    );
    assert_eq!(asked.len(), 3);
}

#[test]
fn a_failed_job_breaks_a_cycle_off() {
    let (end, _) = drive(
        JobKind::Price,
        vec![
            Ok(started("startElectricityPriceFetch", 1)),
            Ok(data(
                "jobStatus",
                Json::object()
                    .with("state", text("FAILED"))
                    .with("message", text("no prices")),
            )),
        ],
    );
    assert_eq!(
        end,
        Progress::Failed(Failure::JobEnded {
            kind: JobKind::Price,
            job_id: 1,
            state: "FAILED".to_string(),
            message: Some("no prices".to_string()),
        })
    );
}

#[test]
fn a_missing_outcome_breaks_a_cycle_off() {
    let (end, _) = drive(
        JobKind::Weather,
        vec![
            Ok(started("startWeatherForecastFetch", 7)),
            Ok(status("FINISHED")),
            Ok(Json::object()),
        ],
    );
    assert_eq!(end, Progress::Failed(Failure::OutcomeMissing));
}

#[test]
fn an_endless_job_times_out() {
    let mut answers = vec![Ok(started("startWeatherForecastFetch", 7))];
    for _ in 0..300 {
        answers.push(Ok(status("RUNNING")));
    }
    answers.push(Ok(status("FINISHED")));
    let (end, asked) = drive(JobKind::Weather, answers);
    assert_eq!(
        end,
        Progress::Failed(Failure::TimedOut {
            job_id: 7,
            attempts: 300
        })
    );
    assert_eq!(asked.len(), 301);
}

#[test]
fn every_optimisation_ends() {
    let mut answers = vec![
        Ok(timeline()),
        Ok(Json::Null),
        Ok(started("startOptimization", 2)),
    ];
    for _ in 0..1799 {
        answers.push(Ok(Json::Null));
    }
    answers.push(Ok(status("FINISHED")));
    answers.push(Ok(data("jobOutcome", Json::Null)));
    assert_eq!(answers.len(), 1804);
    let (end, _) = drive(JobKind::Optimization, answers);
    assert_eq!(end, Progress::Done(None));
}

#[test]
fn questions_name_their_job() {
    let wait = JobWait {
        job_id: 3,
        attempt: 1,
        max_attempts: 2,
    };
    assert_eq!(Question::Status(JobKind::Price, wait).job_id(), Some(3));
    assert_eq!(Question::Outcome(JobKind::Price, 4).job_id(), Some(4));
    assert_eq!(Question::Start(JobKind::Price).job_id(), None);
    assert_eq!(Question::Timeline.job_id(), None);
    assert_eq!(Question::Save.job_id(), None);
}

#[test]
fn waiting_asks_as_often_as_allowed() {
    let first = JobWait {
        job_id: 3,
        attempt: 1,
        max_attempts: 2,
    };
    let second = JobWait {
        job_id: 3,
        attempt: 2,
        max_attempts: 2,
    };
    let timed_out = |attempts| {
        WaitStep::Failed(Failure::TimedOut {
            job_id: 3,
            attempts,
        })
    };
    assert_eq!(JobWait::begin(3, 0), timed_out(0));
    assert_eq!(JobWait::begin(3, 2), WaitStep::Ask(first));
    assert_eq!(first.on_reply(&status("RUNNING")), WaitStep::Pause(first));
    assert_eq!(first.on_pause(), WaitStep::Ask(second));
    assert_eq!(second.on_reply(&Json::Null), WaitStep::Pause(second));
    assert_eq!(second.on_pause(), timed_out(2));
    for state in ["FINISHED", "FAILED"] {
        assert_eq!(
            first.on_reply(&status(state)),
            WaitStep::Ended {
                state: state.to_string(),
                message: None
            }
        );
    }
    assert!(matches!(
        first.on_reply(&Json::object().with("errors", Json::Null)),
        WaitStep::Failed(Failure::Errors { .. })
    ));
}

#[test]
fn a_question_is_put_into_a_request() {
    let wait = JobWait {
        job_id: -3,
        attempt: 1,
        max_attempts: 2,
    };
    let request = Question::Status(JobKind::Weather, wait).request("query A");
    assert_eq!(request.get("query"), Some(&text("query A")));
    assert_eq!(request.get("operationName"), Some(&text("JobStatus")));
    assert_eq!(
        request.get_in("variables", "jobId"),
        Some(&Json::Number(Number::NegInt(-3)))
    );
    let request = Question::Outcome(JobKind::Price, 4).request("query A");
    assert_eq!(request.get("operationName"), Some(&text("GetJobOutcome")));
    assert_eq!(
        request.get_in("variables", "jobId"),
        Some(&Json::Number(Number::PosInt(4)))
    );
    let plain = [
        (Question::Timeline, "SetOptimizationTimeline"),
        (Question::Save, "SaveModel"),
        (
            Question::Start(JobKind::Optimization),
            "StartOptimization",
        ),
        (
            Question::Start(JobKind::Weather),
            "StartWeatherForecastFetch",
        ),
        (
            Question::Start(JobKind::Price),
            "StartElectricityPriceFetch",
        ),
    ];
    for (question, name) in plain {
        let request = question.request("query B");
        assert_eq!(request.get("query"), Some(&text("query B")));
        assert_eq!(request.get("operationName"), Some(&text(name)));
        assert_eq!(request.get("variables"), Some(&Json::object()));
    }
}
