use hass_backend::graphql::{
    job_outcome, job_status, request_payload, request_variables, save_model,
    set_optimization_timeline, start_job, Failure, JobKind, JobStatus, Operation, Subject,
};
use hass_backend::json::{Json, Number};

fn text(s: &str) -> Json {
    Json::Text(s.to_string())
}

fn data(name: &str, value: Json) -> Json {
    Json::object().with("data", Json::object().with(name, value))
}

fn errors() -> Json {
    Json::object().with("errors", text("no"))
}

#[test]
fn a_payload_names_its_operation() {
    let payload = request_payload("query", Some("JobStatus"), request_variables(Some(-7)));
    assert_eq!(payload.get("query"), Some(&text("query")));
    assert_eq!(payload.get("operationName"), Some(&text("JobStatus")));
    assert_eq!(
        payload.get_in("variables", "jobId"),
        Some(&Json::Number(Number::NegInt(-7)))
    );
    let plain = request_payload("query", None, request_variables(None));
    assert_eq!(plain.get("operationName"), None);
    assert_eq!(plain.get("variables"), Some(&Json::object()));
}

#[test]
fn a_saved_model_has_no_message() {
    assert_eq!(save_model(&data("saveModel", Json::object())), Ok(()));
    assert_eq!(save_model(&Json::Null), Ok(()));
    assert_eq!(
        save_model(&data(
            "saveModel",
            Json::object().with("message", Json::Null)
        )),
        Ok(())
    );
    assert_eq!(
        save_model(&data(
            "saveModel",
            Json::object().with("message", text("disk full"))
        )),
        Err(Failure::ModelNotSaved("disk full".to_string()))
    );
}

#[test]
fn errors_are_no_success() {
    let failed = |operation, subject| Failure::Errors {
        operation,
        subject,
        errors: text("no"),
    };
    assert_eq!(
        save_model(&errors()),
        Err(failed(Operation::SaveModel, Subject::Nothing))
    );
    assert_eq!(
        set_optimization_timeline(&errors()),
        Err(failed(Operation::SetOptimizationTimeline, Subject::Nothing))
    );
    assert_eq!(
        start_job(JobKind::Weather, &errors()),
        Err(failed(
            Operation::StartWeatherForecastFetch,
            Subject::Nothing
        ))
    );
    assert_eq!(
        job_status(4, &errors()),
        Err(failed(Operation::JobStatus, Subject::Job(4)))
    );
    assert_eq!(
        job_outcome(JobKind::Optimization, 4, &errors()),
        Err(failed(Operation::GetJobOutcome, Subject::Job(4)))
    );
    assert_eq!(
        job_outcome(JobKind::Price, 4, &errors()),
        Err(failed(Operation::GetJobOutcome, Subject::PriceJob(4)))
    );
}

#[test]
fn errors_that_are_null_still_count() {
    let reply = data("saveModel", Json::Null).with("errors", Json::Null);
    assert!(matches!(save_model(&reply), Err(Failure::Errors { .. })));
}

#[test]
fn a_time_line_is_set_without_validation_errors() {
    let reply = |list| data("updateTimeLine", Json::object().with("errors", list));
    assert_eq!(
        set_optimization_timeline(&reply(Json::List(vec![]))),
        Ok(())
    );
    assert_eq!(
        set_optimization_timeline(&reply(Json::List(vec![text("bad")]))),
        Err(Failure::TimelineRejected {
            errors: Json::List(vec![text("bad")])
        })
    );
    assert_eq!(
        set_optimization_timeline(&reply(Json::Null)),
        Err(Failure::TimelineUnreadable)
    );
    assert_eq!(
        set_optimization_timeline(&Json::object()),
        Err(Failure::TimelineUnreadable)
    );
}

#[test]
fn a_started_job_has_a_number() {
    let kinds = [
        (JobKind::Optimization, "startOptimization"),
        (JobKind::Weather, "startWeatherForecastFetch"),
        (JobKind::Price, "startElectricityPriceFetch"),
    ];
    for (kind, field) in kinds {
        assert_eq!(
            start_job(kind, &data(field, Json::Number(Number::PosInt(12)))),
            Ok(12)
        );
        assert_eq!(
            start_job(kind, &data(field, text("12"))),
            Err(Failure::NoJob(kind))
        );
        assert_eq!(
            start_job(kind, &data("other", Json::Number(Number::PosInt(12)))),
            Err(Failure::NoJob(kind))
        );
    }
}

#[test]
fn a_status_without_a_state_is_unknown() {
    assert_eq!(
        job_status(1, &data("jobStatus", Json::object())),
        Ok(JobStatus {
            state: "UNKNOWN".to_string(),
            message: None
        })
    );
    assert_eq!(
        job_status(
            1,
            &data(
                "jobStatus",
                Json::object()
                    .with("state", text("RUNNING"))
                    .with("message", text("half"))
            )
        ),
        Ok(JobStatus {
            state: "RUNNING".to_string(),
            message: Some("half".to_string())
        })
    );
}

#[test]
fn an_outcome_must_have_its_type() {
    let typed = |name: &str| Json::object().with("__typename", text(name));
    let kinds = [
        (JobKind::Optimization, "OptimizationOutcome"),
        (JobKind::Weather, "WeatherForecastOutcome"),
        (JobKind::Price, "ElectricityPriceOutcome"),
    ];
    for (kind, name) in kinds {
        let outcome = typed(name).with("time", Json::List(vec![]));
        assert_eq!(
            job_outcome(kind, 1, &data("jobOutcome", outcome.copy())),
            Ok(Some(outcome))
        );
        assert_eq!(
            job_outcome(kind, 1, &data("jobOutcome", typed("Other"))),
            Ok(None)
        );
        assert_eq!(job_outcome(kind, 1, &data("jobOutcome", Json::Null)), Ok(None));
        assert_eq!(
            job_outcome(kind, 1, &Json::object()),
            Err(Failure::OutcomeMissing)
        );
    }
}

#[test]
fn failures_are_reported_in_words() {
    let errors = |operation, subject| Failure::Errors {
        operation,
        subject,
        errors: Json::Null,
    };
    let cases = [
        (Failure::Transport("lost".to_string()), "lost"),
        (
            errors(Operation::SaveModel, Subject::Nothing),
            "GraphQL errors in SaveModel: why",
        ),
        (
            errors(Operation::JobStatus, Subject::Job(-3)),
            "GraphQL errors in JobStatus for job -3: why",
        ),
        (
            errors(Operation::GetJobOutcome, Subject::PriceJob(30)),
            "GraphQL errors in GetJobOutcome for price job 30: why",
        ),
        (
            Failure::ModelNotSaved("full".to_string()),
            "saveModel failed: full",
        ),
        (
            Failure::TimelineUnreadable,
            "SetOptimizationTimeline returned an invalid response",
        ),
        (
            Failure::TimelineRejected {
                errors: Json::Null,
            },
            "SetOptimizationTimeline validation errors: why",
        ),
        (
            Failure::NoJob(JobKind::Price),
            "startElectricityPriceFetch did not return a valid jobId",
        ),
        (Failure::OutcomeMissing, "jobOutcome missing in response"),
        (
            Failure::TimedOut {
                job_id: 5,
                attempts: 300,
            },
            "Timeout waiting for job 5 to finish (reached 300 attempts)",
        ),
        (
            Failure::JobEnded {
                kind: JobKind::Optimization,
                job_id: 5,
                state: "FAILED".to_string(),
                message: None,
            },
            "Job 5 ended in state FAILED, message=None",
        ),
    ];
    for (failure, expected) in cases {
        assert_eq!(failure.report("why"), expected);
    }
}

#[test]
fn the_message_of_a_job_is_quoted() {
    for message in ["plain", "say \"no\"", "two\nlines", "tab\tand \\", "ä\u{7}"] {
        let failure = Failure::JobEnded {
            kind: JobKind::Weather,
            job_id: 9,
            state: "FAILED".to_string(),
            message: Some(message.to_string()),
        };
        assert_eq!(
            failure.report(""),
            format!(
                "Weather job 9 ended in state FAILED, message={:?}",
                Some(message.to_string())
            )
        );
    }
    let failure = Failure::JobEnded {
        kind: JobKind::Price,
        job_id: 9,
        state: "FAILED".to_string(),
        message: Some("no \"price\"".to_string()),
    };
    assert_eq!(
        failure.report(""),
        "Electricity price job 9 ended in state FAILED, message=Some(\"no \\\"price\\\"\")"
    );
}
