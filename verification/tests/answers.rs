use hass_backend::backend::Backend;
use hass_backend::feed::Feed;
use hass_backend::http::{
    api_url, entity_state, graphql_proxy_reply, ha_proxy_reply, ha_state_reply, health_url, hertta_health_reply,
    set_ha_api_key_reply, spa_page, states_url, HttpReply, TextUpstream, Upstream,
};
use hass_backend::json::Json;
use hass_backend::schedule::SchedulePlan;
use hass_backend::settings::Settings;

fn text(s: &str) -> Json {
    Json::Text(s.to_string())
}

fn status(s: &str) -> Json {
    Json::object().with("status", text(s))
}

fn signals(names: &[&str]) -> Json {
    let list = names
        .iter()
        .map(|name| {
            Json::object()
                .with("name", text(name))
                .with("signal", Json::List(vec![]))
        })
        .collect();
    Json::object().with("controlSignals", Json::List(list))
}

#[test]
fn the_graphql_service_is_passed_through() {
    assert_eq!(
        graphql_proxy_reply(Upstream::Replied {
            status: 418,
            body: Some(text("tea"))
        }),
        HttpReply {
            status: 418,
            body: text("tea")
        }
    );
    let errors = |message: &str| {
        Json::object().with(
            "errors",
            Json::List(vec![Json::object().with("message", text(message))]),
        )
    };
    assert_eq!(
        graphql_proxy_reply(Upstream::Replied {
            status: 200,
            body: None
        }),
        HttpReply {
            status: 200,
            body: errors("Hertta returned a non-JSON response")
        }
    );
    assert_eq!(
        graphql_proxy_reply(Upstream::Unreachable("refused".to_string())),
        HttpReply {
            status: 502,
            body: errors("refused")
        }
    );
}

#[test]
fn home_assistant_is_passed_through() {
    let message = |message: &str| Json::object().with("message", text(message));
    assert_eq!(
        ha_proxy_reply(Upstream::Replied {
            status: 401,
            body: Some(Json::Null)
        }),
        HttpReply {
            status: 401,
            body: Json::Null
        }
    );
    assert_eq!(
        ha_proxy_reply(Upstream::Replied {
            status: 200,
            body: None
        }),
        HttpReply {
            status: 200,
            body: message("Home Assistant returned a non-JSON response")
        }
    );
    assert_eq!(
        ha_proxy_reply(Upstream::Unreachable("refused".to_string())),
        HttpReply {
            status: 502,
            body: message("refused")
        }
    );
}

#[test]
fn the_health_of_the_service_is_judged_by_its_status() {
    for (code, verdict) in [
        (0, "error"),
        (99, "error"),
        (199, "error"),
        (200, "ok"),
        (299, "ok"),
        (300, "error"),
        (503, "error"),
        (1200, "error"),
    ] {
        assert_eq!(
            hertta_health_reply(TextUpstream::Replied {
                status: code,
                text: Some("fine".to_string())
            }),
            HttpReply {
                status: code,
                body: status(verdict).with("body", text("fine"))
            }
        );
    }
    assert_eq!(
        hertta_health_reply(TextUpstream::Replied {
            status: 200,
            text: None
        })
        .body,
        status("ok").with("body", text(""))
    );
    assert_eq!(
        hertta_health_reply(TextUpstream::Unreachable("refused".to_string())),
        HttpReply {
            status: 502,
            body: status("error").with("message", text("refused"))
        }
    );
}

#[test]
fn the_state_of_an_entity_is_answered() {
    assert_eq!(
        ha_state_reply("light.a", Ok(text("on"))),
        status("ok")
            .with("entity_id", text("light.a"))
            .with("data", text("on"))
    );
    assert_eq!(
        ha_state_reply("light.a", Err("gone".to_string())),
        status("error")
            .with("entity_id", text("light.a"))
            .with("message", text("gone"))
    );
}

#[test]
fn fixed_answers() {
    assert_eq!(
        set_ha_api_key_reply(),
        status("ok").with(
            "message",
            text("Use HASS_TOKEN when starting the container to set the Home Assistant token.")
        )
    );
    assert_eq!(spa_page(Some("<p>".to_string())), "<p>");
    assert_eq!(
        spa_page(None),
        "<h1>UI not found</h1><p>/web/index.html missing</p>"
    );
}

#[test]
fn addresses_are_made_from_the_base() {
    assert_eq!(api_url("http://ha/api"), "http://ha/api/");
    assert_eq!(api_url("http://ha/api//"), "http://ha/api/");
    assert_eq!(states_url("http://ha/api/"), "http://ha/api/states");
    assert_eq!(
        health_url("http://localhost:3030/graphql"),
        "http://localhost:3030/health"
    );
    assert_eq!(health_url("http://h/graphql/graphql"), "http://h/health");
    assert_eq!(health_url("http://h/graphql/"), "http://h/graphql//health");
    assert_eq!(health_url("http://h"), "http://h/health");
}

#[test]
fn settings_have_defaults_but_for_the_token() {
    let settings = Settings::resolve(None, None, Some("secret".to_string())).unwrap();
    assert_eq!(settings.graphql_url, "http://localhost:3030/graphql");
    assert_eq!(settings.ha_base_url, "http://supervisor/core/api");
    assert_eq!(settings.ha_token, "secret");
    let settings = Settings::resolve(
        Some("http://g".to_string()),
        Some("http://h".to_string()),
        Some(String::new()),
    )
    .unwrap();
    assert_eq!(settings.graphql_url, "http://g");
    assert_eq!(settings.ha_base_url, "http://h");
    assert_eq!(
        Settings::resolve(None, None, None),
        Err("HASS_TOKEN not set (export it from run.sh)".to_string())
    );
}

#[test]
fn a_feed_answers_its_latest_outcome() {
    let mut feed = Feed::new();
    assert_eq!(feed.reply(), status("no_data"));
    assert_eq!(feed.delay_secs(), 30);
    feed.record(Ok(None));
    assert_eq!(feed.reply(), status("no_data"));
    feed.record(Err("down".to_string()));
    assert_eq!(
        feed.reply(),
        status("error").with("message", text("down"))
    );
    assert_eq!(feed.delay_secs(), 30);
    feed.record(Err("still down".to_string()));
    feed.record(Ok(None));
    assert_eq!(
        feed.reply(),
        status("error").with("message", text("still down"))
    );
    feed.record(Ok(Some(text("sunny"))));
    assert_eq!(feed.reply(), status("ok").with("data", text("sunny")));
    assert_eq!(feed.error, None);
    assert_eq!(feed.delay_secs(), 3600);
    feed.record(Err("down again".to_string()));
    assert_eq!(feed.reply(), status("ok").with("data", text("sunny")));
    assert_eq!(feed.error, Some("down again".to_string()));
    assert_eq!(feed.delay_secs(), 3600);
    feed.record(Ok(Some(text("rainy"))));
    assert_eq!(feed.reply(), status("ok").with("data", text("rainy")));
}

#[test]
fn the_hourly_optimisation_is_started_once() {
    let mut backend = Backend::new();
    let refresh = backend.refresh_optimization();
    assert!(!refresh.start);
    assert_eq!(refresh.body, status("not_running"));
    let first = backend.start_hourly();
    assert!(first.start);
    assert_eq!(first.body, status("started"));
    let second = backend.start_hourly();
    assert!(!second.start);
    assert_eq!(second.body, status("already_running"));
    let refresh = backend.refresh_optimization();
    assert!(refresh.start);
    assert_eq!(refresh.body, status("refresh_started"));
}

#[test]
fn a_stop_ends_what_a_start_began() {
    let mut backend = Backend::new();
    backend.start_hourly();
    backend.record_optimization(Some(signals(&["switch.a_electricitygrid_1"])));
    assert!(backend.control_running);
    let stopped = backend.stop_hourly();
    assert!(stopped.stop_optimization);
    assert!(stopped.stop_control);
    assert_eq!(stopped.body, status("stopped"));
    let again = backend.stop_hourly();
    assert!(!again.stop_optimization);
    assert!(!again.stop_control);
    assert_eq!(again.body, status("not_running"));
}

#[test]
fn a_stop_without_a_start_leaves_the_schedule_alone() {
    let mut backend = Backend::new();
    backend.record_optimization(Some(signals(&["switch.a_electricitygrid_1"])));
    let stopped = backend.stop_hourly();
    assert!(!stopped.stop_control);
    assert!(backend.control_running);
}

#[test]
fn the_other_tasks_are_started_once() {
    let mut backend = Backend::new();
    assert!(backend.start_weather().start);
    assert_eq!(backend.start_weather().body, status("already_running"));
    assert!(backend.start_price().start);
    let again = backend.start_price();
    assert!(!again.start);
    assert_eq!(again.body, status("already_running"));
    assert!(!backend.optimization_running);
}

#[test]
fn the_latest_control_signals_are_answered() {
    let mut backend = Backend::new();
    assert_eq!(backend.control_signals_reply(), status("no_data"));
    assert_eq!(backend.record_optimization(None), SchedulePlan::Keep);
    let first = signals(&["switch.a_electricitygrid_1"]);
    assert!(matches!(
        backend.record_optimization(Some(first.copy())),
        SchedulePlan::Replace(_)
    ));
    assert_eq!(
        backend.control_signals_reply(),
        status("ok").with("data", first.copy())
    );
    assert_eq!(
        backend.record_optimization(Some(Json::object().with("controlSignals", Json::Null))),
        SchedulePlan::Keep
    );
    assert!(backend.control_running);
    assert_eq!(
        backend.record_optimization(Some(Json::object())),
        SchedulePlan::Cancel
    );
    assert!(!backend.control_running);
    assert_eq!(
        backend.control_signals_reply(),
        status("ok").with("data", first)
    );
    let second = signals(&["sensor.b"]);
    assert_eq!(
        backend.record_optimization(Some(second.copy())),
        SchedulePlan::Cancel
    );
    assert_eq!(
        backend.control_signals_reply(),
        status("ok").with("data", second)
    );
}

#[test]
fn only_a_success_holds_a_state() {
    for status in [200, 201, 299] {
        assert_eq!(entity_state(status, Ok(text("on"))), Ok(text("on")));
        assert_eq!(
            entity_state(status, Err("no document".to_string())),
            Err("no document".to_string())
        );
    }
    assert_eq!(
        entity_state(304, Ok(text("on"))),
        Err("HTTP status 304".to_string())
    );
    assert_eq!(
        entity_state(199, Ok(Json::Null)),
        Err("HTTP status 199".to_string())
    );
    assert_eq!(
        entity_state(300, Ok(Json::Null)),
        Err("HTTP status 300".to_string())
    );
    assert_eq!(
        entity_state(404, Err("not found".to_string())),
        Err("not found".to_string())
    );
}
