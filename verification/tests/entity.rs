use hass_backend::home_assistant::{
    control_signal_call, entity_state_url, extract_entity_id, first_control_values,
    is_valid_domain, FirstValue, SignalValue,
};
use hass_backend::json::{Json, Number};

fn signal(name: &str, values: Vec<Json>) -> Json {
    Json::Object(vec![
        ("name".to_string(), Json::Text(name.to_string())),
        ("signal".to_string(), Json::List(values)),
    ])
}

fn num(n: u64) -> Json {
    Json::Number(Number::PosInt(n))
}

#[test]
fn grid_marker_ends_the_entity() {
    assert_eq!(
        extract_entity_id("switch.heater_electricitygrid_switch.heater"),
        "switch.heater"
    );
    assert_eq!(extract_entity_id("light.a_b_electricitygrid"), "light.a_b");
    assert_eq!(
        extract_entity_id("fan.x_electricitygrid_electricitygrid_y"),
        "fan.x"
    );
}

#[test]
fn grid_marker_with_an_unknown_domain_gives_nothing() {
    assert_eq!(extract_entity_id("sensor.heater_electricitygrid_1"), "");
    assert_eq!(extract_entity_id("_electricitygrid_switch.heater"), "");
}

#[test]
fn a_dot_behind_the_grid_marker_counts() {
    assert_eq!(extract_entity_id("switch_electricitygrid_a.b"), "switch");
}

#[test]
fn a_name_without_a_dot_gives_nothing() {
    assert_eq!(extract_entity_id(""), "");
    assert_eq!(extract_entity_id("switch_heater_electricitygrid"), "");
}

#[test]
fn a_repeated_domain_ends_the_entity() {
    assert_eq!(
        extract_entity_id("switch.heater_living_switch.heater_living_s1"),
        "switch.heater_living"
    );
    assert_eq!(
        extract_entity_id("climate.room_climate_flow"),
        "climate.room"
    );
}

#[test]
fn a_name_with_one_domain_is_its_own_entity() {
    assert_eq!(
        extract_entity_id("number.pump_speed_2"),
        "number.pump_speed_2"
    );
    assert_eq!(extract_entity_id("cover.door"), "cover.door");
}

#[test]
fn a_domain_that_only_begins_alike_is_no_repetition() {
    assert_eq!(
        extract_entity_id("fan.a_fantastic_b"),
        "fan.a_fantastic_b"
    );
}

#[test]
fn an_unknown_domain_gives_nothing() {
    assert_eq!(extract_entity_id("sensor.temperature_1"), "");
    assert_eq!(extract_entity_id("my_switch.heater"), "");
    assert_eq!(extract_entity_id(".heater"), "");
}

#[test]
fn an_entity_id_names_itself() {
    let id = extract_entity_id("switch.a_b_switch.c");
    assert_eq!(id, "switch.a_b");
    assert_eq!(extract_entity_id(&id), id);
}

#[test]
fn other_scripts_are_kept() {
    assert_eq!(
        extract_entity_id("switch.lämmitys_électricité_electricitygrid_ö"),
        "switch.lämmitys_électricité"
    );
}

#[test]
fn the_controlled_domains() {
    for domain in ["switch", "light", "climate", "number", "fan", "cover"] {
        assert!(is_valid_domain(domain));
    }
    for domain in ["", "Switch", "switch ", "sensor", "cove"] {
        assert!(!is_valid_domain(domain));
    }
}

#[test]
fn positive_values_are_told_apart_as_floating_point_does() {
    let values = [
        0.0,
        -0.0,
        1.0,
        -1.0,
        0.5,
        1e-300,
        f64::MIN_POSITIVE / 4.0,
        f64::MAX,
        f64::MIN,
        f64::INFINITY,
        f64::NEG_INFINITY,
        f64::NAN,
        -f64::NAN,
    ];
    for value in values {
        let stored = SignalValue {
            bits: value.to_bits(),
        };
        assert_eq!(stored.is_positive(), value > 0.0, "{value}");
        assert_eq!(stored.to_json() != Json::Null, value.is_finite(), "{value}");
    }
}

#[test]
fn a_switch_is_turned_on_and_off() {
    let on = control_signal_call(
        "http://ha/api//",
        "switch.heater",
        SignalValue {
            bits: 2.5f64.to_bits(),
        },
    );
    assert_eq!(on.url, "http://ha/api/services/switch/turn_on");
    assert_eq!(
        on.payload,
        Json::Object(vec![(
            "entity_id".to_string(),
            Json::Text("switch.heater".to_string())
        )])
    );
    let off = control_signal_call(
        "http://ha/api",
        "light.lamp",
        SignalValue {
            bits: 0.0f64.to_bits(),
        },
    );
    assert_eq!(off.url, "http://ha/api/services/light/turn_off");
    let cover = control_signal_call(
        "http://ha/api",
        "cover.door",
        SignalValue {
            bits: (-3.0f64).to_bits(),
        },
    );
    assert_eq!(cover.url, "http://ha/api/services/cover/turn_off");
}

#[test]
fn a_climate_is_set_to_a_temperature() {
    let call = control_signal_call(
        "http://ha/api/",
        "climate.room",
        SignalValue {
            bits: 21.5f64.to_bits(),
        },
    );
    assert_eq!(call.url, "http://ha/api/services/climate/set_temperature");
    assert_eq!(
        call.payload.get("temperature"),
        Some(&Json::Number(Number::Float(21.5f64.to_bits())))
    );
    assert_eq!(
        call.payload.get("entity_id").and_then(|v| v.as_str()),
        Some("climate.room")
    );
    let endless = control_signal_call(
        "http://ha/api/",
        "climate.room",
        SignalValue {
            bits: f64::INFINITY.to_bits(),
        },
    );
    assert_eq!(endless.payload.get("temperature"), Some(&Json::Null));
}

#[test]
fn the_state_of_an_entity_is_found_below_the_base() {
    assert_eq!(
        entity_state_url("http://ha/api", "light.lamp"),
        "http://ha/api/states/light.lamp"
    );
    assert_eq!(
        entity_state_url("http://ha/api///", "light.lamp"),
        "http://ha/api/states/light.lamp"
    );
    assert_eq!(entity_state_url("", "a.b"), "/states/a.b");
}

#[test]
fn first_values_come_from_complete_signals_only() {
    let list = Json::List(vec![
        signal("switch.a_electricitygrid_1", vec![num(3), num(4)]),
        signal("sensor.b_electricitygrid_1", vec![num(5)]),
        signal("light.c", vec![]),
        signal("light.d", vec![Json::Null, num(6)]),
        Json::Object(vec![("name".to_string(), Json::Text("light.e".to_string()))]),
        Json::Null,
        signal("fan.f", vec![Json::Number(Number::Float(1.5f64.to_bits()))]),
    ]);
    assert_eq!(
        first_control_values(&list),
        vec![
            FirstValue {
                entity_id: "switch.a".to_string(),
                value: Number::PosInt(3)
            },
            FirstValue {
                entity_id: "fan.f".to_string(),
                value: Number::Float(1.5f64.to_bits())
            },
        ]
    );
    assert_eq!(first_control_values(&Json::Null), vec![]);
    assert_eq!(first_control_values(&Json::object()), vec![]);
}
