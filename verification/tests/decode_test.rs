use serde_json::Value;
use std::time::Duration;
use the_bus_telemetry::api::current_vehicle_name;
use the_bus_telemetry::api::get_button_by_name;
use the_bus_telemetry::decode::decode_button;
use the_bus_telemetry::decode::decode_lamps;
use the_bus_telemetry::decode::decode_vehicle;
use the_bus_telemetry::decode::decode_world;
use the_bus_telemetry::decode::DecodeError;
use the_bus_telemetry::Reading;
use the_bus_telemetry::RequestConfig;

fn parse(text: &str) -> Value {
    serde_json::from_str(text).expect("invalid json")
}

fn single(reading: Reading) -> f32 {
    f32::from_bits(reading.to_bits())
}

fn names(list: &[&str]) -> Vec<String> {
    list.iter().map(|s| s.to_string()).collect()
}

fn missing(list: &[&str]) -> DecodeError {
    DecodeError::MissingField { field: list[0].to_string(), tried: names(list) }
}

fn mismatch(list: &[&str]) -> DecodeError {
    DecodeError::TypeMismatch { field: list[0].to_string(), tried: names(list) }
}

fn vehicle_with(changed: &str, value: &str) -> Value {
    let mut doc = parse(
        r#"{
            "ActorName": "Bus",
            "VehicleModel": "Model",
            "IgnitionEnabled": "true",
            "EngineStarted": "true",
            "WarningLights": "false",
            "PassengerDoorsOpen": "false",
            "FixingBrake": "false",
            "Speed": 1.5,
            "AllowedSpeed": 50,
            "DisplayFuel": 0.5,
            "IndicatorState": 1,
            "AllLamps": { "LightHeadlight": 1.0, "LightTraveling": 0.0 },
            "Buttons": [ { "Name": "Wiper", "State": "Off" } ]
        }"#,
    );
    let fields = doc.as_object_mut().unwrap();
    if value.is_empty() {
        fields.remove(changed);
    } else {
        fields.insert(changed.to_string(), parse(value));
    }
    doc
}

const LAMPS: [(&str, &[&str]); 8] = [
    ("light_main", &["LightHeadlight", "LightHeadlight1", "Light Headlight"]),
    ("traveller_light", &["LightTraveling", "LightTraveling1"]),
    ("front_door_light", &["Door Button 1", "ButtonLight Door 1"]),
    ("second_door_light", &["Door Button 2", "ButtonLight Door 2"]),
    ("third_door_light", &["Door Button 3", "ButtonLight Door 3"]),
    ("fourth_door_light", &["Door Button 4", "ButtonLight Door 4"]),
    ("led_stop_request", &["LED StopRequest"]),
    ("light_stopbrake", &["ButtonLight BusStopBrake"]),
];

fn lamps_document(used: &[&str; 8], skip: Option<usize>) -> Value {
    let mut text = String::from("{");
    let mut first = true;
    for (i, name) in used.iter().enumerate() {
        if Some(i) == skip {
            continue;
        }
        if !first {
            text.push(',');
        }
        first = false;
        text.push_str(&format!("\"{}\": 0.{}", name, i + 1));
    }
    text.push('}');
    parse(&text)
}

fn own_names() -> [&'static str; 8] {
    let mut used = [""; 8];
    for (i, (_, list)) in LAMPS.iter().enumerate() {
        used[i] = list[0];
    }
    used
}

#[test]
fn every_lamp_reads_the_same_under_each_of_its_names() {
    let plain = decode_lamps(&lamps_document(&own_names(), None)).unwrap();
    assert_eq!(single(plain.light_main), 0.1);
    assert_eq!(single(plain.light_stopbrake), 0.8);
    for (i, (_, list)) in LAMPS.iter().enumerate() {
        for alias in list.iter() {
            let mut used = own_names();
            used[i] = alias;
            let aliased = decode_lamps(&lamps_document(&used, None)).unwrap();
            assert_eq!(aliased, plain, "{}", alias);
        }
    }
}

#[test]
fn the_own_name_counts_before_the_others() {
    let lamps = decode_lamps(&parse(
        r#"{ "Light Headlight": 0.75, "LightHeadlight1": 0.5, "LightHeadlight": 0.25,
             "LightTraveling1": 1.0, "LightTraveling": 0.0 }"#,
    ))
    .unwrap();
    assert_eq!(single(lamps.light_main), 0.25);
    assert_eq!(single(lamps.traveller_light), 0.0);

    let lamps = decode_lamps(&parse(
        r#"{ "Light Headlight": 0.75, "LightHeadlight1": 0.5, "LightTraveling": 0.0 }"#,
    ))
    .unwrap();
    assert_eq!(single(lamps.light_main), 0.5);
}

#[test]
fn a_lamp_that_may_be_absent_reads_zero() {
    for i in 2..8 {
        let lamps = decode_lamps(&lamps_document(&own_names(), Some(i))).unwrap();
        let readings = [
            lamps.light_main,
            lamps.traveller_light,
            lamps.front_door_light,
            lamps.second_door_light,
            lamps.third_door_light,
            lamps.fourth_door_light,
            lamps.led_stop_request,
            lamps.light_stopbrake,
        ];
        assert_eq!(readings[i].to_bits(), 0, "{}", LAMPS[i].0);
        assert_eq!(single(readings[i]), 0.0);
        assert!(single(readings[0]) > 0.0);
    }
    let doc = vehicle_with("AllLamps", r#"{ "LightHeadlight": 1.0, "LightTraveling": 0.5 }"#);
    let vehicle = decode_vehicle(&doc).unwrap();
    assert_eq!(single(vehicle.all_lamps.third_door_light), 0.0);
    assert_eq!(single(vehicle.all_lamps.led_stop_request), 0.0);
}

#[test]
fn a_head_lamp_must_be_there() {
    assert_eq!(
        decode_lamps(&lamps_document(&own_names(), Some(0))),
        Err(missing(LAMPS[0].1))
    );
    assert_eq!(
        decode_lamps(&lamps_document(&own_names(), Some(1))),
        Err(missing(LAMPS[1].1))
    );
    assert_eq!(decode_lamps(&parse("{}")), Err(missing(LAMPS[0].1)));
    assert_eq!(decode_lamps(&parse("[1.0, 0.5]")), Err(missing(LAMPS[0].1)));
}

#[test]
fn a_lamp_must_be_a_number() {
    for value in ["\"1.0\"", "null", "true", "[1.0]", "{}"] {
        let doc = parse(&format!(r#"{{ "LightHeadlight": 1.0, "LightTraveling": {} }}"#, value));
        assert_eq!(decode_lamps(&doc), Err(mismatch(LAMPS[1].1)), "{}", value);
        let doc = parse(&format!(
            r#"{{ "LightHeadlight": 1.0, "LightTraveling": 1, "ButtonLight Door 3": {} }}"#,
            value
        ));
        assert_eq!(decode_lamps(&doc), Err(mismatch(LAMPS[4].1)), "{}", value);
    }
}

#[test]
fn the_first_field_at_fault_is_reported() {
    let doc = parse(r#"{ "LightTraveling": "bright", "Door Button 1": "dim" }"#);
    assert_eq!(decode_lamps(&doc), Err(missing(LAMPS[0].1)));
    let doc = parse(r#"{ "LightHeadlight": 1, "LightTraveling": "bright", "Door Button 1": "dim" }"#);
    assert_eq!(decode_lamps(&doc), Err(mismatch(LAMPS[1].1)));
    assert_eq!(
        decode_vehicle(&parse(r#"{ "ActorName": "TestVehicle" }"#)),
        Err(missing(&["VehicleModel"]))
    );
    assert_eq!(decode_vehicle(&parse("{}")), Err(missing(&["ActorName"])));
    assert_eq!(decode_vehicle(&parse("null")), Err(missing(&["ActorName"])));
}

#[test]
fn every_required_field_of_a_vehicle_is_missed() {
    for field in [
        "ActorName",
        "VehicleModel",
        "IgnitionEnabled",
        "EngineStarted",
        "WarningLights",
        "PassengerDoorsOpen",
        "FixingBrake",
        "Speed",
        "AllowedSpeed",
        "DisplayFuel",
        "IndicatorState",
        "AllLamps",
    ] {
        assert_eq!(decode_vehicle(&vehicle_with(field, "")), Err(missing(&[field])), "{}", field);
    }
}

#[test]
fn every_field_of_a_vehicle_has_its_type() {
    for field in [
        "ActorName",
        "VehicleModel",
        "IgnitionEnabled",
        "EngineStarted",
        "WarningLights",
        "PassengerDoorsOpen",
        "FixingBrake",
    ] {
        for value in ["true", "1", "null", "[\"true\"]"] {
            assert_eq!(
                decode_vehicle(&vehicle_with(field, value)),
                Err(mismatch(&[field])),
                "{} as {}",
                field,
                value
            );
        }
    }
    for field in ["Speed", "AllowedSpeed", "DisplayFuel"] {
        for value in ["\"12\"", "null", "false"] {
            assert_eq!(
                decode_vehicle(&vehicle_with(field, value)),
                Err(mismatch(&[field])),
                "{} as {}",
                field,
                value
            );
        }
    }
    assert_eq!(
        decode_vehicle(&vehicle_with("Buttons", "\"none\"")),
        Err(mismatch(&["Buttons"]))
    );
    assert_eq!(decode_vehicle(&vehicle_with("Buttons", "null")), Err(mismatch(&["Buttons"])));
    assert_eq!(
        decode_vehicle(&vehicle_with("AllLamps", "\"off\"")),
        Err(missing(LAMPS[0].1))
    );
}

#[test]
fn the_indicator_is_a_small_integer() {
    for (value, expected) in [("0", 0), ("-1", -1), ("1", 1), ("2", 2), ("-5", -5), ("100", 100)] {
        let vehicle = decode_vehicle(&vehicle_with("IndicatorState", value)).unwrap();
        assert_eq!(vehicle.indicator_state, expected);
    }
    assert_eq!(
        decode_vehicle(&vehicle_with("IndicatorState", "127")).unwrap().indicator_state,
        127
    );
    assert_eq!(
        decode_vehicle(&vehicle_with("IndicatorState", "-128")).unwrap().indicator_state,
        -128
    );
    for value in ["128", "-129", "1.0", "0.5", "\"1\"", "null", "18446744073709551615"] {
        assert_eq!(
            decode_vehicle(&vehicle_with("IndicatorState", value)),
            Err(mismatch(&["IndicatorState"])),
            "{}",
            value
        );
    }
}

#[test]
fn numbers_become_singles() {
    let vehicle = decode_vehicle(&vehicle_with("Speed", "0.1")).unwrap();
    assert_eq!(vehicle.speed.to_bits(), 0.1f32.to_bits());
    let vehicle = decode_vehicle(&vehicle_with("Speed", "-3")).unwrap();
    assert_eq!(single(vehicle.speed), -3.0);
    let vehicle = decode_vehicle(&vehicle_with("Speed", "16777217")).unwrap();
    assert_eq!(single(vehicle.speed), 16777216.0);
    let vehicle = decode_vehicle(&vehicle_with("Speed", "1e39")).unwrap();
    assert_eq!(single(vehicle.speed), f32::INFINITY);
    let vehicle = decode_vehicle(&vehicle_with("Speed", "1e-50")).unwrap();
    assert_eq!(single(vehicle.speed), 0.0);
}

#[test]
fn buttons_may_be_absent() {
    let vehicle = decode_vehicle(&vehicle_with("Buttons", "")).unwrap();
    assert!(vehicle.buttons.is_empty());
    let vehicle = decode_vehicle(&vehicle_with("Buttons", "[]")).unwrap();
    assert!(vehicle.buttons.is_empty());
}

#[test]
fn buttons_keep_their_order_and_their_fields() {
    let doc = vehicle_with(
        "Buttons",
        r#"[
            { "Name": "B", "Tooltip": "tip", "State": "On", "Value": "1",
              "Actions": ["Press", "Release"], "States": ["On", "Off"], "Extra": 5 },
            { "Name": "A" },
            { "Name": "B", "State": "Off" }
        ]"#,
    );
    let vehicle = decode_vehicle(&doc).unwrap();
    assert_eq!(vehicle.buttons.len(), 3);
    let b = &vehicle.buttons[0];
    assert_eq!(b.name, "B");
    assert_eq!(b.tooltip, "tip");
    assert_eq!(b.state, "On");
    assert_eq!(b.value, "1");
    assert_eq!(b.actions, names(&["Press", "Release"]));
    assert_eq!(b.states, names(&["On", "Off"]));
    let a = &vehicle.buttons[1];
    assert_eq!(a.name, "A");
    assert_eq!(a.tooltip, "");
    assert_eq!(a.state, "");
    assert_eq!(a.value, "");
    assert!(a.actions.is_empty());
    assert!(a.states.is_empty());
    assert_eq!(vehicle.buttons[2].state, "Off");
}

#[test]
fn a_button_at_fault_fails_the_vehicle() {
    let doc = vehicle_with("Buttons", r#"[ { "Name": "A" }, { "State": "On" }, { "Name": 3 } ]"#);
    assert_eq!(decode_vehicle(&doc), Err(missing(&["Name"])));
    let doc = vehicle_with("Buttons", r#"[ { "Name": "A" }, { "Name": 3 }, { "State": "On" } ]"#);
    assert_eq!(decode_vehicle(&doc), Err(mismatch(&["Name"])));
    let doc = vehicle_with("Buttons", r#"[ { "Name": "A" }, "B" ]"#);
    assert_eq!(decode_vehicle(&doc), Err(missing(&["Name"])));
}

#[test]
fn a_button_has_its_types() {
    assert_eq!(decode_button(&parse(r#"{ "State": "On" }"#)), Err(missing(&["Name"])));
    for field in ["Tooltip", "State", "Value"] {
        let doc = parse(&format!(r#"{{ "Name": "A", "{}": 1 }}"#, field));
        assert_eq!(decode_button(&doc), Err(mismatch(&[field])));
    }
    for field in ["Actions", "States"] {
        for value in ["\"Press\"", "[\"Press\", 1]", "null", "[[\"Press\"]]"] {
            let doc = parse(&format!(r#"{{ "Name": "A", "{}": {} }}"#, field, value));
            assert_eq!(decode_button(&doc), Err(mismatch(&[field])), "{} as {}", field, value);
        }
    }
    let button = decode_button(&parse(r#"{ "Name": "A", "Actions": [] }"#)).unwrap();
    assert_eq!(button.name, "A");
    assert!(button.actions.is_empty());
}

#[test]
fn a_world_needs_all_its_fields() {
    let text = r#"{
        "LevelName": "Castrop",
        "DateTime": "2026-01-01T09:43:48",
        "TimeFactor": 2.5,
        "BaseLatitude": 51.5,
        "BaseLongitude": -7.25
    }"#;
    let world = decode_world(&parse(text)).unwrap();
    assert_eq!(world.level_name, "Castrop");
    assert_eq!(world.date_time, "2026-01-01T09:43:48");
    assert_eq!(single(world.time_factor), 2.5);
    assert_eq!(single(world.base_latitude), 51.5);
    assert_eq!(single(world.base_longitude), -7.25);
    for field in ["LevelName", "DateTime", "TimeFactor", "BaseLatitude", "BaseLongitude"] {
        let mut doc = parse(text);
        doc.as_object_mut().unwrap().remove(field);
        assert_eq!(decode_world(&doc), Err(missing(&[field])));
        let mut doc = parse(text);
        doc.as_object_mut().unwrap().insert(field.to_string(), Value::Bool(true));
        assert_eq!(decode_world(&doc), Err(mismatch(&[field])));
    }
}

#[test]
fn the_first_button_of_a_name_gives_the_state() {
    let doc = vehicle_with(
        "Buttons",
        r#"[
            { "Name": "Wiper Interval", "State": "Short" },
            { "Name": "Wiper", "State": "Off" },
            { "Name": "Wiper", "State": "On" }
        ]"#,
    );
    assert_eq!(get_button_by_name(&doc, "Wiper"), "Off");
    assert_eq!(get_button_by_name(&doc, "Wiper Interval"), "Short");
    assert_eq!(get_button_by_name(&doc, "Wip"), "");
    assert_eq!(get_button_by_name(&doc, ""), "");
}

#[test]
fn a_document_without_usable_buttons_gives_no_state() {
    assert_eq!(get_button_by_name(&vehicle_with("Buttons", ""), "Wiper"), "");
    assert_eq!(get_button_by_name(&vehicle_with("Buttons", "\"Wiper\""), "Wiper"), "");
    assert_eq!(get_button_by_name(&parse("[]"), "Wiper"), "");
    let doc = vehicle_with(
        "Buttons",
        r#"[ 5, { "State": "Lost" }, { "Name": 7, "State": "Lost" },
             { "Name": "Wiper", "State": 3 }, { "Name": "Wiper", "State": "On" } ]"#,
    );
    // the first entry of the name counts, though its state is no text
    assert_eq!(get_button_by_name(&doc, "Wiper"), "");
    let doc = vehicle_with("Buttons", r#"[ { "Name": "Wiper" } ]"#);
    assert_eq!(get_button_by_name(&doc, "Wiper"), "");
}

#[test]
fn the_player_names_the_vehicle_while_driving() {
    let player = parse(r#"{ "Mode": "Vehicle", "CurrentVehicle": "BP_Bus_C_1" }"#);
    assert_eq!(current_vehicle_name(&player), "BP_Bus_C_1");
    for text in [
        r#"{ "Mode": "Walking", "CurrentVehicle": "BP_Bus_C_1" }"#,
        r#"{ "Mode": "vehicle", "CurrentVehicle": "BP_Bus_C_1" }"#,
        r#"{ "CurrentVehicle": "BP_Bus_C_1" }"#,
        r#"{ "Mode": 1, "CurrentVehicle": "BP_Bus_C_1" }"#,
        r#"{ "Mode": "Vehicle" }"#,
        r#"{ "Mode": "Vehicle", "CurrentVehicle": null }"#,
        r#"[]"#,
    ] {
        assert_eq!(current_vehicle_name(&parse(text)), "", "{}", text);
    }
}

#[test]
fn the_usual_request_goes_to_this_machine() {
    let config = RequestConfig::new();
    assert_eq!(config.host, "127.0.0.1");
    assert_eq!(config.port, "37337");
    assert_eq!(config.vehicle_name, "Current");
    assert_eq!(config.timeout, Duration::from_millis(300));
    assert!(!config.debugging);
}

#[test]
fn each_setting_changes_its_own_field() {
    let config = RequestConfig::new().host("bus.example".to_string());
    assert_eq!(config.host, "bus.example");
    assert_eq!(config.port, "37337");
    let config = config.port("8080".to_string());
    assert_eq!(config.port, "8080");
    assert_eq!(config.host, "bus.example");
    let config = config.vehicle_name("BP_Bus_C_1".to_string());
    assert_eq!(config.vehicle_name, "BP_Bus_C_1");
    let config = config.timeout(Duration::from_secs(2));
    assert_eq!(config.timeout, Duration::from_secs(2));
    assert!(!config.debugging);
    let config = config.debugging(true);
    assert!(config.debugging);
    assert_eq!(config.host, "bus.example");
    assert_eq!(config.port, "8080");
    assert_eq!(config.vehicle_name, "BP_Bus_C_1");
    assert_eq!(config.timeout, Duration::from_secs(2));
}

#[test]
fn addresses_are_put_together() {
    let config = RequestConfig::new();
    assert_eq!(config.url("player"), "http://127.0.0.1:37337/player");
    assert_eq!(config.vehicle_path(), "vehicles/Current");
    assert_eq!(config.command_path("horn"), "vehicles/Current/horn");
    assert_eq!(
        config.url(&config.command_path("horn")),
        "http://127.0.0.1:37337/vehicles/Current/horn"
    );
    let config = config.host("10.0.0.7".to_string()).port("80".to_string());
    let config = config.vehicle_name("BP_Bus_C_1".to_string());
    assert_eq!(config.url(&config.vehicle_path()), "http://10.0.0.7:80/vehicles/BP_Bus_C_1");
    assert_eq!(config.url(""), "http://10.0.0.7:80/");
}
