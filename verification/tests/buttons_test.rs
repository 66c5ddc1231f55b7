use the_bus_telemetry::api::ApiButton;
use the_bus_telemetry::api::ApiLamps;
use the_bus_telemetry::api::ApiVehicleType;
use the_bus_telemetry::Reading;

fn button(name: &str, state: &str) -> ApiButton {
    ApiButton {
        name: name.to_string(),
        tooltip: format!("{} tip", name),
        state: state.to_string(),
        value: "v".to_string(),
        actions: vec!["Press".to_string()],
        states: vec![state.to_string(), "Other".to_string()],
    }
}

fn vehicle(buttons: Vec<ApiButton>) -> ApiVehicleType {
    let zero = Reading::zero();
    ApiVehicleType {
        actor_name: "Bus".to_string(),
        vehicle_model: "Model".to_string(),
        ignition_enabled: "true".to_string(),
        engine_started: "false".to_string(),
        warning_lights: "false".to_string(),
        passenger_doors_open: "false".to_string(),
        fixing_brake: "true".to_string(),
        speed: Reading::from_bits(1.5f32.to_bits()),
        allowed_speed: zero,
        display_fuel: zero,
        indicator_state: 1,
        all_lamps: ApiLamps {
            light_main: zero,
            traveller_light: zero,
            front_door_light: zero,
            second_door_light: zero,
            third_door_light: zero,
            fourth_door_light: zero,
            led_stop_request: zero,
            light_stopbrake: zero,
        },
        buttons,
    }
}

fn wipers() -> ApiVehicleType {
    vehicle(vec![
        button("Door 1", "Closed"),
        button("Wiper", "Off"),
        button("Wiper Interval", "Short"),
        button("Gear Selector", "Drive"),
        button("Wiper", "On"),
    ])
}

#[test]
fn the_first_button_whose_name_holds_the_part_counts() {
    let v = vehicle(vec![button("Wiper", "Off"), button("Wiper Interval", "Short")]);
    assert_eq!(v.get_button_state_contains("Wip"), "Off");
    let v = vehicle(vec![button("Wiper Interval", "Short"), button("Wiper", "Off")]);
    assert_eq!(v.get_button_state_contains("Wip"), "Short");
    assert_eq!(v.get_button_state_contains("Wiper"), "Short");
    assert_eq!(v.get_button_state_contains("Interval"), "Short");
    assert_eq!(v.get_button_state_contains("per I"), "Short");
    assert_eq!(v.get_button_state_contains("wip"), "");
    assert_eq!(v.get_button_state_contains("Wiper Intervals"), "");
}

#[test]
fn the_empty_part_is_held_by_every_name() {
    assert_eq!(wipers().get_button_state_contains(""), "Closed");
    assert_eq!(vehicle(Vec::new()).get_button_state_contains(""), "");
}

#[test]
fn the_first_button_of_a_name_counts() {
    let v = wipers();
    assert_eq!(v.get_button_state("Wiper"), "Off");
    assert_eq!(v.get_button_state("Wiper Interval"), "Short");
    assert_eq!(v.get_button_state("Wip"), "");
    assert_eq!(v.get_button_state("wiper"), "");
    assert_eq!(v.get_button_state(""), "");
    let found = v.get_button("Wiper").unwrap();
    assert_eq!(found, button("Wiper", "Off"));
    assert_eq!(v.get_button("Gear Selector"), Some(button("Gear Selector", "Drive")));
    assert_eq!(v.get_button("Gear"), None);
    assert_eq!(vehicle(Vec::new()).get_button("Wiper"), None);
}

#[test]
fn a_lookup_leaves_the_vehicle_as_it_was() {
    let v = wipers();
    let _ = v.get_button("Wiper");
    let _ = v.get_button_state("Wiper");
    let _ = v.get_button_state_contains("Wip");
    let _ = v.filtered_buttons("Wiper");
    let _ = v.buttons_name_state();
    assert_eq!(v, wipers());
}

#[test]
fn filtering_keeps_all_of_a_name_in_order() {
    let v = wipers();
    assert_eq!(v.filtered_buttons("Wiper"), vec![button("Wiper", "Off"), button("Wiper", "On")]);
    assert_eq!(v.filtered_buttons("Door 1"), vec![button("Door 1", "Closed")]);
    assert!(v.filtered_buttons("Wip").is_empty());
    assert!(vehicle(Vec::new()).filtered_buttons("Wiper").is_empty());
}

#[test]
fn retaining_drops_the_others_for_good() {
    let mut v = wipers();
    v.retain_buttons_by_name("Wiper");
    assert_eq!(v.buttons, vec![button("Wiper", "Off"), button("Wiper", "On")]);
    assert_eq!(v.get_button_state("Gear Selector"), "");
    v.retain_buttons_by_name("Wiper");
    assert_eq!(v.buttons.len(), 2);
    let mut expected = wipers();
    expected.buttons = vec![button("Wiper", "Off"), button("Wiper", "On")];
    assert_eq!(v, expected);
}

#[test]
fn retaining_a_name_that_no_button_has_empties_the_list() {
    let mut v = wipers();
    v.retain_buttons_by_name("X");
    assert!(v.buttons.is_empty());
    v.retain_buttons_by_name("Wiper");
    assert!(v.buttons.is_empty());
    assert_eq!(v.actor_name, "Bus");
    assert_eq!(v.indicator_state, 1);
}

#[test]
fn pairs_hold_every_button_in_order() {
    let pairs = wipers().buttons_name_state();
    let expected: Vec<(String, String)> = [
        ("Door 1", "Closed"),
        ("Wiper", "Off"),
        ("Wiper Interval", "Short"),
        ("Gear Selector", "Drive"),
        ("Wiper", "On"),
    ]
    .iter()
    .map(|(n, s)| (n.to_string(), s.to_string()))
    .collect();
    assert_eq!(pairs, expected);
    assert!(vehicle(Vec::new()).buttons_name_state().is_empty());
    let twice = vehicle(vec![button("A", "1"), button("A", "1")]).buttons_name_state();
    assert_eq!(twice.len(), 2);
    assert_eq!(twice[0], twice[1]);
}

#[test]
fn names_are_compared_character_by_character() {
    let v = vehicle(vec![button("Tür öffnen", "Zu"), button("Türöffner", "Auf")]);
    assert_eq!(v.get_button_state("Tür öffnen"), "Zu");
    assert_eq!(v.get_button_state_contains("röff"), "Auf");
    assert_eq!(v.get_button_state_contains("ür ö"), "Zu");
    assert_eq!(v.get_button_state_contains("ü"), "Zu");
}
