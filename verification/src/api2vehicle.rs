//! The rules that turn a vehicle as the interface describes it into the
//! canonical state. Every input has a result: what is malformed or out of
//! range falls back to a fixed value.

use crate::api::first_where_is_first;
use crate::api::is_named;
use crate::api::is_text;
use crate::api::state_where;
use crate::api::ApiVehicleType;
use crate::api::VehicleView;
use crate::vehicle::GearSelector;
use crate::vehicle::Indicator;
use crate::vehicle::VehicleState;
use vstd::prelude::*;

verus! {

/// A flag is set by the text `true`, in exactly this spelling, and by no other.
pub open spec fn flag_of(text: Seq<char>) -> bool {
    text == "true"@
}

/// -1 is left, 1 is right; 0 and every other number is off.
pub open spec fn indicator_of(state: i8) -> Indicator {
    if state == -1 {
        Indicator::Left
    } else if state == 1 {
        Indicator::Right
    } else {
        Indicator::Off
    }
}

/// `Drive` and `Reverse` are themselves; `Neutral` and every other text,
/// the empty one too, is neutral.
pub open spec fn gear_of(state: Seq<char>) -> GearSelector {
    if state == "Drive"@ {
        GearSelector::Drive
    } else if state == "Reverse"@ {
        GearSelector::Reverse
    } else {
        GearSelector::Neutral
    }
}

/// The canonical state of the vehicle `av`.
///
/// The gear is read off the first button named `Gear Selector`. A lamp is on
/// where its intensity is greater than zero.
pub open spec fn normalized(av: VehicleView) -> VehicleState {
    VehicleState {
        ignition: flag_of(av.ignition_enabled),
        engine: flag_of(av.engine_started),
        lights_warning: flag_of(av.warning_lights),
        doors: flag_of(av.passenger_doors_open),
        fixing_brake: flag_of(av.fixing_brake),
        lights_main: av.all_lamps.light_main.spec_is_positive(),
        lights_high_beam: av.all_lamps.traveller_light.spec_is_positive(),
        lights_front_door: av.all_lamps.front_door_light.spec_is_positive(),
        lights_second_door: av.all_lamps.second_door_light.spec_is_positive(),
        lights_third_door: av.all_lamps.third_door_light.spec_is_positive(),
        lights_fourth_door: av.all_lamps.fourth_door_light.spec_is_positive(),
        lights_stop_request: av.all_lamps.led_stop_request.spec_is_positive(),
        lights_stop_brake: av.all_lamps.light_stopbrake.spec_is_positive(),
        indicator: indicator_of(av.indicator_state),
        gear_selector: gear_of(state_where(av.buttons, is_named("Gear Selector"@))),
        speed: av.speed.spec_rounded_magnitude(),
        maxspeed: av.allowed_speed.spec_rounded_magnitude(),
        fuel: av.display_fuel.spec_percent(),
    }
}

/// Reads a flag that the interface writes as text.
pub fn parse_flag(text: &str) -> (set: bool)
    ensures
        set == flag_of(text@),
{
    is_text(text, "true")
}

/// Reads the indicator's state off the interface's number.
pub fn indicator_from_state(state: i8) -> (indicator: Indicator)
    ensures
        indicator == indicator_of(state),
{
    if state == -1 {
        Indicator::Left
    } else if state == 1 {
        Indicator::Right
    } else {
        Indicator::Off
    }
}

/// Reads the gear off the state of the gear selector's button.
pub fn gear_from_state(state: &str) -> (gear: GearSelector)
    ensures
        gear == gear_of(state@),
{
    if is_text(state, "Drive") {
        GearSelector::Drive
    } else if is_text(state, "Reverse") {
        GearSelector::Reverse
    } else {
        GearSelector::Neutral
    }
}

/// The canonical state of the vehicle `av`. Never fails.
pub fn get_vehicle_state_from_api(av: ApiVehicleType) -> (s: VehicleState)
    ensures
        s == normalized(av@),
{
    let gear_state: String = av.get_button_state("Gear Selector");
    VehicleState {
        ignition: parse_flag(av.ignition_enabled.as_str()),
        engine: parse_flag(av.engine_started.as_str()),
        lights_warning: parse_flag(av.warning_lights.as_str()),
        doors: parse_flag(av.passenger_doors_open.as_str()),
        fixing_brake: parse_flag(av.fixing_brake.as_str()),
        lights_main: av.all_lamps.light_main.is_positive(),
        lights_high_beam: av.all_lamps.traveller_light.is_positive(),
        lights_front_door: av.all_lamps.front_door_light.is_positive(),
        lights_second_door: av.all_lamps.second_door_light.is_positive(),
        lights_third_door: av.all_lamps.third_door_light.is_positive(),
        lights_fourth_door: av.all_lamps.fourth_door_light.is_positive(),
        lights_stop_request: av.all_lamps.led_stop_request.is_positive(),
        lights_stop_brake: av.all_lamps.light_stopbrake.is_positive(),
        indicator: indicator_from_state(av.indicator_state),
        gear_selector: gear_from_state(gear_state.as_str()),
        speed: av.speed.rounded_magnitude(),
        maxspeed: av.allowed_speed.rounded_magnitude(),
        fuel: av.display_fuel.percent(),
    }
}

/// The one text that sets a flag is made of the four letters t, r, u, e.
pub proof fn flag_is_set_by_true_alone(text: Seq<char>)
    ensures
        flag_of(text) <==> text == seq!['t', 'r', 'u', 'e'],
{
    reveal_strlit("true");
    assert("true"@ =~= seq!['t', 'r', 'u', 'e']);
}

/// Each flag of the canonical state is set if and only if the vehicle holds
/// the text `true` for it, whatever else the vehicle holds.
pub proof fn flags_follow_their_texts(av: VehicleView)
    ensures
        normalized(av).ignition <==> av.ignition_enabled == "true"@,
        normalized(av).engine <==> av.engine_started == "true"@,
        normalized(av).lights_warning <==> av.warning_lights == "true"@,
        normalized(av).doors <==> av.passenger_doors_open == "true"@,
        normalized(av).fixing_brake <==> av.fixing_brake == "true"@,
{
}

/// Every indicator state but -1, 0 and 1 is taken as off.
pub proof fn unknown_indicator_is_off(av: VehicleView)
    requires
        av.indicator_state < -1 || av.indicator_state > 1,
    ensures
        normalized(av).indicator == Indicator::Off,
{
}

/// A vehicle without a button named `Gear Selector` is in neutral.
pub proof fn gear_without_selector_is_neutral(av: VehicleView)
    requires
        forall|i: int| 0 <= i < av.buttons.len() ==> (#[trigger] av.buttons[i]).name != "Gear Selector"@,
    ensures
        normalized(av).gear_selector == GearSelector::Neutral,
{
    first_where_is_first(av.buttons, is_named("Gear Selector"@));
    lemma_gears_are_named();
}

/// A vehicle whose first button named `Gear Selector` is in a state other
/// than `Drive` and `Reverse` is in neutral.
pub proof fn gear_in_unknown_state_is_neutral(av: VehicleView, at: int)
    requires
        0 <= at < av.buttons.len(),
        av.buttons[at].name == "Gear Selector"@,
        forall|i: int| 0 <= i < at ==> (#[trigger] av.buttons[i]).name != "Gear Selector"@,
        av.buttons[at].state != "Drive"@,
        av.buttons[at].state != "Reverse"@,
    ensures
        normalized(av).gear_selector == GearSelector::Neutral,
{
    first_where_is_first(av.buttons, is_named("Gear Selector"@));
}

/// Neither `Drive` nor `Reverse` is the empty text.
proof fn lemma_gears_are_named()
    ensures
        "Drive"@ != Seq::<char>::empty(),
        "Reverse"@ != Seq::<char>::empty(),
{
    reveal_strlit("Drive");
    reveal_strlit("Reverse");
    assert("Drive"@.len() == 5);
    assert("Reverse"@.len() == 7);
}

} // verus!
