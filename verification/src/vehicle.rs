//! The canonical vehicle state.

use vstd::prelude::*;

verus! {

/// The turn indicator.
#[derive(Clone, Copy, Debug, PartialEq, Eq, Structural)]
pub enum Indicator {
    Off,
    Left,
    Right,
}

/// The position of the gear selector.
#[derive(Clone, Copy, Debug, PartialEq, Eq, Structural)]
pub enum GearSelector {
    Drive,
    Neutral,
    Reverse,
}

impl Indicator {
    /// The number that stands for the state on a display: 0 off, 1 left, 2 right.
    pub open spec fn spec_code(self) -> u32 {
        match self {
            Indicator::Off => 0,
            Indicator::Left => 1,
            Indicator::Right => 2,
        }
    }

    #[verifier::when_used_as_spec(spec_code)]
    pub fn code(self) -> (n: u32)
        ensures
            n == self.spec_code(),
    {
        match self {
            Indicator::Off => 0,
            Indicator::Left => 1,
            Indicator::Right => 2,
        }
    }
}

impl GearSelector {
    /// The number that stands for the position on a display: 1 drive, 2 neutral, 3 reverse.
    pub open spec fn spec_code(self) -> u32 {
        match self {
            GearSelector::Drive => 1,
            GearSelector::Neutral => 2,
            GearSelector::Reverse => 3,
        }
    }

    #[verifier::when_used_as_spec(spec_code)]
    pub fn code(self) -> (n: u32)
        ensures
            n == self.spec_code(),
    {
        match self {
            GearSelector::Drive => 1,
            GearSelector::Neutral => 2,
            GearSelector::Reverse => 3,
        }
    }
}

/// What is known of one vehicle at one moment, free of any model's encoding.
///
/// The fields stand in the order in which changes to them are reported.
#[derive(Clone, Copy, Debug, PartialEq, Eq, Structural)]
pub struct VehicleState {
    pub ignition: bool,
    pub engine: bool,
    pub lights_warning: bool,
    pub doors: bool,
    pub fixing_brake: bool,
    pub lights_main: bool,
    pub lights_high_beam: bool,
    pub lights_front_door: bool,
    pub lights_second_door: bool,
    pub lights_third_door: bool,
    pub lights_fourth_door: bool,
    pub lights_stop_request: bool,
    pub lights_stop_brake: bool,
    pub indicator: Indicator,
    pub gear_selector: GearSelector,
    /// km/h, rounded
    pub speed: u32,
    pub maxspeed: u32,
    /// percent of a full tank
    pub fuel: u32,
}

/// The state of a vehicle of which nothing has been heard yet.
pub open spec fn initial_state() -> VehicleState {
    VehicleState {
        ignition: false,
        engine: false,
        lights_warning: false,
        doors: false,
        fixing_brake: false,
        lights_main: false,
        lights_high_beam: false,
        lights_front_door: false,
        lights_second_door: false,
        lights_third_door: false,
        lights_fourth_door: false,
        lights_stop_request: false,
        lights_stop_brake: false,
        indicator: Indicator::Off,
        gear_selector: GearSelector::Neutral,
        speed: 0,
        maxspeed: 0,
        fuel: 0,
    }
}

/// Everything off, standing still, the selector in neutral.
pub fn init_vehicle_state() -> (s: VehicleState)
    ensures
        s == initial_state(),
{
    VehicleState {
        ignition: false,
        engine: false,
        lights_warning: false,
        doors: false,
        fixing_brake: false,
        lights_main: false,
        lights_high_beam: false,
        lights_front_door: false,
        lights_second_door: false,
        lights_third_door: false,
        lights_fourth_door: false,
        lights_stop_request: false,
        lights_stop_brake: false,
        indicator: Indicator::Off,
        gear_selector: GearSelector::Neutral,
        speed: 0,
        maxspeed: 0,
        fuel: 0,
    }
}

} // verus!
