//! Decoding of JSON documents into the interface's records.
//!
//! A field is looked up under its own name first and then under each of its
//! other names in their fixed order; the first name that the document has is
//! the one that counts. A record is decoded field by field, in the fields'
//! order, and the first field that is missing or of the wrong type ends the
//! decoding with its error: no record is ever handed out in part.

use crate::api::buttons_view;
use crate::api::texts;
use crate::api::ApiButton;
use crate::api::ApiLamps;
use crate::api::ApiVehicleType;
use crate::api::ApiWorldType;
use crate::api::ButtonView;
use crate::api::VehicleView;
use crate::api::WorldView;
use crate::json::double_bits;
use crate::json::integer;
use crate::json::items;
use crate::json::json_double;
use crate::json::json_integer;
use crate::json::json_items;
use crate::json::json_member;
use crate::json::json_text;
use crate::json::member;
use crate::json::text;
use crate::reading::narrowed;
use crate::reading::Reading;
use serde_json::Value;
use vstd::prelude::*;

verus! {

/// Why a document could not be decoded: the field at fault, by its first
/// name, and all the names that were tried for it, in their order.
#[derive(Debug, PartialEq, Eq, Clone)]
pub enum DecodeError {
    /// The document has the field under none of its names.
    MissingField { field: String, tried: Vec<String> },
    /// The document has the field, but not as a value of the field's type.
    TypeMismatch { field: String, tried: Vec<String> },
}

/// A `DecodeError` as a plain value.
pub enum DecodeErrorView {
    MissingField { field: Seq<char>, tried: Seq<Seq<char>> },
    TypeMismatch { field: Seq<char>, tried: Seq<Seq<char>> },
}

impl View for DecodeError {
    type V = DecodeErrorView;

    open spec fn view(&self) -> DecodeErrorView {
        match self {
            DecodeError::MissingField { field, tried } => DecodeErrorView::MissingField {
                field: field@,
                tried: texts(tried@),
            },
            DecodeError::TypeMismatch { field, tried } => DecodeErrorView::TypeMismatch {
                field: field@,
                tried: texts(tried@),
            },
        }
    }
}

/// The lamps of a vehicle, in the order in which they are decoded.
#[derive(Clone, Copy, Debug, PartialEq, Eq, Structural)]
pub enum LampChannel {
    Headlight,
    Traveling,
    FrontDoor,
    SecondDoor,
    ThirdDoor,
    FourthDoor,
    StopRequest,
    StopBrake,
}

/// The names under which a lamp's intensity may stand, its own name first.
pub open spec fn lamp_names(channel: LampChannel) -> Seq<Seq<char>> {
    match channel {
        LampChannel::Headlight => seq!["LightHeadlight"@, "LightHeadlight1"@, "Light Headlight"@],
        LampChannel::Traveling => seq!["LightTraveling"@, "LightTraveling1"@],
        LampChannel::FrontDoor => seq!["Door Button 1"@, "ButtonLight Door 1"@],
        LampChannel::SecondDoor => seq!["Door Button 2"@, "ButtonLight Door 2"@],
        LampChannel::ThirdDoor => seq!["Door Button 3"@, "ButtonLight Door 3"@],
        LampChannel::FourthDoor => seq!["Door Button 4"@, "ButtonLight Door 4"@],
        LampChannel::StopRequest => seq!["LED StopRequest"@],
        LampChannel::StopBrake => seq!["ButtonLight BusStopBrake"@],
    }
}

/// Whether a document must hold the lamp. The head lamps must; a lamp that a
/// model may lack reads zero where it is absent.
pub open spec fn lamp_required(channel: LampChannel) -> bool {
    channel == LampChannel::Headlight || channel == LampChannel::Traveling
}

/// The intensity that `lamps` holds for `channel`.
pub open spec fn lamp_of(lamps: ApiLamps, channel: LampChannel) -> Reading {
    match channel {
        LampChannel::Headlight => lamps.light_main,
        LampChannel::Traveling => lamps.traveller_light,
        LampChannel::FrontDoor => lamps.front_door_light,
        LampChannel::SecondDoor => lamps.second_door_light,
        LampChannel::ThirdDoor => lamps.third_door_light,
        LampChannel::FourthDoor => lamps.fourth_door_light,
        LampChannel::StopRequest => lamps.led_stop_request,
        LampChannel::StopBrake => lamps.light_stopbrake,
    }
}

/// The texts of a list of names, in their order.
pub open spec fn names_of(list: Seq<&str>) -> Seq<Seq<char>> {
    list.map_values(|s: &str| s@)
}

/// The member of `doc` under the first of the names from `from` on that `doc`
/// has a member under.
pub open spec fn member_under(doc: Value, names: Seq<Seq<char>>, from: int) -> Option<Value>
    decreases names.len() - from,
{
    if from < 0 || from >= names.len() {
        None
    } else {
        match json_member(doc, names[from]) {
            Some(m) => Some(m),
            None => member_under(doc, names, from + 1),
        }
    }
}

/// The error of a field that a document has under none of `names`.
pub open spec fn missing(names: Seq<Seq<char>>) -> DecodeErrorView {
    DecodeErrorView::MissingField { field: names[0], tried: names }
}

/// The error of a field that a document has under one of `names`, as a value
/// of another type.
pub open spec fn mismatch(names: Seq<Seq<char>>) -> DecodeErrorView {
    DecodeErrorView::TypeMismatch { field: names[0], tried: names }
}

/// The number that `doc` holds under `names`, as a single. Where `doc` lacks
/// the field, a required one is missing and any other reads zero.
pub open spec fn number_under(doc: Value, names: Seq<Seq<char>>, required: bool) -> Result<
    Reading,
    DecodeErrorView,
> {
    match member_under(doc, names, 0) {
        Some(m) => match json_double(m) {
            Some(bits) => Ok(narrowed(bits)),
            None => Err(mismatch(names)),
        },
        None => if required {
            Err(missing(names))
        } else {
            Ok(Reading { bits: 0 })
        },
    }
}

/// The text that `doc` holds under `names`. Where `doc` lacks the field, a
/// required one is missing and any other reads as the empty text.
pub open spec fn text_under(doc: Value, names: Seq<Seq<char>>, required: bool) -> Result<
    Seq<char>,
    DecodeErrorView,
> {
    match member_under(doc, names, 0) {
        Some(m) => match json_text(m) {
            Some(t) => Ok(t),
            None => Err(mismatch(names)),
        },
        None => if required {
            Err(missing(names))
        } else {
            Ok(Seq::empty())
        },
    }
}

/// The small integer that `doc` holds under `names`: any integer from -128 to
/// 127 is taken as it is. The field is required.
pub open spec fn small_integer_under(doc: Value, names: Seq<Seq<char>>) -> Result<
    i8,
    DecodeErrorView,
> {
    match member_under(doc, names, 0) {
        Some(m) => match json_integer(m) {
            Some(n) => if -128 <= n <= 127 {
                Ok(n as i8)
            } else {
                Err(mismatch(names))
            },
            None => Err(mismatch(names)),
        },
        None => Err(missing(names)),
    }
}

/// The texts of `items`, where each of them is a text.
pub open spec fn all_texts(items: Seq<Value>) -> Option<Seq<Seq<char>>> {
    if forall|i: int| 0 <= i < items.len() ==> (#[trigger] json_text(items[i])) is Some {
        Some(items.map_values(|v: Value| json_text(v).unwrap()))
    } else {
        None
    }
}

/// The list of texts that `doc` holds under `names`; the empty list where
/// `doc` lacks the field.
pub open spec fn texts_under(doc: Value, names: Seq<Seq<char>>) -> Result<
    Seq<Seq<char>>,
    DecodeErrorView,
> {
    match member_under(doc, names, 0) {
        Some(m) => match json_items(m) {
            Some(items) => match all_texts(items) {
                Some(list) => Ok(list),
                None => Err(mismatch(names)),
            },
            None => Err(mismatch(names)),
        },
        None => Ok(Seq::empty()),
    }
}

/// The button that `doc` describes. Only its name is required.
pub open spec fn decoded_button(doc: Value) -> Result<ButtonView, DecodeErrorView> {
    match text_under(doc, seq!["Name"@], true) {
        Err(e) => Err(e),
        Ok(name) => match text_under(doc, seq!["Tooltip"@], false) {
            Err(e) => Err(e),
            Ok(tooltip) => match text_under(doc, seq!["State"@], false) {
                Err(e) => Err(e),
                Ok(state) => match text_under(doc, seq!["Value"@], false) {
                    Err(e) => Err(e),
                    Ok(value) => match texts_under(doc, seq!["Actions"@]) {
                        Err(e) => Err(e),
                        Ok(actions) => match texts_under(doc, seq!["States"@]) {
                            Err(e) => Err(e),
                            Ok(states) => Ok(
                                ButtonView { name, tooltip, state, value, actions, states },
                            ),
                        },
                    },
                },
            },
        },
    }
}

/// The buttons that the first `upto` of `items` describe, or the error of the
/// first of them that describes none.
pub open spec fn decoded_buttons(items: Seq<Value>, upto: nat) -> Result<
    Seq<ButtonView>,
    DecodeErrorView,
>
    decreases upto,
{
    if upto == 0 {
        Ok(Seq::empty())
    } else {
        match decoded_buttons(items, (upto - 1) as nat) {
            Err(e) => Err(e),
            Ok(list) => match decoded_button(items[upto - 1]) {
                Err(e) => Err(e),
                Ok(b) => Ok(list.push(b)),
            },
        }
    }
}

/// The list of buttons that `doc` holds under `Buttons`; the empty list where
/// `doc` lacks the field.
pub open spec fn buttons_under(doc: Value) -> Result<Seq<ButtonView>, DecodeErrorView> {
    match member_under(doc, seq!["Buttons"@], 0) {
        Some(m) => match json_items(m) {
            Some(items) => decoded_buttons(items, items.len()),
            None => Err(mismatch(seq!["Buttons"@])),
        },
        None => Ok(Seq::empty()),
    }
}

/// What `doc` holds for the lamp `channel`.
pub open spec fn lamp_reading(doc: Value, channel: LampChannel) -> Result<Reading, DecodeErrorView> {
    number_under(doc, lamp_names(channel), lamp_required(channel))
}

/// The lamps that `doc` describes.
pub open spec fn decoded_lamps(doc: Value) -> Result<ApiLamps, DecodeErrorView> {
    match lamp_reading(doc, LampChannel::Headlight) {
        Err(e) => Err(e),
        Ok(light_main) => match lamp_reading(doc, LampChannel::Traveling) {
            Err(e) => Err(e),
            Ok(traveller_light) => match lamp_reading(doc, LampChannel::FrontDoor) {
                Err(e) => Err(e),
                Ok(front_door_light) => match lamp_reading(doc, LampChannel::SecondDoor) {
                    Err(e) => Err(e),
                    Ok(second_door_light) => match lamp_reading(doc, LampChannel::ThirdDoor) {
                        Err(e) => Err(e),
                        Ok(third_door_light) => match lamp_reading(doc, LampChannel::FourthDoor) {
                            Err(e) => Err(e),
                            Ok(fourth_door_light) => match lamp_reading(
                                doc,
                                LampChannel::StopRequest,
                            ) {
                                Err(e) => Err(e),
                                Ok(led_stop_request) => match lamp_reading(
                                    doc,
                                    LampChannel::StopBrake,
                                ) {
                                    Err(e) => Err(e),
                                    Ok(light_stopbrake) => Ok(
                                        ApiLamps {
                                            light_main,
                                            traveller_light,
                                            front_door_light,
                                            second_door_light,
                                            third_door_light,
                                            fourth_door_light,
                                            led_stop_request,
                                            light_stopbrake,
                                        },
                                    ),
                                },
                            },
                        },
                    },
                },
            },
        },
    }
}

/// The lamps that `doc` holds under `AllLamps`. The field is required.
pub open spec fn lamps_under(doc: Value) -> Result<ApiLamps, DecodeErrorView> {
    match member_under(doc, seq!["AllLamps"@], 0) {
        Some(m) => decoded_lamps(m),
        None => Err(missing(seq!["AllLamps"@])),
    }
}

/// The five flags of a vehicle, as the texts that the interface writes.
pub struct FlagTexts {
    pub ignition_enabled: Seq<char>,
    pub engine_started: Seq<char>,
    pub warning_lights: Seq<char>,
    pub passenger_doors_open: Seq<char>,
    pub fixing_brake: Seq<char>,
}

/// The flags that `doc` holds. All of them are required.
pub open spec fn flags_under(doc: Value) -> Result<FlagTexts, DecodeErrorView> {
    match text_under(doc, seq!["IgnitionEnabled"@], true) {
        Err(e) => Err(e),
        Ok(ignition_enabled) => match text_under(doc, seq!["EngineStarted"@], true) {
            Err(e) => Err(e),
            Ok(engine_started) => match text_under(doc, seq!["WarningLights"@], true) {
                Err(e) => Err(e),
                Ok(warning_lights) => match text_under(doc, seq!["PassengerDoorsOpen"@], true) {
                    Err(e) => Err(e),
                    Ok(passenger_doors_open) => match text_under(
                        doc,
                        seq!["FixingBrake"@],
                        true,
                    ) {
                        Err(e) => Err(e),
                        Ok(fixing_brake) => Ok(
                            FlagTexts {
                                ignition_enabled,
                                engine_started,
                                warning_lights,
                                passenger_doors_open,
                                fixing_brake,
                            },
                        ),
                    },
                },
            },
        },
    }
}

/// The vehicle that `doc` describes. Every field but the list of buttons is
/// required; the lamps have their own rules.
pub open spec fn decoded_vehicle(doc: Value) -> Result<VehicleView, DecodeErrorView> {
    match text_under(doc, seq!["ActorName"@], true) {
        Err(e) => Err(e),
        Ok(actor_name) => match text_under(doc, seq!["VehicleModel"@], true) {
            Err(e) => Err(e),
            Ok(vehicle_model) => match flags_under(doc) {
                Err(e) => Err(e),
                Ok(flags) => match number_under(doc, seq!["Speed"@], true) {
                    Err(e) => Err(e),
                    Ok(speed) => match number_under(doc, seq!["AllowedSpeed"@], true) {
                        Err(e) => Err(e),
                        Ok(allowed_speed) => match number_under(doc, seq!["DisplayFuel"@], true) {
                            Err(e) => Err(e),
                            Ok(display_fuel) => match small_integer_under(
                                doc,
                                seq!["IndicatorState"@],
                            ) {
                                Err(e) => Err(e),
                                Ok(indicator_state) => match lamps_under(doc) {
                                    Err(e) => Err(e),
                                    Ok(all_lamps) => match buttons_under(doc) {
                                        Err(e) => Err(e),
                                        Ok(buttons) => Ok(
                                            VehicleView {
                                                actor_name,
                                                vehicle_model,
                                                ignition_enabled: flags.ignition_enabled,
                                                engine_started: flags.engine_started,
                                                warning_lights: flags.warning_lights,
                                                passenger_doors_open: flags.passenger_doors_open,
                                                fixing_brake: flags.fixing_brake,
                                                speed,
                                                allowed_speed,
                                                display_fuel,
                                                indicator_state,
                                                all_lamps,
                                                buttons,
                                            },
                                        ),
                                    },
                                },
                            },
                        },
                    },
                },
            },
        },
    }
}

/// The world that `doc` describes. Every field is required.
pub open spec fn decoded_world(doc: Value) -> Result<WorldView, DecodeErrorView> {
    match text_under(doc, seq!["LevelName"@], true) {
        Err(e) => Err(e),
        Ok(level_name) => match text_under(doc, seq!["DateTime"@], true) {
            Err(e) => Err(e),
            Ok(date_time) => match number_under(doc, seq!["TimeFactor"@], true) {
                Err(e) => Err(e),
                Ok(time_factor) => match number_under(doc, seq!["BaseLatitude"@], true) {
                    Err(e) => Err(e),
                    Ok(base_latitude) => match number_under(doc, seq!["BaseLongitude"@], true) {
                        Err(e) => Err(e),
                        Ok(base_longitude) => Ok(
                            WorldView {
                                level_name,
                                date_time,
                                time_factor,
                                base_latitude,
                                base_longitude,
                            },
                        ),
                    },
                },
            },
        },
    }
}

/// Copies of `names`, as owned strings.
fn owned_names(names: &[&str]) -> (list: Vec<String>)
    ensures
        texts(list@) == names_of(names@),
{
    let mut list: Vec<String> = Vec::new();
    let mut i: usize = 0;
    while i < names.len()
        invariant
            i <= names.len(),
            list.len() == i,
            forall|j: int| 0 <= j < i ==> list[j]@ == names[j]@,
        decreases names.len() - i,
    {
        list.push(names[i].to_owned());
        i += 1;
    }
    assert(texts(list@) =~= names_of(names@));
    list
}

/// The error of a field that the document lacks.
fn missing_field(names: &[&str]) -> (e: DecodeError)
    requires
        names.len() > 0,
    ensures
        e@ == missing(names_of(names@)),
{
    DecodeError::MissingField { field: names[0].to_owned(), tried: owned_names(names) }
}

/// The error of a field that the document holds as a value of another type.
fn mismatched_field(names: &[&str]) -> (e: DecodeError)
    requires
        names.len() > 0,
    ensures
        e@ == mismatch(names_of(names@)),
{
    DecodeError::TypeMismatch { field: names[0].to_owned(), tried: owned_names(names) }
}

/// The member of `doc` under the first of `names` that `doc` has.
fn find_member<'a>(doc: &'a Value, names: &[&str]) -> (found: Option<&'a Value>)
    ensures
        match found {
            Some(m) => member_under(*doc, names_of(names@), 0) == Some(*m),
            None => member_under(*doc, names_of(names@), 0) is None,
        },
{
    let mut i: usize = 0;
    while i < names.len()
        invariant
            i <= names.len(),
            member_under(*doc, names_of(names@), 0) == member_under(
                *doc,
                names_of(names@),
                i as int,
            ),
        decreases names.len() - i,
    {
        match member(doc, names[i]) {
            Some(m) => {
                return Some(m);
            },
            None => {},
        }
        i += 1;
    }
    None
}

/// The number that `doc` holds under `names`, as a single.
fn read_number(doc: &Value, names: &[&str], required: bool) -> (r: Result<Reading, DecodeError>)
    requires
        names.len() > 0,
    ensures
        match number_under(*doc, names_of(names@), required) {
            Ok(x) => r == Ok::<Reading, DecodeError>(x),
            Err(e) => r matches Err(f) && f@ == e,
        },
{
    match find_member(doc, names) {
        Some(m) => match double_bits(m) {
            Some(bits) => Ok(Reading::from_double_bits(bits)),
            None => Err(mismatched_field(names)),
        },
        None => if required {
            Err(missing_field(names))
        } else {
            Ok(Reading::zero())
        },
    }
}

/// The text that `doc` holds under `names`.
fn read_text(doc: &Value, names: &[&str], required: bool) -> (r: Result<String, DecodeError>)
    requires
        names.len() > 0,
    ensures
        match text_under(*doc, names_of(names@), required) {
            Ok(x) => r matches Ok(t) && t@ == x,
            Err(e) => r matches Err(f) && f@ == e,
        },
{
    match find_member(doc, names) {
        Some(m) => match text(m) {
            Some(t) => Ok(t.to_owned()),
            None => Err(mismatched_field(names)),
        },
        None => if required {
            Err(missing_field(names))
        } else {
            Ok(String::new())
        },
    }
}

/// The small integer that `doc` holds under `names`.
fn read_small_integer(doc: &Value, names: &[&str]) -> (r: Result<i8, DecodeError>)
    requires
        names.len() > 0,
    ensures
        match small_integer_under(*doc, names_of(names@)) {
            Ok(x) => r == Ok::<i8, DecodeError>(x),
            Err(e) => r matches Err(f) && f@ == e,
        },
{
    match find_member(doc, names) {
        Some(m) => match integer(m) {
            Some(n) => if -128 <= n && n <= 127 {
                Ok(n as i8)
            } else {
                Err(mismatched_field(names))
            },
            None => Err(mismatched_field(names)),
        },
        None => Err(missing_field(names)),
    }
}

/// The texts of `items`, where each of them is a text.
fn read_all_texts(items: &Vec<Value>) -> (r: Option<Vec<String>>)
    ensures
        match all_texts(items@) {
            Some(list) => r matches Some(v) && texts(v@) == list,
            None => r is None,
        },
{
    let mut list: Vec<String> = Vec::new();
    let mut i: usize = 0;
    while i < items.len()
        invariant
            i <= items.len(),
            list.len() == i,
            forall|j: int| 0 <= j < i ==> json_text(#[trigger] items[j]) == Some(list[j]@),
        decreases items.len() - i,
    {
        match text(&items[i]) {
            Some(t) => {
                list.push(t.to_owned());
            },
            None => {
                return None;
            },
        }
        i += 1;
    }
    assert(texts(list@) =~= items@.map_values(|v: Value| json_text(v).unwrap()));
    Some(list)
}

/// The list of texts that `doc` holds under `names`.
fn read_texts(doc: &Value, names: &[&str]) -> (r: Result<Vec<String>, DecodeError>)
    requires
        names.len() > 0,
    ensures
        match texts_under(*doc, names_of(names@)) {
            Ok(x) => r matches Ok(v) && texts(v@) == x,
            Err(e) => r matches Err(f) && f@ == e,
        },
{
    match find_member(doc, names) {
        Some(m) => match items(m) {
            Some(list) => match read_all_texts(list) {
                Some(v) => Ok(v),
                None => Err(mismatched_field(names)),
            },
            None => Err(mismatched_field(names)),
        },
        None => Ok(Vec::new()),
    }
}

/// What `doc` holds for the lamp `channel`.
fn read_lamp(doc: &Value, channel: LampChannel) -> (r: Result<Reading, DecodeError>)
    ensures
        match lamp_reading(*doc, channel) {
            Ok(x) => r == Ok::<Reading, DecodeError>(x),
            Err(e) => r matches Err(f) && f@ == e,
        },
{
    match channel {
        LampChannel::Headlight => {
            let names: [&str; 3] = ["LightHeadlight", "LightHeadlight1", "Light Headlight"];
            assert(names_of(names@) =~= lamp_names(channel));
            read_number(doc, names.as_slice(), true)
        },
        LampChannel::Traveling => {
            let names: [&str; 2] = ["LightTraveling", "LightTraveling1"];
            assert(names_of(names@) =~= lamp_names(channel));
            read_number(doc, names.as_slice(), true)
        },
        LampChannel::FrontDoor => {
            let names: [&str; 2] = ["Door Button 1", "ButtonLight Door 1"];
            assert(names_of(names@) =~= lamp_names(channel));
            read_number(doc, names.as_slice(), false)
        },
        LampChannel::SecondDoor => {
            let names: [&str; 2] = ["Door Button 2", "ButtonLight Door 2"];
            assert(names_of(names@) =~= lamp_names(channel));
            read_number(doc, names.as_slice(), false)
        },
        LampChannel::ThirdDoor => {
            let names: [&str; 2] = ["Door Button 3", "ButtonLight Door 3"];
            assert(names_of(names@) =~= lamp_names(channel));
            read_number(doc, names.as_slice(), false)
        },
        LampChannel::FourthDoor => {
            let names: [&str; 2] = ["Door Button 4", "ButtonLight Door 4"];
            assert(names_of(names@) =~= lamp_names(channel));
            read_number(doc, names.as_slice(), false)
        },
        LampChannel::StopRequest => {
            let names: [&str; 1] = ["LED StopRequest"];
            assert(names_of(names@) =~= lamp_names(channel));
            read_number(doc, names.as_slice(), false)
        },
        LampChannel::StopBrake => {
            let names: [&str; 1] = ["ButtonLight BusStopBrake"];
            assert(names_of(names@) =~= lamp_names(channel));
            read_number(doc, names.as_slice(), false)
        },
    }
}

/// The number that `doc` must hold under the one name `name`.
fn required_number(doc: &Value, name: &str) -> (r: Result<Reading, DecodeError>)
    ensures
        match number_under(*doc, seq![name@], true) {
            Ok(x) => r == Ok::<Reading, DecodeError>(x),
            Err(e) => r matches Err(f) && f@ == e,
        },
{
    let names: [&str; 1] = [name];
    assert(names_of(names@) =~= seq![name@]);
    read_number(doc, names.as_slice(), true)
}

/// The text that `doc` holds under the one name `name`.
fn single_text(doc: &Value, name: &str, required: bool) -> (r: Result<String, DecodeError>)
    ensures
        match text_under(*doc, seq![name@], required) {
            Ok(x) => r matches Ok(t) && t@ == x,
            Err(e) => r matches Err(f) && f@ == e,
        },
{
    let names: [&str; 1] = [name];
    assert(names_of(names@) =~= seq![name@]);
    read_text(doc, names.as_slice(), required)
}

/// The list of texts that `doc` holds under the one name `name`.
fn single_texts(doc: &Value, name: &str) -> (r: Result<Vec<String>, DecodeError>)
    ensures
        match texts_under(*doc, seq![name@]) {
            Ok(x) => r matches Ok(v) && texts(v@) == x,
            Err(e) => r matches Err(f) && f@ == e,
        },
{
    let names: [&str; 1] = [name];
    assert(names_of(names@) =~= seq![name@]);
    read_texts(doc, names.as_slice())
}

/// Decodes one button.
pub fn decode_button(doc: &Value) -> (r: Result<ApiButton, DecodeError>)
    ensures
        match decoded_button(*doc) {
            Ok(x) => r matches Ok(b) && b@ == x,
            Err(e) => r matches Err(f) && f@ == e,
        },
{
    let name: String = match single_text(doc, "Name", true) {
        Ok(t) => t,
        Err(e) => {
            return Err(e);
        },
    };
    let tooltip: String = match single_text(doc, "Tooltip", false) {
        Ok(t) => t,
        Err(e) => {
            return Err(e);
        },
    };
    let state: String = match single_text(doc, "State", false) {
        Ok(t) => t,
        Err(e) => {
            return Err(e);
        },
    };
    let value: String = match single_text(doc, "Value", false) {
        Ok(t) => t,
        Err(e) => {
            return Err(e);
        },
    };
    let actions: Vec<String> = match single_texts(doc, "Actions") {
        Ok(t) => t,
        Err(e) => {
            return Err(e);
        },
    };
    let states: Vec<String> = match single_texts(doc, "States") {
        Ok(t) => t,
        Err(e) => {
            return Err(e);
        },
    };
    Ok(ApiButton { name, tooltip, state, value, actions, states })
}

/// The buttons that `doc` holds under `Buttons`.
fn read_buttons(doc: &Value) -> (r: Result<Vec<ApiButton>, DecodeError>)
    ensures
        match buttons_under(*doc) {
            Ok(x) => r matches Ok(v) && buttons_view(v@) == x,
            Err(e) => r matches Err(f) && f@ == e,
        },
{
    let names: [&str; 1] = ["Buttons"];
    assert(names_of(names@) =~= seq!["Buttons"@]);
    match find_member(doc, names.as_slice()) {
        Some(m) => match items(m) {
            Some(list) => {
                let mut buttons: Vec<ApiButton> = Vec::new();
                let mut i: usize = 0;
                assert(buttons_view(buttons@) =~= Seq::<ButtonView>::empty());
                while i < list.len()
                    invariant
                        i <= list.len(),
                        buttons_under(*doc) == decoded_buttons(list@, list@.len()),
                        decoded_buttons(list@, i as nat) == Ok::<
                            Seq<ButtonView>,
                            DecodeErrorView,
                        >(buttons_view(buttons@)),
                    decreases list.len() - i,
                {
                    let ghost before = buttons@;
                    match decode_button(&list[i]) {
                        Ok(b) => {
                            buttons.push(b);
                            assert(buttons_view(buttons@) =~= buttons_view(before).push(b@));
                        },
                        Err(e) => {
                            proof {
                                let failed = (i + 1) as nat;
                                assert((failed - 1) as nat == i as nat);
                                assert(decoded_buttons(list@, failed) is Err);
                                lemma_first_failure_stays(list@, failed, list@.len());
                            }
                            return Err(e);
                        },
                    }
                    i += 1;
                }
                Ok(buttons)
            },
            None => Err(mismatched_field(names.as_slice())),
        },
        None => {
            let none: Vec<ApiButton> = Vec::new();
            assert(buttons_view(none@) =~= Seq::<ButtonView>::empty());
            Ok(none)
        },
    }
}

/// Once an element has failed, the error stays however many more are read.
proof fn lemma_first_failure_stays(items: Seq<Value>, failed: nat, upto: nat)
    requires
        failed <= upto,
        decoded_buttons(items, failed) is Err,
    ensures
        decoded_buttons(items, upto) == decoded_buttons(items, failed),
    decreases upto,
{
    if failed < upto {
        lemma_first_failure_stays(items, failed, (upto - 1) as nat);
    }
}

/// Decodes the lamps of a vehicle.
pub fn decode_lamps(doc: &Value) -> (r: Result<ApiLamps, DecodeError>)
    ensures
        match decoded_lamps(*doc) {
            Ok(x) => r == Ok::<ApiLamps, DecodeError>(x),
            Err(e) => r matches Err(f) && f@ == e,
        },
{
    let light_main: Reading = match read_lamp(doc, LampChannel::Headlight) {
        Ok(x) => x,
        Err(e) => {
            return Err(e);
        },
    };
    let traveller_light: Reading = match read_lamp(doc, LampChannel::Traveling) {
        Ok(x) => x,
        Err(e) => {
            return Err(e);
        },
    };
    let front_door_light: Reading = match read_lamp(doc, LampChannel::FrontDoor) {
        Ok(x) => x,
        Err(e) => {
            return Err(e);
        },
    };
    let second_door_light: Reading = match read_lamp(doc, LampChannel::SecondDoor) {
        Ok(x) => x,
        Err(e) => {
            return Err(e);
        },
    };
    let third_door_light: Reading = match read_lamp(doc, LampChannel::ThirdDoor) {
        Ok(x) => x,
        Err(e) => {
            return Err(e);
        },
    };
    let fourth_door_light: Reading = match read_lamp(doc, LampChannel::FourthDoor) {
        Ok(x) => x,
        Err(e) => {
            return Err(e);
        },
    };
    let led_stop_request: Reading = match read_lamp(doc, LampChannel::StopRequest) {
        Ok(x) => x,
        Err(e) => {
            return Err(e);
        },
    };
    let light_stopbrake: Reading = match read_lamp(doc, LampChannel::StopBrake) {
        Ok(x) => x,
        Err(e) => {
            return Err(e);
        },
    };
    Ok(
        ApiLamps {
            light_main,
            traveller_light,
            front_door_light,
            second_door_light,
            third_door_light,
            fourth_door_light,
            led_stop_request,
            light_stopbrake,
        },
    )
}

/// The lamps that `doc` holds under `AllLamps`.
fn read_lamps(doc: &Value) -> (r: Result<ApiLamps, DecodeError>)
    ensures
        match lamps_under(*doc) {
            Ok(x) => r == Ok::<ApiLamps, DecodeError>(x),
            Err(e) => r matches Err(f) && f@ == e,
        },
{
    let names: [&str; 1] = ["AllLamps"];
    assert(names_of(names@) =~= seq!["AllLamps"@]);
    match find_member(doc, names.as_slice()) {
        Some(m) => decode_lamps(m),
        None => Err(missing_field(names.as_slice())),
    }
}

/// The five flags of a vehicle, as they were read.
struct Flags {
    ignition_enabled: String,
    engine_started: String,
    warning_lights: String,
    passenger_doors_open: String,
    fixing_brake: String,
}

/// The five flags that `doc` holds.
fn read_flags(doc: &Value) -> (r: Result<Flags, DecodeError>)
    ensures
        match flags_under(*doc) {
            Ok(x) => r matches Ok(t) && x == (FlagTexts {
                ignition_enabled: t.ignition_enabled@,
                engine_started: t.engine_started@,
                warning_lights: t.warning_lights@,
                passenger_doors_open: t.passenger_doors_open@,
                fixing_brake: t.fixing_brake@,
            }),
            Err(e) => r matches Err(f) && f@ == e,
        },
{
    let ignition_enabled: String = match single_text(doc, "IgnitionEnabled", true) {
        Ok(t) => t,
        Err(e) => {
            return Err(e);
        },
    };
    let engine_started: String = match single_text(doc, "EngineStarted", true) {
        Ok(t) => t,
        Err(e) => {
            return Err(e);
        },
    };
    let warning_lights: String = match single_text(doc, "WarningLights", true) {
        Ok(t) => t,
        Err(e) => {
            return Err(e);
        },
    };
    let passenger_doors_open: String = match single_text(doc, "PassengerDoorsOpen", true) {
        Ok(t) => t,
        Err(e) => {
            return Err(e);
        },
    };
    let fixing_brake: String = match single_text(doc, "FixingBrake", true) {
        Ok(t) => t,
        Err(e) => {
            return Err(e);
        },
    };
    Ok(Flags { ignition_enabled, engine_started, warning_lights, passenger_doors_open, fixing_brake })
}

/// Decodes a vehicle.
pub fn decode_vehicle(doc: &Value) -> (r: Result<ApiVehicleType, DecodeError>)
    ensures
        match decoded_vehicle(*doc) {
            Ok(x) => r matches Ok(v) && v@ == x,
            Err(e) => r matches Err(f) && f@ == e,
        },
{
    let actor_name: String = match single_text(doc, "ActorName", true) {
        Ok(t) => t,
        Err(e) => {
            return Err(e);
        },
    };
    let vehicle_model: String = match single_text(doc, "VehicleModel", true) {
        Ok(t) => t,
        Err(e) => {
            return Err(e);
        },
    };
    let flags: Flags = match read_flags(doc) {
        Ok(t) => t,
        Err(e) => {
            return Err(e);
        },
    };
    let speed: Reading = match required_number(doc, "Speed") {
        Ok(x) => x,
        Err(e) => {
            return Err(e);
        },
    };
    let allowed_speed: Reading = match required_number(doc, "AllowedSpeed") {
        Ok(x) => x,
        Err(e) => {
            return Err(e);
        },
    };
    let display_fuel: Reading = match required_number(doc, "DisplayFuel") {
        Ok(x) => x,
        Err(e) => {
            return Err(e);
        },
    };
    let indicator_names: [&str; 1] = ["IndicatorState"];
    assert(names_of(indicator_names@) =~= seq!["IndicatorState"@]);
    let indicator_state: i8 = match read_small_integer(doc, indicator_names.as_slice()) {
        Ok(x) => x,
        Err(e) => {
            return Err(e);
        },
    };
    let all_lamps: ApiLamps = match read_lamps(doc) {
        Ok(x) => x,
        Err(e) => {
            return Err(e);
        },
    };
    let buttons: Vec<ApiButton> = match read_buttons(doc) {
        Ok(x) => x,
        Err(e) => {
            return Err(e);
        },
    };
    Ok(
        ApiVehicleType {
            actor_name,
            vehicle_model,
            ignition_enabled: flags.ignition_enabled,
            engine_started: flags.engine_started,
            warning_lights: flags.warning_lights,
            passenger_doors_open: flags.passenger_doors_open,
            fixing_brake: flags.fixing_brake,
            speed,
            allowed_speed,
            display_fuel,
            indicator_state,
            all_lamps,
            buttons,
        },
    )
}

/// Decodes a world.
pub fn decode_world(doc: &Value) -> (r: Result<ApiWorldType, DecodeError>)
    ensures
        match decoded_world(*doc) {
            Ok(x) => r matches Ok(w) && w@ == x,
            Err(e) => r matches Err(f) && f@ == e,
        },
{
    let level_name: String = match single_text(doc, "LevelName", true) {
        Ok(t) => t,
        Err(e) => {
            return Err(e);
        },
    };
    let date_time: String = match single_text(doc, "DateTime", true) {
        Ok(t) => t,
        Err(e) => {
            return Err(e);
        },
    };
    let time_factor: Reading = match required_number(doc, "TimeFactor") {
        Ok(x) => x,
        Err(e) => {
            return Err(e);
        },
    };
    let base_latitude: Reading = match required_number(doc, "BaseLatitude") {
        Ok(x) => x,
        Err(e) => {
            return Err(e);
        },
    };
    let base_longitude: Reading = match required_number(doc, "BaseLongitude") {
        Ok(x) => x,
        Err(e) => {
            return Err(e);
        },
    };
    Ok(ApiWorldType { level_name, date_time, time_factor, base_latitude, base_longitude })
}

/// Where `doc` has a member under `names[at]` and under none of the names
/// before it, that member is the one that counts.
proof fn lemma_member_found_at(doc: Value, names: Seq<Seq<char>>, at: int, from: int)
    requires
        0 <= from <= at < names.len(),
        json_member(doc, names[at]) is Some,
        forall|k: int| from <= k < at ==> json_member(doc, #[trigger] names[k]) is None,
    ensures
        member_under(doc, names, from) == json_member(doc, names[at]),
    decreases at - from,
{
    if from < at {
        lemma_member_found_at(doc, names, at, from + 1);
    }
}

/// Where `doc` has a member under none of `names`, none is found.
proof fn lemma_member_absent(doc: Value, names: Seq<Seq<char>>, from: int)
    requires
        0 <= from,
        forall|k: int| from <= k < names.len() ==> json_member(doc, #[trigger] names[k]) is None,
    ensures
        member_under(doc, names, from) is None,
    decreases names.len() - from,
{
    if from < names.len() {
        lemma_member_absent(doc, names, from + 1);
    }
}

/// A lamp's intensity counts the same under each of its names. Let one
/// document hold a number under the lamp's own name, and another hold a number
/// with the same double under one of the lamp's other names and nothing under
/// the names before that one. Where the two read the same for every other
/// lamp, they decode to the same lamps, or fail with the same error.
pub proof fn alias_reads_as_own_name(
    plain: Value,
    aliased: Value,
    channel: LampChannel,
    alias: int,
    held: Value,
    held_aliased: Value,
)
    requires
        0 <= alias < lamp_names(channel).len(),
        json_member(plain, lamp_names(channel)[0]) == Some(held),
        json_member(aliased, lamp_names(channel)[alias]) == Some(held_aliased),
        forall|k: int|
            0 <= k < alias ==> json_member(aliased, #[trigger] lamp_names(channel)[k]) is None,
        json_double(held) == json_double(held_aliased),
        forall|other: LampChannel|
            other != channel ==> #[trigger] lamp_reading(plain, other) == lamp_reading(
                aliased,
                other,
            ),
    ensures
        lamp_reading(plain, channel) == lamp_reading(aliased, channel),
        decoded_lamps(plain) == decoded_lamps(aliased),
{
    lemma_member_found_at(plain, lamp_names(channel), 0, 0);
    lemma_member_found_at(aliased, lamp_names(channel), alias, 0);
    assert(lamp_reading(plain, channel) == lamp_reading(aliased, channel));
    assert forall|any: LampChannel| #[trigger]
        lamp_reading(plain, any) == lamp_reading(aliased, any) by {}
}

/// A lamp that a document may lack reads zero where the document has it under
/// none of its names. The absence is no error: where the lamps decode, they
/// hold zero for it, and where they do not, the error is that of another lamp.
pub proof fn absent_lamp_reads_zero(doc: Value, channel: LampChannel)
    requires
        !lamp_required(channel),
        forall|k: int|
            0 <= k < lamp_names(channel).len() ==> json_member(
                doc,
                #[trigger] lamp_names(channel)[k],
            ) is None,
    ensures
        lamp_reading(doc, channel) == Ok::<Reading, DecodeErrorView>(Reading { bits: 0 }),
        decoded_lamps(doc) matches Ok(lamps) ==> lamp_of(lamps, channel) == (Reading { bits: 0 }),
        decoded_lamps(doc) matches Err(e) ==> exists|other: LampChannel|
            other != channel && #[trigger] lamp_reading(doc, other) == Err::<
                Reading,
                DecodeErrorView,
            >(e),
{
    lemma_member_absent(doc, lamp_names(channel), 0);
    match decoded_lamps(doc) {
        Ok(lamps) => {},
        Err(e) => {
            let other = first_failing_lamp(doc);
            assert(lamp_reading(doc, other) == Err::<Reading, DecodeErrorView>(e));
        },
    }
}

/// The first lamp, in decoding order, that `doc` does not read for.
pub open spec fn first_failing_lamp(doc: Value) -> LampChannel {
    if lamp_reading(doc, LampChannel::Headlight) is Err {
        LampChannel::Headlight
    } else if lamp_reading(doc, LampChannel::Traveling) is Err {
        LampChannel::Traveling
    } else if lamp_reading(doc, LampChannel::FrontDoor) is Err {
        LampChannel::FrontDoor
    } else if lamp_reading(doc, LampChannel::SecondDoor) is Err {
        LampChannel::SecondDoor
    } else if lamp_reading(doc, LampChannel::ThirdDoor) is Err {
        LampChannel::ThirdDoor
    } else if lamp_reading(doc, LampChannel::FourthDoor) is Err {
        LampChannel::FourthDoor
    } else if lamp_reading(doc, LampChannel::StopRequest) is Err {
        LampChannel::StopRequest
    } else {
        LampChannel::StopBrake
    }
}

/// A vehicle whose lamps lack one that they may lack decodes, where it
/// decodes, to a vehicle with zero for that lamp.
pub proof fn vehicle_without_lamp_reads_zero(doc: Value, lamps_doc: Value, channel: LampChannel)
    requires
        json_member(doc, "AllLamps"@) == Some(lamps_doc),
        !lamp_required(channel),
        forall|k: int|
            0 <= k < lamp_names(channel).len() ==> json_member(
                lamps_doc,
                #[trigger] lamp_names(channel)[k],
            ) is None,
    ensures
        decoded_vehicle(doc) matches Ok(vehicle) ==> lamp_of(vehicle.all_lamps, channel) == (
        Reading { bits: 0 }),
{
    absent_lamp_reads_zero(lamps_doc, channel);
    lemma_member_found_at(doc, seq!["AllLamps"@], 0, 0);
}

} // verus!
