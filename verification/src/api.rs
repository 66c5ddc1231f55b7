//! The records of the telemetry interface as they arrive, and the lookups on
//! a vehicle's list of buttons.

pub use crate::config::RequestConfig;
use crate::json::items;
use crate::json::json_items;
use crate::json::json_member;
use crate::json::json_text;
use crate::json::member;
use crate::json::text;
use crate::reading::Reading;
use serde_json::Value;
use vstd::prelude::*;

verus! {

/// One control of the vehicle, as the interface lists it. Names need not be
/// unique within a list.
#[derive(Debug, PartialEq, Default, Clone)]
pub struct ApiButton {
    pub name: String,
    pub tooltip: String,
    pub state: String,
    pub value: String,
    pub actions: Vec<String>,
    pub states: Vec<String>,
}

/// An `ApiButton` as a plain value.
pub struct ButtonView {
    pub name: Seq<char>,
    pub tooltip: Seq<char>,
    pub state: Seq<char>,
    pub value: Seq<char>,
    pub actions: Seq<Seq<char>>,
    pub states: Seq<Seq<char>>,
}

/// The texts of a list of strings, in their order.
pub open spec fn texts(list: Seq<String>) -> Seq<Seq<char>> {
    list.map_values(|s: String| s@)
}

impl View for ApiButton {
    type V = ButtonView;

    open spec fn view(&self) -> ButtonView {
        ButtonView {
            name: self.name@,
            tooltip: self.tooltip@,
            state: self.state@,
            value: self.value@,
            actions: texts(self.actions@),
            states: texts(self.states@),
        }
    }
}

/// The views of a list of buttons, in their order.
pub open spec fn buttons_view(list: Seq<ApiButton>) -> Seq<ButtonView> {
    list.map_values(|b: ApiButton| b@)
}

/// The intensities of a vehicle's lamps.
#[derive(Clone, Copy, Debug, PartialEq, Eq, Structural)]
pub struct ApiLamps {
    pub light_main: Reading,
    pub traveller_light: Reading,
    pub front_door_light: Reading,
    pub second_door_light: Reading,
    pub third_door_light: Reading,
    pub fourth_door_light: Reading,
    pub led_stop_request: Reading,
    pub light_stopbrake: Reading,
}

/// A vehicle as the interface describes it, before any rule is applied.
#[derive(Debug, PartialEq, Clone)]
pub struct ApiVehicleType {
    pub actor_name: String,
    pub vehicle_model: String,
    pub ignition_enabled: String,
    pub engine_started: String,
    pub warning_lights: String,
    pub passenger_doors_open: String,
    pub fixing_brake: String,
    pub speed: Reading,
    pub allowed_speed: Reading,
    pub display_fuel: Reading,
    pub indicator_state: i8,
    pub all_lamps: ApiLamps,
    pub buttons: Vec<ApiButton>,
}

/// An `ApiVehicleType` as a plain value.
pub struct VehicleView {
    pub actor_name: Seq<char>,
    pub vehicle_model: Seq<char>,
    pub ignition_enabled: Seq<char>,
    pub engine_started: Seq<char>,
    pub warning_lights: Seq<char>,
    pub passenger_doors_open: Seq<char>,
    pub fixing_brake: Seq<char>,
    pub speed: Reading,
    pub allowed_speed: Reading,
    pub display_fuel: Reading,
    pub indicator_state: i8,
    pub all_lamps: ApiLamps,
    pub buttons: Seq<ButtonView>,
}

impl View for ApiVehicleType {
    type V = VehicleView;

    open spec fn view(&self) -> VehicleView {
        VehicleView {
            actor_name: self.actor_name@,
            vehicle_model: self.vehicle_model@,
            ignition_enabled: self.ignition_enabled@,
            engine_started: self.engine_started@,
            warning_lights: self.warning_lights@,
            passenger_doors_open: self.passenger_doors_open@,
            fixing_brake: self.fixing_brake@,
            speed: self.speed,
            allowed_speed: self.allowed_speed,
            display_fuel: self.display_fuel,
            indicator_state: self.indicator_state,
            all_lamps: self.all_lamps,
            buttons: buttons_view(self.buttons@),
        }
    }
}

/// The world that the vehicle drives in, as the interface describes it.
#[derive(Debug, PartialEq, Clone)]
pub struct ApiWorldType {
    pub level_name: String,
    pub date_time: String,
    pub time_factor: Reading,
    pub base_latitude: Reading,
    pub base_longitude: Reading,
}

/// An `ApiWorldType` as a plain value.
pub struct WorldView {
    pub level_name: Seq<char>,
    pub date_time: Seq<char>,
    pub time_factor: Reading,
    pub base_latitude: Reading,
    pub base_longitude: Reading,
}

impl View for ApiWorldType {
    type V = WorldView;

    open spec fn view(&self) -> WorldView {
        WorldView {
            level_name: self.level_name@,
            date_time: self.date_time@,
            time_factor: self.time_factor,
            base_latitude: self.base_latitude,
            base_longitude: self.base_longitude,
        }
    }
}

/// Whether `part` occurs in `whole` as a run of neighbouring characters.
pub open spec fn contains_text(whole: Seq<char>, part: Seq<char>) -> bool {
    exists|at: int|
        0 <= at && at + part.len() <= whole.len() && #[trigger] whole.subrange(
            at,
            at + part.len(),
        ) == part
}

/// The buttons whose name is `name`.
pub open spec fn is_named(name: Seq<char>) -> spec_fn(ButtonView) -> bool {
    |b: ButtonView| b.name == name
}

/// The buttons whose name contains `part`.
pub open spec fn name_contains(part: Seq<char>) -> spec_fn(ButtonView) -> bool {
    |b: ButtonView| contains_text(b.name, part)
}

/// The place of the first item at or after `from` that `wanted` holds of.
pub open spec fn first_where<A>(items: Seq<A>, wanted: spec_fn(A) -> bool, from: int) -> Option<int>
    decreases items.len() - from,
{
    if from < 0 || from >= items.len() {
        None
    } else if wanted(items[from]) {
        Some(from)
    } else {
        first_where(items, wanted, from + 1)
    }
}

/// The state of the first button that `wanted` holds of; the empty text where
/// there is none.
pub open spec fn state_where(buttons: Seq<ButtonView>, wanted: spec_fn(ButtonView) -> bool) -> Seq<
    char,
> {
    match first_where(buttons, wanted, 0) {
        Some(i) => buttons[i].state,
        None => Seq::empty(),
    }
}

/// The name and the state of each button, in the list's order.
pub open spec fn name_state_pairs(buttons: Seq<ButtonView>) -> Seq<(Seq<char>, Seq<char>)> {
    buttons.map_values(|b: ButtonView| (b.name, b.state))
}

/// The texts of a list of pairs of strings, in their order.
pub open spec fn pairs_view(list: Seq<(String, String)>) -> Seq<(Seq<char>, Seq<char>)> {
    list.map_values(|p: (String, String)| (p.0@, p.1@))
}

/// `first_where` finds the first place, and only a place where `wanted` holds:
/// a place is found if and only if `wanted` holds there and nowhere before it,
/// and none is found if and only if `wanted` holds nowhere.
pub proof fn first_where_is_first<A>(items: Seq<A>, wanted: spec_fn(A) -> bool)
    ensures
        match first_where(items, wanted, 0) {
            Some(i) => 0 <= i < items.len() && wanted(items[i]) && forall|j: int|
                0 <= j < i ==> !wanted(#[trigger] items[j]),
            None => forall|j: int| 0 <= j < items.len() ==> !wanted(#[trigger] items[j]),
        },
{
    first_where_from(items, wanted, 0);
}

proof fn first_where_from<A>(items: Seq<A>, wanted: spec_fn(A) -> bool, from: int)
    requires
        0 <= from,
    ensures
        match first_where(items, wanted, from) {
            Some(i) => from <= i < items.len() && wanted(items[i]) && forall|j: int|
                from <= j < i ==> !wanted(#[trigger] items[j]),
            None => forall|j: int| from <= j < items.len() ==> !wanted(#[trigger] items[j]),
        },
    decreases items.len() - from,
{
    if from < items.len() && !wanted(items[from]) {
        first_where_from(items, wanted, from + 1);
    }
}

/// Where no button is named `name`, keeping the buttons of that name keeps
/// none.
pub proof fn none_named_keeps_none(buttons: Seq<ButtonView>, name: Seq<char>)
    requires
        forall|i: int| 0 <= i < buttons.len() ==> (#[trigger] buttons[i]).name != name,
    ensures
        buttons.filter(is_named(name)) == Seq::<ButtonView>::empty(),
{
    let kept = buttons.filter(is_named(name));
    if kept.len() > 0 {
        buttons.lemma_filter_pred(is_named(name), 0);
        buttons.lemma_filter_contains_rev(is_named(name), kept[0]);
    }
}

/// A copy of `list`.
fn copy_texts(list: &Vec<String>) -> (copy: Vec<String>)
    ensures
        texts(copy@) == texts(list@),
{
    let mut copy: Vec<String> = Vec::new();
    let mut i: usize = 0;
    while i < list.len()
        invariant
            i <= list.len(),
            copy.len() == i,
            forall|j: int| 0 <= j < i ==> copy[j]@ == list[j]@,
        decreases list.len() - i,
    {
        copy.push(list[i].clone());
        i += 1;
    }
    assert(texts(copy@) =~= texts(list@));
    copy
}

/// A copy of `button`.
fn copy_button(button: &ApiButton) -> (copy: ApiButton)
    ensures
        copy@ == button@,
{
    ApiButton {
        name: button.name.clone(),
        tooltip: button.tooltip.clone(),
        state: button.state.clone(),
        value: button.value.clone(),
        actions: copy_texts(&button.actions),
        states: copy_texts(&button.states),
    }
}

/// `str::contains` with a string as the pattern. Trusted: as the standard
/// library documents it, the result says whether `part` matches a sub-slice of
/// `whole`.
#[verifier::external_body]
fn has_part(whole: &str, part: &str) -> (found: bool)
    ensures
        found == contains_text(whole@, part@),
{
    whole.contains(part)
}

/// Whether `text` is `wanted`, character for character.
pub(crate) fn is_text(text: &str, wanted: &str) -> (same: bool)
    ensures
        same == (text@ == wanted@),
{
    let held: String = text.to_owned();
    let sought: String = wanted.to_owned();
    held == sought
}

/// The place of the first button named `name`.
fn find_named(buttons: &Vec<ApiButton>, name: &str) -> (found: Option<usize>)
    ensures
        match found {
            Some(i) => i < buttons.len() && first_where(
                buttons_view(buttons@),
                is_named(name@),
                0,
            ) == Some(i as int),
            None => first_where(buttons_view(buttons@), is_named(name@), 0) is None,
        },
{
    let key: String = name.to_owned();
    let mut i: usize = 0;
    while i < buttons.len()
        invariant
            i <= buttons.len(),
            key@ == name@,
            first_where(buttons_view(buttons@), is_named(name@), 0) == first_where(
                buttons_view(buttons@),
                is_named(name@),
                i as int,
            ),
        decreases buttons.len() - i,
    {
        if buttons[i].name == key {
            return Some(i);
        }
        i += 1;
    }
    None
}

/// The place of the first button whose name contains `part`.
fn find_containing(buttons: &Vec<ApiButton>, part: &str) -> (found: Option<usize>)
    ensures
        match found {
            Some(i) => i < buttons.len() && first_where(
                buttons_view(buttons@),
                name_contains(part@),
                0,
            ) == Some(i as int),
            None => first_where(buttons_view(buttons@), name_contains(part@), 0) is None,
        },
{
    let mut i: usize = 0;
    while i < buttons.len()
        invariant
            i <= buttons.len(),
            first_where(buttons_view(buttons@), name_contains(part@), 0) == first_where(
                buttons_view(buttons@),
                name_contains(part@),
                i as int,
            ),
        decreases buttons.len() - i,
    {
        if has_part(buttons[i].name.as_str(), part) {
            return Some(i);
        }
        i += 1;
    }
    None
}

impl ApiVehicleType {
    /// A copy of the first button named `name`.
    pub fn get_button(&self, name: &str) -> (found: Option<ApiButton>)
        ensures
            match first_where(self@.buttons, is_named(name@), 0) {
                Some(i) => found matches Some(b) && b@ == self@.buttons[i],
                None => found is None,
            },
    {
        match find_named(&self.buttons, name) {
            Some(i) => Some(copy_button(&self.buttons[i])),
            None => None,
        }
    }

    /// The state of the first button named `name`; the empty text where there
    /// is none.
    pub fn get_button_state(&self, name: &str) -> (state: String)
        ensures
            state@ == state_where(self@.buttons, is_named(name@)),
    {
        match find_named(&self.buttons, name) {
            Some(i) => self.buttons[i].state.clone(),
            None => String::new(),
        }
    }

    /// The state of the first button whose name contains `part`; the empty
    /// text where there is none.
    pub fn get_button_state_contains(&self, part: &str) -> (state: String)
        ensures
            state@ == state_where(self@.buttons, name_contains(part@)),
    {
        match find_containing(&self.buttons, part) {
            Some(i) => self.buttons[i].state.clone(),
            None => String::new(),
        }
    }

    /// Copies of all buttons named `name`, in the list's order.
    pub fn filtered_buttons(&self, name: &str) -> (kept: Vec<ApiButton>)
        ensures
            buttons_view(kept@) == self@.buttons.filter(is_named(name@)),
    {
        let key: String = name.to_owned();
        let mut kept: Vec<ApiButton> = Vec::new();
        let mut i: usize = 0;
        proof {
            reveal(Seq::filter);
            assert(self@.buttons.take(0) =~= Seq::<ButtonView>::empty());
            assert(buttons_view(kept@) =~= Seq::<ButtonView>::empty());
        }
        while i < self.buttons.len()
            invariant
                i <= self.buttons.len(),
                key@ == name@,
                buttons_view(kept@) == self@.buttons.take(i as int).filter(is_named(name@)),
            decreases self.buttons.len() - i,
        {
            let ghost listed = self@.buttons.take(i as int);
            let ghost before = kept@;
            proof {
                assert(self@.buttons.take(i + 1) =~= listed.push(self@.buttons[i as int]));
                listed.lemma_filter_push(self@.buttons[i as int], is_named(name@));
            }
            if self.buttons[i].name == key {
                kept.push(copy_button(&self.buttons[i]));
                assert(buttons_view(kept@) =~= buttons_view(before).push(self@.buttons[i as int]));
            }
            i += 1;
        }
        assert(self@.buttons.take(i as int) =~= self@.buttons);
        kept
    }

    /// Keeps the buttons named `name` and drops all others, for good.
    pub fn retain_buttons_by_name(&mut self, name: &str)
        ensures
            final(self)@.buttons == old(self)@.buttons.filter(is_named(name@)),
            final(self)@ == (VehicleView { buttons: final(self)@.buttons, ..old(self)@ }),
    {
        let kept: Vec<ApiButton> = self.filtered_buttons(name);
        self.buttons = kept;
    }

    /// The name and the state of each button, in the list's order.
    pub fn buttons_name_state(&self) -> (pairs: Vec<(String, String)>)
        ensures
            pairs_view(pairs@) == name_state_pairs(self@.buttons),
    {
        let mut pairs: Vec<(String, String)> = Vec::new();
        let mut i: usize = 0;
        while i < self.buttons.len()
            invariant
                i <= self.buttons.len(),
                pairs.len() == i,
                forall|j: int|
                    0 <= j < i ==> (#[trigger] pairs[j]).0@ == self.buttons[j].name@ && pairs[j].1@
                        == self.buttons[j].state@,
            decreases self.buttons.len() - i,
        {
            pairs.push((self.buttons[i].name.clone(), self.buttons[i].state.clone()));
            i += 1;
        }
        assert(pairs_view(pairs@) =~= name_state_pairs(self@.buttons));
        pairs
    }
}

/// The text that `doc` holds under `key`, where it holds a text there.
pub open spec fn text_member(doc: Value, key: Seq<char>) -> Option<Seq<char>> {
    match json_member(doc, key) {
        Some(m) => json_text(m),
        None => None,
    }
}

/// The entries of a list of buttons that hold the text `name` under `Name`.
pub open spec fn entry_named(name: Seq<char>) -> spec_fn(Value) -> bool {
    |entry: Value| text_member(entry, "Name"@) == Some(name)
}

/// The state of the button `name` in the document `data` of a vehicle: what
/// the first entry of `Buttons` with that name holds as a text under `State`.
/// It is the empty text where `data` has no list of buttons, the list no such
/// entry, or the entry no text as its state.
pub open spec fn button_state_in(data: Value, name: Seq<char>) -> Seq<char> {
    match json_member(data, "Buttons"@) {
        Some(list) => match json_items(list) {
            Some(entries) => match first_where(entries, entry_named(name), 0) {
                Some(i) => match text_member(entries[i], "State"@) {
                    Some(state) => state,
                    None => Seq::empty(),
                },
                None => Seq::empty(),
            },
            None => Seq::empty(),
        },
        None => Seq::empty(),
    }
}

/// The vehicle that the player drives, by the document `player`: what it
/// holds as a text under `CurrentVehicle`, provided that it holds the text
/// `Vehicle` under `Mode`. It is the empty text in every other case.
pub open spec fn current_vehicle_in(player: Value) -> Seq<char> {
    if text_member(player, "Mode"@) == Some("Vehicle"@) {
        match text_member(player, "CurrentVehicle"@) {
            Some(name) => name,
            None => Seq::empty(),
        }
    } else {
        Seq::empty()
    }
}

/// The text that `doc` holds under `key`.
fn read_text_member<'a>(doc: &'a Value, key: &str) -> (r: Option<&'a str>)
    ensures
        match r {
            Some(t) => text_member(*doc, key@) == Some(t@),
            None => text_member(*doc, key@) is None,
        },
{
    match member(doc, key) {
        Some(m) => text(m),
        None => None,
    }
}

/// The state of the button `name` in the document `data` of a vehicle; the
/// empty text where there is none.
pub fn get_button_by_name(data: &Value, name: &str) -> (state: String)
    ensures
        state@ == button_state_in(*data, name@),
{
    let entries: &Vec<Value> = match member(data, "Buttons") {
        Some(list) => match items(list) {
            Some(entries) => entries,
            None => {
                return String::new();
            },
        },
        None => {
            return String::new();
        },
    };
    let mut i: usize = 0;
    while i < entries.len()
        invariant
            i <= entries.len(),
            json_member(*data, "Buttons"@) matches Some(list) && json_items(list) == Some(
                entries@,
            ),
            first_where(entries@, entry_named(name@), 0) == first_where(
                entries@,
                entry_named(name@),
                i as int,
            ),
        decreases entries.len() - i,
    {
        let named: bool = match read_text_member(&entries[i], "Name") {
            Some(t) => is_text(t, name),
            None => false,
        };
        if named {
            return match read_text_member(&entries[i], "State") {
                Some(t) => t.to_owned(),
                None => String::new(),
            };
        }
        i += 1;
    }
    String::new()
}

/// The name of the vehicle that the player drives, by the document `player`;
/// the empty text where the player drives none.
pub fn current_vehicle_name(player: &Value) -> (name: String)
    ensures
        name@ == current_vehicle_in(*player),
{
    let driving: bool = match read_text_member(player, "Mode") {
        Some(mode) => is_text(mode, "Vehicle"),
        None => false,
    };
    if driving {
        match read_text_member(player, "CurrentVehicle") {
            Some(t) => t.to_owned(),
            None => String::new(),
        }
    } else {
        String::new()
    }
}

} // verus!
