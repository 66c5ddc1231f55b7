//! Reports the fields in which two vehicle states differ.

use crate::vehicle::GearSelector;
use crate::vehicle::Indicator;
use crate::vehicle::VehicleState;
use vstd::prelude::*;

verus! {

/// The value of one field of a vehicle state.
#[derive(Clone, Copy, Debug, PartialEq, Eq, Structural)]
pub enum FieldValue {
    Flag(bool),
    Signal(Indicator),
    Gear(GearSelector),
    Magnitude(u32),
}

impl FieldValue {
    /// The number under which the value is shown: 0 and 1 for a flag, the
    /// state's own number for an indicator or a gear, a magnitude as it is.
    pub open spec fn spec_code(self) -> u32 {
        match self {
            FieldValue::Flag(b) => if b { 1 } else { 0 },
            FieldValue::Signal(i) => i.spec_code(),
            FieldValue::Gear(g) => g.spec_code(),
            FieldValue::Magnitude(n) => n,
        }
    }

    #[verifier::when_used_as_spec(spec_code)]
    pub fn code(self) -> (n: u32)
        ensures
            n == self.spec_code(),
    {
        match self {
            FieldValue::Flag(b) => if b { 1 } else { 0 },
            FieldValue::Signal(i) => i.code(),
            FieldValue::Gear(g) => g.code(),
            FieldValue::Magnitude(n) => n,
        }
    }
}

/// One reported difference: the field's name, what it held and what it holds.
#[derive(Clone, Debug, PartialEq, Eq)]
pub struct FieldChange {
    pub field: String,
    pub old_value: FieldValue,
    pub new_value: FieldValue,
}

/// A `FieldChange` as a plain value.
pub struct FieldChangeView {
    pub field: Seq<char>,
    pub old_value: FieldValue,
    pub new_value: FieldValue,
}

impl View for FieldChange {
    type V = FieldChangeView;

    open spec fn view(&self) -> FieldChangeView {
        FieldChangeView { field: self.field@, old_value: self.old_value, new_value: self.new_value }
    }
}

/// The views of a list of changes, in their order.
pub open spec fn changes_view(changes: Seq<FieldChange>) -> Seq<FieldChangeView> {
    changes.map_values(|c: FieldChange| c@)
}

/// What one field contributes to a report: one change if its value differs or
/// the report is forced, else nothing.
pub open spec fn change_of(name: Seq<char>, old: FieldValue, new: FieldValue, force: bool) -> Seq<
    FieldChangeView,
> {
    if old != new || force {
        seq![FieldChangeView { field: name, old_value: old, new_value: new }]
    } else {
        Seq::empty()
    }
}

/// The number of fields that a report goes through.
pub open spec fn field_count() -> nat {
    18
}

/// The name under which the field at `index` is reported.
pub open spec fn field_name(index: int) -> Seq<char> {
    if index == 0 {
        "ignition"@
    } else if index == 1 {
        "engine"@
    } else if index == 2 {
        "lights_warning"@
    } else if index == 3 {
        "doors"@
    } else if index == 4 {
        "fixing_brake"@
    } else if index == 5 {
        "lights_main"@
    } else if index == 6 {
        "lights_high_beam"@
    } else if index == 7 {
        "lights_front_door"@
    } else if index == 8 {
        "lights_second_door"@
    } else if index == 9 {
        "lights_third_door"@
    } else if index == 10 {
        "lights_fourth_door"@
    } else if index == 11 {
        "lights_stop_request"@
    } else if index == 12 {
        "lights_stop_brake"@
    } else if index == 13 {
        "indicator"@
    } else if index == 14 {
        "gearselector"@
    } else if index == 15 {
        "speed"@
    } else if index == 16 {
        "maxspeed"@
    } else {
        "fuel"@
    }
}

/// The value that `state` holds in the field at `index`.
pub open spec fn field_value(state: VehicleState, index: int) -> FieldValue {
    if index == 0 {
        FieldValue::Flag(state.ignition)
    } else if index == 1 {
        FieldValue::Flag(state.engine)
    } else if index == 2 {
        FieldValue::Flag(state.lights_warning)
    } else if index == 3 {
        FieldValue::Flag(state.doors)
    } else if index == 4 {
        FieldValue::Flag(state.fixing_brake)
    } else if index == 5 {
        FieldValue::Flag(state.lights_main)
    } else if index == 6 {
        FieldValue::Flag(state.lights_high_beam)
    } else if index == 7 {
        FieldValue::Flag(state.lights_front_door)
    } else if index == 8 {
        FieldValue::Flag(state.lights_second_door)
    } else if index == 9 {
        FieldValue::Flag(state.lights_third_door)
    } else if index == 10 {
        FieldValue::Flag(state.lights_fourth_door)
    } else if index == 11 {
        FieldValue::Flag(state.lights_stop_request)
    } else if index == 12 {
        FieldValue::Flag(state.lights_stop_brake)
    } else if index == 13 {
        FieldValue::Signal(state.indicator)
    } else if index == 14 {
        FieldValue::Gear(state.gear_selector)
    } else if index == 15 {
        FieldValue::Magnitude(state.speed)
    } else if index == 16 {
        FieldValue::Magnitude(state.maxspeed)
    } else {
        FieldValue::Magnitude(state.fuel)
    }
}

/// The report on the first `upto` fields: their contributions, in field order.
pub open spec fn changes_upto(old: VehicleState, new: VehicleState, force: bool, upto: nat) -> Seq<
    FieldChangeView,
>
    decreases upto,
{
    if upto == 0 {
        Seq::empty()
    } else {
        changes_upto(old, new, force, (upto - 1) as nat) + change_of(
            field_name(upto - 1),
            field_value(old, upto - 1),
            field_value(new, upto - 1),
            force,
        )
    }
}

/// The full report: for each field in order, a change if and only if the two
/// states differ in it or the report is forced.
pub open spec fn changes_between(old: VehicleState, new: VehicleState, force: bool) -> Seq<
    FieldChangeView,
> {
    changes_upto(old, new, force, field_count())
}

/// Appends to `out` what one field contributes to a report.
fn note_change(
    out: &mut Vec<FieldChange>,
    name: &str,
    before: FieldValue,
    after: FieldValue,
    force: bool,
)
    ensures
        changes_view(final(out)@) == changes_view(old(out)@) + change_of(
            name@,
            before,
            after,
            force,
        ),
{
    if before != after || force {
        let ghost listed = out@;
        out.push(FieldChange { field: name.to_owned(), old_value: before, new_value: after });
        assert(changes_view(out@) =~= changes_view(listed) + change_of(name@, before, after, force));
    } else {
        assert(changes_view(out@) =~= changes_view(out@) + change_of(name@, before, after, force));
    }
}

/// Compares two states field by field and lists every change, in field order.
/// With `force` every field is listed, changed or not.
pub fn compare_vehicle_states(old: &VehicleState, new: &VehicleState, force: bool) -> (changes: Vec<
    FieldChange,
>)
    ensures
        changes_view(changes@) == changes_between(*old, *new, force),
{
    let mut out: Vec<FieldChange> = Vec::new();
    proof {
        reveal_with_fuel(changes_upto, 19);
        assert(changes_view(out@) =~= changes_upto(*old, *new, force, 0));
    }
    note_change(&mut out, "ignition", FieldValue::Flag(old.ignition), FieldValue::Flag(new.ignition), force);
    note_change(&mut out, "engine", FieldValue::Flag(old.engine), FieldValue::Flag(new.engine), force);
    note_change(
        &mut out,
        "lights_warning",
        FieldValue::Flag(old.lights_warning),
        FieldValue::Flag(new.lights_warning),
        force,
    );
    note_change(&mut out, "doors", FieldValue::Flag(old.doors), FieldValue::Flag(new.doors), force);
    note_change(
        &mut out,
        "fixing_brake",
        FieldValue::Flag(old.fixing_brake),
        FieldValue::Flag(new.fixing_brake),
        force,
    );
    note_change(
        &mut out,
        "lights_main",
        FieldValue::Flag(old.lights_main),
        FieldValue::Flag(new.lights_main),
        force,
    );
    note_change(
        &mut out,
        "lights_high_beam",
        FieldValue::Flag(old.lights_high_beam),
        FieldValue::Flag(new.lights_high_beam),
        force,
    );
    note_change(
        &mut out,
        "lights_front_door",
        FieldValue::Flag(old.lights_front_door),
        FieldValue::Flag(new.lights_front_door),
        force,
    );
    note_change(
        &mut out,
        "lights_second_door",
        FieldValue::Flag(old.lights_second_door),
        FieldValue::Flag(new.lights_second_door),
        force,
    );
    note_change(
        &mut out,
        "lights_third_door",
        FieldValue::Flag(old.lights_third_door),
        FieldValue::Flag(new.lights_third_door),
        force,
    );
    note_change(
        &mut out,
        "lights_fourth_door",
        FieldValue::Flag(old.lights_fourth_door),
        FieldValue::Flag(new.lights_fourth_door),
        force,
    );
    note_change(
        &mut out,
        "lights_stop_request",
        FieldValue::Flag(old.lights_stop_request),
        FieldValue::Flag(new.lights_stop_request),
        force,
    );
    note_change(
        &mut out,
        "lights_stop_brake",
        FieldValue::Flag(old.lights_stop_brake),
        FieldValue::Flag(new.lights_stop_brake),
        force,
    );
    note_change(
        &mut out,
        "indicator",
        FieldValue::Signal(old.indicator),
        FieldValue::Signal(new.indicator),
        force,
    );
    note_change(
        &mut out,
        "gearselector",
        FieldValue::Gear(old.gear_selector),
        FieldValue::Gear(new.gear_selector),
        force,
    );
    note_change(&mut out, "speed", FieldValue::Magnitude(old.speed), FieldValue::Magnitude(new.speed), force);
    note_change(
        &mut out,
        "maxspeed",
        FieldValue::Magnitude(old.maxspeed),
        FieldValue::Magnitude(new.maxspeed),
        force,
    );
    note_change(&mut out, "fuel", FieldValue::Magnitude(old.fuel), FieldValue::Magnitude(new.fuel), force);
    out
}

/// What the field at `index` contributes where it is listed.
pub open spec fn entry_of(old: VehicleState, new: VehicleState, index: int) -> FieldChangeView {
    FieldChangeView {
        field: field_name(index),
        old_value: field_value(old, index),
        new_value: field_value(new, index),
    }
}

/// A state compared with itself, unforced, gives an empty report.
pub proof fn same_state_reports_nothing(state: VehicleState)
    ensures
        changes_between(state, state, false) == Seq::<FieldChangeView>::empty(),
{
    reveal_with_fuel(changes_upto, 19);
    assert(changes_between(state, state, false) =~= Seq::<FieldChangeView>::empty());
}

/// A forced report lists every field once, in field order, whatever the two
/// states hold.
pub proof fn forced_report_lists_every_field(old: VehicleState, new: VehicleState)
    ensures
        changes_between(old, new, true).len() == field_count(),
        forall|i: int|
            0 <= i < field_count() ==> #[trigger] changes_between(old, new, true)[i] == entry_of(
                old,
                new,
                i,
            ),
{
    lemma_forced_upto(old, new, field_count());
}

proof fn lemma_forced_upto(old: VehicleState, new: VehicleState, upto: nat)
    ensures
        changes_upto(old, new, true, upto).len() == upto,
        forall|i: int|
            0 <= i < upto ==> #[trigger] changes_upto(old, new, true, upto)[i] == entry_of(
                old,
                new,
                i,
            ),
    decreases upto,
{
    if upto > 0 {
        lemma_forced_upto(old, new, (upto - 1) as nat);
    }
}

/// A state compared with itself, forced, gives one change for each field, and
/// each of them holds the same value twice.
pub proof fn forced_report_on_same_state(state: VehicleState)
    ensures
        changes_between(state, state, true).len() == field_count(),
        forall|i: int|
            0 <= i < field_count() ==> (#[trigger] changes_between(
                state,
                state,
                true,
            )[i]).old_value == changes_between(state, state, true)[i].new_value,
{
    forced_report_lists_every_field(state, state);
}

/// An unforced report lists the fields in which the two states differ, and no
/// others: every change in it is that of a field whose values differ, and
/// every field whose values differ has its change in it.
pub proof fn report_lists_the_differences(old: VehicleState, new: VehicleState)
    ensures
        forall|k: int|
            0 <= k < changes_between(old, new, false).len() ==> exists|i: int|
                0 <= i < field_count() && field_value(old, i) != field_value(new, i)
                    && #[trigger] changes_between(old, new, false)[k] == entry_of(old, new, i),
        forall|i: int|
            0 <= i < field_count() && field_value(old, i) != field_value(new, i)
                ==> changes_between(old, new, false).contains(#[trigger] entry_of(old, new, i)),
{
    lemma_differences_upto(old, new, field_count());
}

proof fn lemma_differences_upto(old: VehicleState, new: VehicleState, upto: nat)
    ensures
        forall|k: int|
            0 <= k < changes_upto(old, new, false, upto).len() ==> exists|i: int|
                0 <= i < upto && field_value(old, i) != field_value(new, i)
                    && #[trigger] changes_upto(old, new, false, upto)[k] == entry_of(old, new, i),
        forall|i: int|
            0 <= i < upto && field_value(old, i) != field_value(new, i) ==> changes_upto(
                old,
                new,
                false,
                upto,
            ).contains(#[trigger] entry_of(old, new, i)),
    decreases upto,
{
    if upto > 0 {
        let before = changes_upto(old, new, false, (upto - 1) as nat);
        let now = changes_upto(old, new, false, upto);
        let last = upto - 1;
        lemma_differences_upto(old, new, (upto - 1) as nat);
        assert forall|k: int| 0 <= k < now.len() implies exists|i: int|
            0 <= i < upto && field_value(old, i) != field_value(new, i) && #[trigger] now[k]
                == entry_of(old, new, i) by {
            if k < before.len() {
                assert(now[k] == before[k]);
                let i = choose|i: int|
                    0 <= i < upto - 1 && field_value(old, i) != field_value(new, i) && before[k]
                        == entry_of(old, new, i);
                assert(0 <= i < upto && now[k] == entry_of(old, new, i));
            } else {
                assert(now[k] == entry_of(old, new, last));
            }
        }
        assert forall|i: int|
            0 <= i < upto && field_value(old, i) != field_value(new, i) implies now.contains(
            #[trigger] entry_of(old, new, i),
        ) by {
            if i < last {
                assert(before.contains(entry_of(old, new, i)));
                let k = choose|k: int| 0 <= k < before.len() && before[k] == entry_of(old, new, i);
                assert(now[k] == entry_of(old, new, i));
            } else {
                assert(now[before.len() as int] == entry_of(old, new, i));
            }
        }
    }
}

} // verus!
