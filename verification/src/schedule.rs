//! The schedule of control signals: which entity is driven by which numbers, step by step.

use crate::home_assistant::{domain_of, entity_id_of, extract_entity_id, valid_domain};
use crate::home_assistant::{law_entity_stands_in_front_of_the_grid, lemma_domain_is_a_word};
use crate::json::{lemma_list_view, list_view};
use crate::json::{Json, JsonView, Number};
use crate::text::{contains_text, find_text, same_text};
use crate::text::{law_contained_text_can_be_cut_out, law_text_stands_in_its_surroundings};
use vstd::prelude::*;
use vstd::seq_lib::{lemma_multiset_commutative, to_multiset_remove};

verus! {

/// How long one step of a schedule lasts, in seconds.
pub const CONTROL_SIGNAL_STEP_SECS: u64 = 900;

/// An entity and, for each step, the numbers whose sum drives it.
#[derive(Debug, PartialEq, Eq)]
pub struct DeviceSignal {
    pub entity_id: String,
    pub steps: Vec<Vec<Number>>,
}

/// A schedule of control signals, with each entity listed once.
#[derive(Debug, PartialEq, Eq)]
pub struct Schedule {
    pub devices: Vec<DeviceSignal>,
}

/// What is sent to one entity in one step: the sum of these numbers, in this order, from zero.
#[derive(Debug, PartialEq, Eq)]
pub struct StepCommand {
    pub entity_id: String,
    pub addends: Vec<Number>,
}

/// What a `StepCommand` says.
#[verifier::ext_equal]
pub struct StepCommandView {
    pub entity_id: Seq<char>,
    pub addends: Seq<Number>,
}

impl View for StepCommand {
    type V = StepCommandView;

    open spec fn view(&self) -> StepCommandView {
        StepCommandView { entity_id: self.entity_id@, addends: self.addends@ }
    }
}

/// What becomes of the schedule that is running.
#[derive(Debug, PartialEq, Eq)]
pub enum SchedulePlan {
    /// It goes on.
    Keep,
    /// It is stopped.
    Cancel,
    /// It is stopped, and another one takes its place.
    Replace(Schedule),
}

/// The member `key` of a signal, where it is a text.
pub open spec fn member_text(signal: JsonView, key: Seq<char>) -> Option<Seq<char>> {
    match signal.get(key) {
        Some(document) => document.text(),
        None => None,
    }
}

/// The member `key` of a signal, where it is a list.
pub open spec fn member_list(signal: JsonView, key: Seq<char>) -> Option<Seq<JsonView>> {
    match signal.get(key) {
        Some(document) => document.elements(),
        None => None,
    }
}

/// A signal that drives an entity from the electricity grid.
pub struct GridSignal {
    pub entity_id: Seq<char>,
    pub values: Seq<JsonView>,
}

/// The entity that a signal drives from the electricity grid, and the values of the signal.
pub open spec fn grid_signal(signal: JsonView) -> Option<GridSignal> {
    match (member_text(signal, "name"@), member_list(signal, "signal"@)) {
        (Some(name), Some(values)) => if contains_text(name, "_electricitygrid_"@)
            && entity_id_of(name).len() > 0 {
            Some(GridSignal { entity_id: entity_id_of(name), values })
        } else {
            None
        },
        _ => None,
    }
}

/// Whether a signal drives the entity.
pub open spec fn drives(signal: JsonView, id: Seq<char>) -> bool {
    grid_signal(signal) is Some && grid_signal(signal)->0.entity_id == id
}

/// Whether any of the signals drives the entity.
pub open spec fn is_driven(signals: Seq<JsonView>, id: Seq<char>) -> bool {
    exists|i: int| 0 <= i < signals.len() && drives(#[trigger] signals[i], id)
}

/// Whether the signals drive any entity.
pub open spec fn drives_any(signals: Seq<JsonView>) -> bool {
    exists|i: int| 0 <= i < signals.len() && grid_signal(#[trigger] signals[i]) is Some
}

/// The number at a step of a list of values, where there is one.
pub open spec fn number_at(values: Seq<JsonView>, step: int) -> Seq<Number> {
    if 0 <= step < values.len() && values[step].number() is Some {
        seq![values[step].number()->0]
    } else {
        seq![]
    }
}

/// The numbers that the signals of an entity have at a step, in the order of the signals.
pub open spec fn numbers_at(signals: Seq<JsonView>, id: Seq<char>, step: int) -> Seq<Number>
    decreases signals.len(),
{
    if signals.len() == 0 {
        seq![]
    } else if drives(signals.last(), id) {
        numbers_at(signals.drop_last(), id, step) + number_at(
            grid_signal(signals.last())->0.values,
            step,
        )
    } else {
        numbers_at(signals.drop_last(), id, step)
    }
}

/// The larger of two numbers.
pub open spec fn larger(a: nat, b: nat) -> nat {
    if a < b {
        b
    } else {
        a
    }
}

/// The length of the longest signal of an entity.
pub open spec fn longest(signals: Seq<JsonView>, id: Seq<char>) -> nat
    decreases signals.len(),
{
    if signals.len() == 0 {
        0
    } else if drives(signals.last(), id) {
        larger(longest(signals.drop_last(), id), grid_signal(signals.last())->0.values.len())
    } else {
        longest(signals.drop_last(), id)
    }
}

/// Whether the steps of a device are those that the signals give its entity.
pub open spec fn follows(device: DeviceSignal, signals: Seq<JsonView>) -> bool {
    &&& is_driven(signals, device.entity_id@)
    &&& device.steps@.len() == longest(signals, device.entity_id@)
    &&& forall|k: int|
        0 <= k < device.steps@.len() ==> #[trigger] device.steps@[k]@ == numbers_at(
            signals,
            device.entity_id@,
            k,
        )
}

/// Whether the devices are those that the signals drive, each listed once.
pub open spec fn carries_out(devices: Seq<DeviceSignal>, signals: Seq<JsonView>) -> bool {
    &&& forall|i: int, j: int|
        0 <= i < j < devices.len() ==> #[trigger] devices[i].entity_id@
            != #[trigger] devices[j].entity_id@
    &&& forall|i: int| 0 <= i < devices.len() ==> follows(#[trigger] devices[i], signals)
    &&& forall|id: Seq<char>| #[trigger]
        is_driven(signals, id) ==> exists|i: int|
            0 <= i < devices.len() && #[trigger] devices[i].entity_id@ == id
}

/// Whether a plan is what control signals call for: the running schedule goes on where they are no
/// list, and is stopped where they drive no entity.
pub open spec fn plan_fits(plan: SchedulePlan, signals: JsonView) -> bool {
    match plan {
        SchedulePlan::Keep => signals.elements() is None,
        SchedulePlan::Cancel => signals.elements() is Some && !drives_any(signals.elements()->0),
        SchedulePlan::Replace(schedule) => signals.elements() is Some && drives_any(
            signals.elements()->0,
        ) && carries_out(schedule.devices@, signals.elements()->0),
    }
}

/// The numbers of a list of steps at one step; none beyond its end.
pub open spec fn step_numbers(steps: Seq<Vec<Number>>, step: int) -> Seq<Number> {
    if 0 <= step < steps.len() {
        steps[step]@
    } else {
        seq![]
    }
}

/// The number of steps of the device with the most.
pub open spec fn most_steps(devices: Seq<DeviceSignal>) -> nat
    decreases devices.len(),
{
    if devices.len() == 0 {
        0
    } else {
        larger(most_steps(devices.drop_last()), devices.last().steps@.len())
    }
}

/// What is sent in one step: one command to each entity, without numbers beyond its end.
pub open spec fn commands_at(devices: Seq<DeviceSignal>, step: int) -> Seq<StepCommandView> {
    Seq::new(
        devices.len(),
        |i: int|
            StepCommandView {
                entity_id: devices[i].entity_id@,
                addends: step_numbers(devices[i].steps@, step),
            },
    )
}

/// How long to pause after a step, in seconds: not at all after the last one.
pub open spec fn pause_length(devices: Seq<DeviceSignal>, step: int) -> Option<u64> {
    if step + 1 < most_steps(devices) {
        Some(CONTROL_SIGNAL_STEP_SECS)
    } else {
        None
    }
}

/// What a list of commands says.
pub open spec fn commands_view(commands: Seq<StepCommand>) -> Seq<StepCommandView> {
    commands.map_values(|command: StepCommand| command@)
}

/// Adds the numbers of one signal to the steps of its entity.
fn add_values(steps: &mut Vec<Vec<Number>>, values: &Vec<Json>)
    ensures
        final(steps)@.len() == larger(old(steps)@.len(), values@.len()),
        forall|k: int|
            0 <= k < final(steps)@.len() ==> #[trigger] final(steps)@[k]@ == step_numbers(
                old(steps)@,
                k,
            ) + number_at(list_view(values@), k),
{
    let ghost before = steps@;
    while steps.len() < values.len()
        invariant
            before.len() <= steps@.len() <= larger(before.len(), values@.len()),
            forall|k: int|
                0 <= k < steps@.len() ==> #[trigger] steps@[k]@ == step_numbers(before, k),
        decreases values@.len() - steps@.len(),
    {
        steps.push(Vec::new());
    }
    proof {
        lemma_list_view(values@);
    }
    let mut k: usize = 0;
    while k < values.len()
        invariant
            k <= values@.len() <= steps@.len(),
            steps@.len() == larger(before.len(), values@.len()),
            list_view(values@).len() == values@.len(),
            forall|j: int|
                0 <= j < values@.len() ==> #[trigger] list_view(values@)[j] == values@[j]@,
            forall|j: int|
                0 <= j < k ==> #[trigger] steps@[j]@ == step_numbers(before, j) + number_at(
                    list_view(values@),
                    j,
                ),
            forall|j: int|
                k <= j < steps@.len() ==> #[trigger] steps@[j]@ == step_numbers(before, j),
        decreases values@.len() - k,
    {
        assert(list_view(values@)[k as int] == values@[k as int]@);
        let ghost at_step = steps@[k as int]@;
        if let Some(number) = values[k].as_number() {
            steps[k].push(number);
            assert(at_step.push(number) =~= at_step + seq![number]);
        } else {
            assert(at_step + seq![] =~= at_step);
        }
        k = k + 1;
    }
    assert forall|j: int| 0 <= j < steps@.len() implies #[trigger] steps@[j]@ == step_numbers(
        before,
        j,
    ) + number_at(list_view(values@), j) by {
        if j >= values@.len() {
            assert(step_numbers(before, j) + number_at(list_view(values@), j) =~= step_numbers(
                before,
                j,
            ));
        }
    }
}

/// The position of an entity in a list of devices.
fn find_device(devices: &Vec<DeviceSignal>, id: &str) -> (r: Option<usize>)
    ensures
        match r {
            Some(i) => i < devices@.len() && devices@[i as int].entity_id@ == id@,
            None => forall|i: int|
                0 <= i < devices@.len() ==> #[trigger] devices@[i].entity_id@ != id@,
        },
{
    let mut i: usize = 0;
    while i < devices.len()
        invariant
            i <= devices@.len(),
            forall|j: int| 0 <= j < i ==> #[trigger] devices@[j].entity_id@ != id@,
        decreases devices@.len() - i,
    {
        if same_text(devices[i].entity_id.as_str(), id) {
            return Some(i);
        }
        i = i + 1;
    }
    None
}

/// Reads a signal that drives an entity from the electricity grid.
fn read_grid_signal(signal: &Json) -> (r: Option<(String, &Vec<Json>)>)
    ensures
        match r {
            Some((id, values)) => grid_signal(signal@) == Some(
                GridSignal { entity_id: id@, values: list_view(values@) },
            ),
            None => grid_signal(signal@) is None,
        },
{
    let name = match signal.get("name") {
        Some(document) => match document.as_str() {
            Some(name) => name,
            None => {
                return None;
            },
        },
        None => {
            return None;
        },
    };
    let values = match signal.get("signal") {
        Some(document) => match document.as_array() {
            Some(values) => values,
            None => {
                return None;
            },
        },
        None => {
            return None;
        },
    };
    match find_text(name, "_electricitygrid_") {
        Some(_) => {},
        None => {
            return None;
        },
    }
    let id = extract_entity_id(name);
    if id.as_str().is_empty() {
        return None;
    }
    Some((id, values))
}

/// A signal that drives nothing changes nothing.
proof fn lemma_ignored(devices: Seq<DeviceSignal>, signals: Seq<JsonView>)
    requires
        signals.len() > 0,
        grid_signal(signals.last()) is None,
        carries_out(devices, signals.drop_last()),
    ensures
        carries_out(devices, signals),
{
    let earlier = signals.drop_last();
    assert forall|i: int| 0 <= i < devices.len() implies follows(#[trigger] devices[i], signals) by {
        assert(follows(devices[i], earlier));
        lemma_driven(signals, devices[i].entity_id@);
    }
    assert forall|id: Seq<char>| #[trigger] is_driven(signals, id) implies exists|i: int|
        0 <= i < devices.len() && #[trigger] devices[i].entity_id@ == id by {
        lemma_driven(signals, id);
        assert(is_driven(earlier, id));
    }
}

/// An entity is driven by some of the signals or by the last one.
proof fn lemma_driven(signals: Seq<JsonView>, id: Seq<char>)
    requires
        signals.len() > 0,
    ensures
        is_driven(signals, id) == (is_driven(signals.drop_last(), id) || drives(
            signals.last(),
            id,
        )),
{
    let earlier = signals.drop_last();
    if is_driven(earlier, id) {
        let i = choose|i: int| 0 <= i < earlier.len() && drives(#[trigger] earlier[i], id);
        assert(drives(signals[i], id));
    }
    if drives(signals.last(), id) {
        assert(drives(signals[signals.len() - 1], id));
    }
    if is_driven(signals, id) {
        let i = choose|i: int| 0 <= i < signals.len() && drives(#[trigger] signals[i], id);
        if i < signals.len() - 1 {
            assert(drives(earlier[i], id));
        }
    }
}

/// An entity that nothing drives has no numbers and no steps.
proof fn lemma_undriven(signals: Seq<JsonView>, id: Seq<char>, step: int)
    requires
        !is_driven(signals, id),
    ensures
        numbers_at(signals, id, step) == Seq::<Number>::empty(),
        longest(signals, id) == 0,
    decreases signals.len(),
{
    if signals.len() > 0 {
        lemma_driven(signals, id);
        lemma_undriven(signals.drop_last(), id, step);
    }
}

/// The numbers beyond the longest signal of an entity are none.
proof fn lemma_beyond(signals: Seq<JsonView>, id: Seq<char>, step: int)
    requires
        longest(signals, id) <= step,
    ensures
        numbers_at(signals, id, step) == Seq::<Number>::empty(),
    decreases signals.len(),
{
    if signals.len() > 0 {
        lemma_beyond(signals.drop_last(), id, step);
    }
}

/// A device that took up the last signal follows all of them, and the others still do.
proof fn lemma_taken_up(
    before: Seq<DeviceSignal>,
    after: Seq<DeviceSignal>,
    signals: Seq<JsonView>,
    at: int,
)
    requires
        signals.len() > 0,
        grid_signal(signals.last()) is Some,
        carries_out(before, signals.drop_last()),
        0 <= at < after.len(),
        after[at].entity_id@ == grid_signal(signals.last())->0.entity_id,
        at < before.len() ==> after.len() == before.len() && before[at].entity_id@
            == after[at].entity_id@,
        at == before.len() ==> after.len() == before.len() + 1,
        at <= before.len(),
        at == before.len() ==> forall|i: int|
            0 <= i < before.len() ==> #[trigger] before[i].entity_id@ != after[at].entity_id@,
        forall|i: int| 0 <= i < after.len() && i != at ==> #[trigger] after[i] == before[i],
        after[at].steps@.len() == larger(
            (if at < before.len() {
                before[at].steps@.len()
            } else {
                0
            }),
            grid_signal(signals.last())->0.values.len(),
        ),
        forall|k: int|
            0 <= k < after[at].steps@.len() ==> #[trigger] after[at].steps@[k]@ == (
            if at < before.len() {
                step_numbers(before[at].steps@, k)
            } else {
                seq![]
            }) + number_at(grid_signal(signals.last())->0.values, k),
    ensures
        carries_out(after, signals),
{
    let earlier = signals.drop_last();
    let id = after[at].entity_id@;
    lemma_driven(signals, id);
    assert(drives(signals.last(), id));
    if at == before.len() {
        if is_driven(earlier, id) {
            let i = choose|i: int|
                0 <= i < before.len() && #[trigger] before[i].entity_id@ == id;
            assert(before[i].entity_id@ == id);
        }
    } else {
        assert(follows(before[at], earlier));
    }
    assert forall|k: int| 0 <= k < after[at].steps@.len() implies #[trigger] after[at].steps@[k]@
        == numbers_at(signals, id, k) by {
        if at == before.len() {
            lemma_undriven(earlier, id, k);
        } else if k < before[at].steps@.len() {
            assert(before[at].steps@[k]@ == numbers_at(earlier, id, k));
        } else {
            lemma_beyond(earlier, id, k);
        }
    }
    if at == before.len() {
        lemma_undriven(earlier, id, 0);
    }
    assert(follows(after[at], signals));
    assert forall|i: int| 0 <= i < after.len() implies follows(#[trigger] after[i], signals) by {
        if i != at {
            assert(after[i] == before[i]);
            assert(follows(before[i], earlier));
            lemma_driven(signals, before[i].entity_id@);
            if i < at {
                assert(at < before.len() ==> before[i].entity_id@ != before[at].entity_id@);
            } else {
                assert(before[at].entity_id@ != before[i].entity_id@);
            }
        }
    }
    assert forall|i: int, j: int| 0 <= i < j < after.len() implies #[trigger] after[i].entity_id@
        != #[trigger] after[j].entity_id@ by {
        if i != at {
            assert(after[i] == before[i]);
        }
        if j != at {
            assert(after[j] == before[j]);
        }
        if i < before.len() && j < before.len() {
            assert(before[i].entity_id@ != before[j].entity_id@);
        }
    }
    assert forall|other: Seq<char>| #[trigger] is_driven(signals, other) implies exists|i: int|
        0 <= i < after.len() && #[trigger] after[i].entity_id@ == other by {
        lemma_driven(signals, other);
        if other == id {
            assert(after[at].entity_id@ == other);
        } else {
            assert(is_driven(earlier, other));
            let i = choose|i: int|
                0 <= i < before.len() && #[trigger] before[i].entity_id@ == other;
            assert(before[i].entity_id@ == other);
            assert(after[i].entity_id@ == other);
        }
    }
}

/// Gathers the signals of each entity that is driven from the electricity grid.
pub fn device_signals(signals: &Vec<Json>) -> (r: Vec<DeviceSignal>)
    ensures
        carries_out(r@, list_view(signals@)),
{
    let mut devices: Vec<DeviceSignal> = Vec::new();
    let mut n: usize = 0;
    let ghost all = list_view(signals@);
    proof {
        lemma_list_view(signals@);
        assert(all.take(0) =~= seq![]);
    }
    while n < signals.len()
        invariant
            n <= signals@.len(),
            all == list_view(signals@),
            all.len() == signals@.len(),
            forall|i: int| 0 <= i < signals@.len() ==> #[trigger] all[i] == signals@[i]@,
            carries_out(devices@, all.take(n as int)),
        decreases signals@.len() - n,
    {
        let ghost before = devices@;
        let ghost next = all.take(n + 1);
        assert(next.drop_last() =~= all.take(n as int));
        assert(all[n as int] == signals@[n as int]@);
        assert(next.last() == signals@[n as int]@);
        match read_grid_signal(&signals[n]) {
            None => {
                proof {
                    lemma_ignored(before, next);
                }
            },
            Some((id, values)) => {
                proof {
                    lemma_list_view(values@);
                }
                match find_device(&devices, id.as_str()) {
                    Some(at) => {
                        let mut device = devices.remove(at);
                        add_values(&mut device.steps, values);
                        devices.insert(at, device);
                        proof {
                            lemma_taken_up(before, devices@, next, at as int);
                        }
                    },
                    None => {
                        let mut steps: Vec<Vec<Number>> = Vec::new();
                        add_values(&mut steps, values);
                        devices.push(DeviceSignal { entity_id: id, steps });
                        proof {
                            lemma_taken_up(before, devices@, next, before.len() as int);
                        }
                    },
                }
            },
        }
        n = n + 1;
    }
    assert(all.take(n as int) =~= all);
    devices
}

/// There are devices where the signals drive any entity.
proof fn lemma_devices_of(devices: Seq<DeviceSignal>, signals: Seq<JsonView>)
    requires
        carries_out(devices, signals),
    ensures
        devices.len() > 0 <==> drives_any(signals),
{
    if devices.len() > 0 {
        assert(follows(devices[0], signals));
        let i = choose|i: int|
            0 <= i < signals.len() && drives(#[trigger] signals[i], devices[0].entity_id@);
        assert(grid_signal(signals[i]) is Some);
    }
    if drives_any(signals) {
        let i = choose|i: int| 0 <= i < signals.len() && grid_signal(#[trigger] signals[i]) is Some;
        assert(drives(signals[i], grid_signal(signals[i])->0.entity_id));
        assert(is_driven(signals, grid_signal(signals[i])->0.entity_id));
    }
}

/// Decides what becomes of the running schedule, given the control signals of an outcome.
pub fn plan_control(signals: &Json) -> (r: SchedulePlan)
    ensures
        plan_fits(r, signals@),
{
    match signals.as_array() {
        None => SchedulePlan::Keep,
        Some(list) => {
            let devices = device_signals(list);
            proof {
                lemma_devices_of(devices@, list_view(list@));
            }
            if devices.len() == 0 {
                SchedulePlan::Cancel
            } else {
                SchedulePlan::Replace(Schedule { devices })
            }
        },
    }
}

impl Schedule {
    /// The number of steps: that of the entity with the most.
    pub fn step_count(&self) -> (r: usize)
        ensures
            r == most_steps(self.devices@),
            forall|i: int|
                0 <= i < self.devices@.len() ==> #[trigger] self.devices@[i].steps@.len() <= r,
            r == 0 || exists|i: int|
                0 <= i < self.devices@.len() && #[trigger] self.devices@[i].steps@.len() == r,
    {
        let mut most: usize = 0;
        let mut i: usize = 0;
        assert(self.devices@.take(0) =~= seq![]);
        while i < self.devices.len()
            invariant
                i <= self.devices@.len(),
                most == most_steps(self.devices@.take(i as int)),
                forall|j: int|
                    0 <= j < i ==> #[trigger] self.devices@[j].steps@.len() <= most,
                most == 0 || exists|j: int|
                    0 <= j < i && #[trigger] self.devices@[j].steps@.len() == most,
            decreases self.devices@.len() - i,
        {
            assert(self.devices@.take(i + 1).drop_last() =~= self.devices@.take(i as int));
            let steps: usize = self.devices[i].steps.len();
            if steps > most {
                most = steps;
                assert(self.devices@[i as int].steps@.len() == most);
            }
            i = i + 1;
        }
        assert(self.devices@.take(i as int) =~= self.devices@);
        most
    }

    /// What is sent in one step: one command to each entity, without numbers beyond its end.
    pub fn commands(&self, step: usize) -> (r: Vec<StepCommand>)
        ensures
            commands_view(r@) == commands_at(self.devices@, step as int),
    {
        let mut r: Vec<StepCommand> = Vec::new();
        let mut i: usize = 0;
        while i < self.devices.len()
            invariant
                i <= self.devices@.len(),
                r@.len() == i,
                forall|j: int|
                    0 <= j < i ==> (#[trigger] r@[j]).entity_id@ == self.devices@[j].entity_id@
                        && r@[j].addends@ == step_numbers(self.devices@[j].steps@, step as int),
            decreases self.devices@.len() - i,
        {
            let device = &self.devices[i];
            let mut addends: Vec<Number> = Vec::new();
            if step < device.steps.len() {
                let numbers = &device.steps[step];
                let mut k: usize = 0;
                while k < numbers.len()
                    invariant
                        k <= numbers@.len(),
                        addends@ == numbers@.take(k as int),
                    decreases numbers@.len() - k,
                {
                    addends.push(numbers[k]);
                    assert(numbers@.take(k + 1) =~= numbers@.take(k as int).push(
                        numbers@[k as int],
                    ));
                    k = k + 1;
                }
                assert(numbers@.take(k as int) =~= numbers@);
            }
            r.push(StepCommand { entity_id: device.entity_id.clone(), addends });
            i = i + 1;
        }
        assert(commands_view(r@) =~= commands_at(self.devices@, step as int));
        r
    }

    /// How long to pause after a step, in seconds: not at all where no entity has a later step.
    pub fn pause_after(&self, step: usize) -> (r: Option<u64>)
        ensures
            r == if step + 1 < most_steps(self.devices@) {
                Some(CONTROL_SIGNAL_STEP_SECS)
            } else {
                None
            },
            r == pause_length(self.devices@, step as int),
    {
        let count: usize = self.step_count();
        if step < count && step + 1 < count {
            Some(CONTROL_SIGNAL_STEP_SECS)
        } else {
            None
        }
    }
}

/// Only entities that the backend controls are driven.
pub proof fn law_driven_entities_are_controlled(signals: Seq<JsonView>, id: Seq<char>)
    requires
        is_driven(signals, id),
    ensures
        id.len() > 0,
        valid_domain(domain_of(id)),
{
}

/// The numbers that drive an entity are those of the first signals followed by those of the others,
/// and its schedule is as long as the longer of the two.
pub proof fn law_signals_add_up(
    first: Seq<JsonView>,
    others: Seq<JsonView>,
    id: Seq<char>,
    step: int,
)
    ensures
        numbers_at(first + others, id, step) == numbers_at(first, id, step) + numbers_at(
            others,
            id,
            step,
        ),
        longest(first + others, id) == larger(longest(first, id), longest(others, id)),
    decreases others.len(),
{
    if others.len() == 0 {
        assert(first + others =~= first);
        assert(numbers_at(first, id, step) + numbers_at(others, id, step) =~= numbers_at(
            first,
            id,
            step,
        ));
    } else {
        let all = first + others;
        assert(all.drop_last() =~= first + others.drop_last());
        assert(all.last() == others.last());
        law_signals_add_up(first, others.drop_last(), id, step);
        let number = number_at(grid_signal(others.last())->0.values, step);
        assert((numbers_at(first, id, step) + numbers_at(others.drop_last(), id, step)) + number
            =~= numbers_at(first, id, step) + (numbers_at(others.drop_last(), id, step) + number));
    }
}

/// Beyond the end of its longest signal an entity is sent no number.
pub proof fn law_no_numbers_beyond_the_end(signals: Seq<JsonView>, id: Seq<char>, step: int)
    requires
        longest(signals, id) <= step,
    ensures
        numbers_at(signals, id, step) == Seq::<Number>::empty(),
{
    lemma_beyond(signals, id, step);
}

/// In every step each entity is sent the numbers that its signals have at that step.
pub proof fn law_commands_follow_the_signals(
    devices: Seq<DeviceSignal>,
    signals: Seq<JsonView>,
    i: int,
    step: int,
)
    requires
        carries_out(devices, signals),
        0 <= i < devices.len(),
        0 <= step,
    ensures
        step_numbers(devices[i].steps@, step) == numbers_at(signals, devices[i].entity_id@, step),
{
    assert(follows(devices[i], signals));
    if step < devices[i].steps@.len() {
        assert(devices[i].steps@[step]@ == numbers_at(signals, devices[i].entity_id@, step));
    } else {
        lemma_beyond(signals, devices[i].entity_id@, step);
    }
}

/// The signals apart from one, and that one, have together what all of them have.
proof fn lemma_set_aside(signals: Seq<JsonView>, at: int, id: Seq<char>, step: int)
    requires
        0 <= at < signals.len(),
    ensures
        numbers_at(signals, id, step).to_multiset() == numbers_at(
            signals.remove(at),
            id,
            step,
        ).to_multiset().add(numbers_at(seq![signals[at]], id, step).to_multiset()),
        longest(signals, id) == larger(
            longest(signals.remove(at), id),
            longest(seq![signals[at]], id),
        ),
{
    let front = signals.take(at);
    let one = seq![signals[at]];
    let back = signals.skip(at + 1);
    assert(signals =~= (front + one) + back);
    assert(signals.remove(at) =~= front + back);
    law_signals_add_up(front + one, back, id, step);
    law_signals_add_up(front, one, id, step);
    law_signals_add_up(front, back, id, step);
    lemma_multiset_commutative(
        numbers_at(front, id, step) + numbers_at(one, id, step),
        numbers_at(back, id, step),
    );
    lemma_multiset_commutative(numbers_at(front, id, step), numbers_at(one, id, step));
    lemma_multiset_commutative(numbers_at(front, id, step), numbers_at(back, id, step));
    assert(numbers_at(signals, id, step).to_multiset() =~= numbers_at(
        signals.remove(at),
        id,
        step,
    ).to_multiset().add(numbers_at(one, id, step).to_multiset()));
}

/// What drives an entity still drives it among signals that hold the same.
proof fn lemma_driven_in(signals: Seq<JsonView>, reordered: Seq<JsonView>, id: Seq<char>)
    requires
        signals.to_multiset() == reordered.to_multiset(),
        is_driven(signals, id),
    ensures
        is_driven(reordered, id),
{
    broadcast use vstd::seq_lib::to_multiset_contains;

    let i = choose|i: int| 0 <= i < signals.len() && drives(#[trigger] signals[i], id);
    assert(signals.contains(signals[i]));
    assert(signals.to_multiset().count(signals[i]) > 0);
    assert(reordered.to_multiset().count(signals[i]) > 0);
    assert(reordered.contains(signals[i]));
    let j = choose|j: int| 0 <= j < reordered.len() && reordered[j] == signals[i];
    assert(drives(reordered[j], id));
}

/// The same signals in another order drive the same entities, with the same numbers in each step
/// but for their order, and for as many steps.
pub proof fn law_order_of_signals_makes_no_difference(
    signals: Seq<JsonView>,
    reordered: Seq<JsonView>,
    id: Seq<char>,
    step: int,
)
    requires
        signals.to_multiset() == reordered.to_multiset(),
    ensures
        is_driven(signals, id) == is_driven(reordered, id),
        numbers_at(signals, id, step).to_multiset() == numbers_at(
            reordered,
            id,
            step,
        ).to_multiset(),
        longest(signals, id) == longest(reordered, id),
    decreases signals.len(),
{
    broadcast use vstd::multiset::group_multiset_axioms;
    broadcast use vstd::seq_lib::to_multiset_contains;

    signals.to_multiset_ensures();
    reordered.to_multiset_ensures();
    if signals.len() == 0 {
        assert(reordered.len() == 0);
        assert(signals =~= reordered);
    } else {
        let last = signals.last();
        let n = signals.len() - 1;
        assert(signals[n] == last);
        assert(signals.contains(last));
        assert(signals.to_multiset().count(last) > 0);
        assert(reordered.contains(last));
        let at = choose|at: int| 0 <= at < reordered.len() && reordered[at] == last;
        to_multiset_remove(signals, n);
        to_multiset_remove(reordered, at);
        law_order_of_signals_makes_no_difference(signals.remove(n), reordered.remove(at), id, step);
        lemma_set_aside(signals, n, id, step);
        lemma_set_aside(reordered, at, id, step);
        if is_driven(signals, id) {
            lemma_driven_in(signals, reordered, id);
        }
        if is_driven(reordered, id) {
            lemma_driven_in(reordered, signals, id);
        }
    }
}

/// No device has more steps than the one with the most, and one has as many.
proof fn lemma_most_steps(devices: Seq<DeviceSignal>)
    ensures
        forall|i: int|
            0 <= i < devices.len() ==> (#[trigger] devices[i]).steps@.len() <= most_steps(devices),
        most_steps(devices) > 0 ==> exists|i: int|
            0 <= i < devices.len() && (#[trigger] devices[i]).steps@.len() == most_steps(devices),
    decreases devices.len(),
{
    if devices.len() > 0 {
        let front = devices.drop_last();
        lemma_most_steps(front);
        assert forall|i: int| 0 <= i < devices.len() implies (#[trigger] devices[i]).steps@.len()
            <= most_steps(devices) by {
            if i < front.len() {
                assert(front[i] == devices[i]);
            }
        }
        if most_steps(devices) > 0 {
            if devices.last().steps@.len() == most_steps(devices) {
                assert(devices[devices.len() - 1].steps@.len() == most_steps(devices));
            } else {
                let i = choose|i: int|
                    0 <= i < front.len() && (#[trigger] front[i]).steps@.len() == most_steps(front);
                assert(devices[i].steps@.len() == most_steps(devices));
            }
        }
    }
}

/// Whether two devices drive the same entity with the same numbers in each step but for their order.
pub open spec fn alike(device: DeviceSignal, other: DeviceSignal) -> bool {
    &&& other.entity_id@ == device.entity_id@
    &&& other.steps@.len() == device.steps@.len()
    &&& forall|step: int|
        0 <= step < device.steps@.len() ==> (#[trigger] other.steps@[step])@.to_multiset()
            == device.steps@[step]@.to_multiset()
}

/// The device that drives an entity of another schedule for the same signals in another order.
proof fn lemma_counterpart(
    devices: Seq<DeviceSignal>,
    signals: Seq<JsonView>,
    others: Seq<DeviceSignal>,
    reordered: Seq<JsonView>,
    i: int,
) -> (j: int)
    requires
        signals.to_multiset() == reordered.to_multiset(),
        carries_out(devices, signals),
        carries_out(others, reordered),
        0 <= i < devices.len(),
    ensures
        0 <= j < others.len(),
        alike(devices[i], others[j]),
{
    let device = devices[i];
    let id = device.entity_id@;
    assert(follows(device, signals));
    law_order_of_signals_makes_no_difference(signals, reordered, id, 0);
    assert(is_driven(reordered, id));
    let j = choose|j: int| 0 <= j < others.len() && #[trigger] others[j].entity_id@ == id;
    let other = others[j];
    assert(follows(other, reordered));
    assert forall|step: int| 0 <= step < device.steps@.len() implies (#[trigger] other.steps@[step])@
        .to_multiset() == device.steps@[step]@.to_multiset() by {
        law_order_of_signals_makes_no_difference(signals, reordered, id, step);
        assert(device.steps@[step]@ == numbers_at(signals, id, step));
    }
    j
}

/// The same signals in another order are carried out in no fewer steps.
proof fn lemma_no_fewer_steps(
    devices: Seq<DeviceSignal>,
    signals: Seq<JsonView>,
    others: Seq<DeviceSignal>,
    reordered: Seq<JsonView>,
)
    requires
        signals.to_multiset() == reordered.to_multiset(),
        carries_out(devices, signals),
        carries_out(others, reordered),
    ensures
        most_steps(devices) <= most_steps(others),
{
    lemma_most_steps(devices);
    lemma_most_steps(others);
    if most_steps(devices) > 0 {
        let i = choose|i: int|
            0 <= i < devices.len() && (#[trigger] devices[i]).steps@.len() == most_steps(devices);
        let j = lemma_counterpart(devices, signals, others, reordered, i);
        assert(others[j].steps@.len() <= most_steps(others));
    }
}

/// Two schedules that carry out the same signals in different orders have as many steps, and each
/// device of the one has its like in the other.
pub proof fn law_reordered_signals_are_carried_out_alike(
    devices: Seq<DeviceSignal>,
    signals: Seq<JsonView>,
    others: Seq<DeviceSignal>,
    reordered: Seq<JsonView>,
    i: int,
)
    requires
        signals.to_multiset() == reordered.to_multiset(),
        carries_out(devices, signals),
        carries_out(others, reordered),
        0 <= i < devices.len(),
    ensures
        most_steps(devices) == most_steps(others),
        exists|j: int| 0 <= j < others.len() && #[trigger] alike(devices[i], others[j]),
{
    lemma_no_fewer_steps(devices, signals, others, reordered);
    lemma_no_fewer_steps(others, reordered, devices, signals);
    let j = lemma_counterpart(devices, signals, others, reordered, i);
    assert(alike(devices[i], others[j]));
}

/// What a single signal does to the entity of its own and to every other.
proof fn lemma_single(signal: JsonView, id: Seq<char>, step: int)
    ensures
        is_driven(seq![signal], id) == drives(signal, id),
        drives(signal, id) ==> longest(seq![signal], id) == grid_signal(signal)->0.values.len(),
        drives(signal, id) ==> numbers_at(seq![signal], id, step) == number_at(
            grid_signal(signal)->0.values,
            step,
        ),
        !drives(signal, id) ==> longest(seq![signal], id) == 0,
        !drives(signal, id) ==> numbers_at(seq![signal], id, step) == Seq::<Number>::empty(),
{
    let one = seq![signal];
    assert(one[0] == signal);
    assert(one.last() == signal);
    assert(one.drop_last() =~= seq![]);
    assert(numbers_at(one.drop_last(), id, step) =~= seq![]);
    assert(longest(one.drop_last(), id) == 0);
    if drives(signal, id) {
        let number = number_at(grid_signal(signal)->0.values, step);
        assert(numbers_at(one, id, step) =~= number);
    }
}

/// A signal whose name holds `_electricitygrid_` drives the entity that it names, in as many steps as
/// it has values, with exactly the number that stands at each step, be it an integer or not; where no
/// number stands, it adds none. It drives no other entity.
pub proof fn law_signal_drives_the_entity_it_names(
    signal: JsonView,
    front: Seq<char>,
    rest: Seq<char>,
    values: Seq<JsonView>,
    other: Seq<char>,
    step: int,
    number: Number,
)
    requires
        signal.get("name"@) == Some(JsonView::Text(front + "_electricitygrid_"@ + rest)),
        signal.get("signal"@) == Some(JsonView::List(values)),
        entity_id_of(front + "_electricitygrid_"@ + rest) != Seq::<char>::empty(),
    ensures
        ({
            let id = entity_id_of(front + "_electricitygrid_"@ + rest);
            &&& is_driven(seq![signal], id)
            &&& longest(seq![signal], id) == values.len()
            &&& 0 <= step < values.len() && values[step] == JsonView::Number(number) ==> numbers_at(
                seq![signal],
                id,
                step,
            ) == seq![number]
            &&& 0 <= step < values.len() && !(values[step] is Number) ==> numbers_at(
                seq![signal],
                id,
                step,
            ) == Seq::<Number>::empty()
            &&& step < 0 || step >= values.len() ==> numbers_at(seq![signal], id, step) == Seq::<
                Number,
            >::empty()
            &&& other != id ==> !is_driven(seq![signal], other) && longest(seq![signal], other) == 0
                && numbers_at(seq![signal], other, step) == Seq::<Number>::empty()
        }),
{
    let name = front + "_electricitygrid_"@ + rest;
    let id = entity_id_of(name);
    law_text_stands_in_its_surroundings(front, "_electricitygrid_"@, rest);
    if id.len() == 0 {
        assert(id =~= Seq::<char>::empty());
    }
    assert(drives(signal, id));
    lemma_single(signal, id, step);
    lemma_single(signal, other, step);
}

/// A signal that is named after a controlled entity and the electricity grid brings that entity
/// exactly the number that stands at each of its steps, be it an integer or not.
pub proof fn law_named_entity_gets_the_number_of_each_step(
    signal: JsonView,
    domain: Seq<char>,
    object: Seq<char>,
    rest: Seq<char>,
    values: Seq<JsonView>,
    step: int,
    number: Number,
)
    requires
        domain == "switch"@ || domain == "light"@ || domain == "climate"@ || domain == "number"@
            || domain == "fan"@ || domain == "cover"@,
        forall|a: Seq<char>, b: Seq<char>|
            domain + "."@ + object != #[trigger] (a + "_electricitygrid"@ + b),
        signal.get("name"@) == Some(
            JsonView::Text(domain + "."@ + object + "_electricitygrid_"@ + rest),
        ),
        signal.get("signal"@) == Some(JsonView::List(values)),
        0 <= step < values.len(),
        values[step] == JsonView::Number(number),
    ensures
        is_driven(seq![signal], domain + "."@ + object),
        longest(seq![signal], domain + "."@ + object) == values.len(),
        numbers_at(seq![signal], domain + "."@ + object, step) == seq![number],
{
    let id = domain + "."@ + object;
    lemma_grid_name(domain, object, rest);
    law_signal_drives_the_entity_it_names(signal, id, rest, values, id, step, number);
}

/// The entity of a name that goes on behind the marker.
proof fn lemma_grid_name(domain: Seq<char>, object: Seq<char>, rest: Seq<char>)
    requires
        domain == "switch"@ || domain == "light"@ || domain == "climate"@ || domain == "number"@
            || domain == "fan"@ || domain == "cover"@,
        forall|a: Seq<char>, b: Seq<char>|
            domain + "."@ + object != #[trigger] (a + "_electricitygrid"@ + b),
    ensures
        entity_id_of(domain + "."@ + object + "_electricitygrid_"@ + rest) == domain + "."@
            + object,
        domain + "."@ + object != Seq::<char>::empty(),
{
    let id = domain + "."@ + object;
    reveal_strlit("_electricitygrid");
    reveal_strlit("_electricitygrid_");
    reveal_strlit("_");
    reveal_strlit(".");
    assert("_electricitygrid_"@ =~= "_electricitygrid"@ + "_"@);
    assert(id + "_electricitygrid_"@ + rest =~= id + "_electricitygrid"@ + ("_"@ + rest));
    lemma_domain_is_a_word(domain);
    law_entity_stands_in_front_of_the_grid(domain, object, "_"@ + rest);
    assert(id.len() > 0);
}

/// A signal without a name, without a list, without `_electricitygrid_` in its name, or of no
/// controlled entity drives nothing.
pub proof fn law_other_signals_drive_nothing(signal: JsonView, id: Seq<char>, step: int)
    requires
        ({
            let name = signal.get("name"@);
            let values = signal.get("signal"@);
            ||| name is None
            ||| !(name->0 is Text)
            ||| values is None
            ||| !(values->0 is List)
            ||| forall|a: Seq<char>, b: Seq<char>|
                name->0->Text_0 != #[trigger] (a + "_electricitygrid_"@ + b)
            ||| entity_id_of(name->0->Text_0) == Seq::<char>::empty()
        }),
    ensures
        !is_driven(seq![signal], id),
        longest(seq![signal], id) == 0,
        numbers_at(seq![signal], id, step) == Seq::<Number>::empty(),
{
    if grid_signal(signal) is Some {
        law_contained_text_can_be_cut_out(signal.get("name"@)->0->Text_0, "_electricitygrid_"@);
    }
    lemma_single(signal, id, step);
}

/// An entity is driven by a list of signals where it is driven by one of its two parts.
pub proof fn law_driven_by_either_part(
    first: Seq<JsonView>,
    others: Seq<JsonView>,
    id: Seq<char>,
)
    ensures
        is_driven(first + others, id) <==> is_driven(first, id) || is_driven(others, id),
        !is_driven(Seq::empty(), id),
{
    let all = first + others;
    if is_driven(first, id) {
        let i = choose|i: int| 0 <= i < first.len() && drives(#[trigger] first[i], id);
        assert(drives(all[i], id));
    }
    if is_driven(others, id) {
        let i = choose|i: int| 0 <= i < others.len() && drives(#[trigger] others[i], id);
        assert(drives(all[first.len() + i], id));
    }
    if is_driven(all, id) {
        let i = choose|i: int| 0 <= i < all.len() && drives(#[trigger] all[i], id);
        if i < first.len() {
            assert(drives(first[i], id));
        } else {
            assert(drives(others[i - first.len()], id));
        }
    }
}

/// No signals give no numbers and no steps.
pub proof fn law_nothing_comes_of_no_signals(id: Seq<char>, step: int)
    ensures
        numbers_at(Seq::empty(), id, step) == Seq::<Number>::empty(),
        longest(Seq::empty(), id) == 0,
{
}

/// In a schedule that carries signals out, every entity that is driven has one device, which has as
/// many steps as the longest of its signals and in each step all the numbers of its signals; there
/// are no other devices.
pub proof fn law_schedule_has_one_device_for_each_entity(
    devices: Seq<DeviceSignal>,
    signals: Seq<JsonView>,
    id: Seq<char>,
)
    requires
        carries_out(devices, signals),
    ensures
        is_driven(signals, id) <==> exists|i: int|
            0 <= i < devices.len() && (#[trigger] devices[i]).entity_id@ == id,
        forall|i: int, j: int|
            0 <= i < devices.len() && 0 <= j < devices.len() && (#[trigger] devices[i]).entity_id@
                == id && (#[trigger] devices[j]).entity_id@ == id ==> i == j,
        forall|i: int|
            0 <= i < devices.len() && (#[trigger] devices[i]).entity_id@ == id
                ==> devices[i].steps@.len() == longest(signals, id),
        forall|i: int, k: int|
            0 <= i < devices.len() && devices[i].entity_id@ == id && 0 <= k < longest(signals, id)
                ==> (#[trigger] devices[i].steps@[k])@ == numbers_at(signals, id, k),
{
    assert forall|i: int, j: int|
        0 <= i < devices.len() && 0 <= j < devices.len() && (#[trigger] devices[i]).entity_id@
            == id && (#[trigger] devices[j]).entity_id@ == id implies i == j by {
        if i < j {
            assert(devices[i].entity_id@ != devices[j].entity_id@);
        }
        if j < i {
            assert(devices[j].entity_id@ != devices[i].entity_id@);
        }
    }
    assert forall|i: int|
        0 <= i < devices.len() && (#[trigger] devices[i]).entity_id@
            == id implies devices[i].steps@.len() == longest(signals, id) by {
        assert(follows(devices[i], signals));
    }
    assert forall|i: int, k: int|
        0 <= i < devices.len() && devices[i].entity_id@ == id && 0 <= k < longest(
            signals,
            id,
        ) implies (#[trigger] devices[i].steps@[k])@ == numbers_at(signals, id, k) by {
        assert(follows(devices[i], signals));
    }
    if exists|i: int| 0 <= i < devices.len() && (#[trigger] devices[i]).entity_id@ == id {
        let i = choose|i: int| 0 <= i < devices.len() && (#[trigger] devices[i]).entity_id@ == id;
        assert(follows(devices[i], signals));
    }
    if is_driven(signals, id) {
        let i = choose|i: int| 0 <= i < devices.len() && #[trigger] devices[i].entity_id@ == id;
        assert(devices[i].entity_id@ == id);
    }
}

/// Every number of every signal that is named after a controlled entity and the electricity grid is
/// among the numbers of that entity in its step.
pub proof fn law_every_number_is_scheduled(
    devices: Seq<DeviceSignal>,
    signals: Seq<JsonView>,
    n: int,
    domain: Seq<char>,
    object: Seq<char>,
    rest: Seq<char>,
    values: Seq<JsonView>,
    step: int,
    number: Number,
)
    requires
        carries_out(devices, signals),
        0 <= n < signals.len(),
        domain == "switch"@ || domain == "light"@ || domain == "climate"@ || domain == "number"@
            || domain == "fan"@ || domain == "cover"@,
        forall|a: Seq<char>, b: Seq<char>|
            domain + "."@ + object != #[trigger] (a + "_electricitygrid"@ + b),
        signals[n].get("name"@) == Some(
            JsonView::Text(domain + "."@ + object + "_electricitygrid_"@ + rest),
        ),
        signals[n].get("signal"@) == Some(JsonView::List(values)),
        0 <= step < values.len(),
        values[step] == JsonView::Number(number),
    ensures
        exists|i: int|
            {
                &&& 0 <= i < devices.len()
                &&& (#[trigger] devices[i]).entity_id@ == domain + "."@ + object
                &&& step < devices[i].steps@.len()
                &&& devices[i].steps@[step]@.contains(number)
            },
{
    let id = domain + "."@ + object;
    let front = signals.take(n);
    let one = seq![signals[n]];
    let back = signals.skip(n + 1);
    law_named_entity_gets_the_number_of_each_step(
        signals[n],
        domain,
        object,
        rest,
        values,
        step,
        number,
    );
    assert(signals =~= (front + one) + back);
    law_signals_add_up(front + one, back, id, step);
    law_signals_add_up(front, one, id, step);
    law_driven_by_either_part(front + one, back, id);
    law_driven_by_either_part(front, one, id);
    let all = numbers_at(signals, id, step);
    assert(all[numbers_at(front, id, step).len() as int] == number);
    law_schedule_has_one_device_for_each_entity(devices, signals, id);
    let i = choose|i: int| 0 <= i < devices.len() && (#[trigger] devices[i]).entity_id@ == id;
    assert(devices[i].steps@[step]@ == all);
}

/// The running schedule goes on exactly where the control signals are no list; it is stopped where
/// they are a list that drives no entity, and replaced by a schedule that carries them out where they
/// drive any.
pub proof fn law_plan_follows_the_control_signals(plan: SchedulePlan, document: JsonView)
    requires
        plan_fits(plan, document),
    ensures
        plan is Keep <==> !(document is List),
        plan is Replace <==> document is List && exists|id: Seq<char>| #[trigger]
            is_driven(document->List_0, id),
        plan is Replace ==> carries_out(plan->Replace_0.devices@, document->List_0),
{
    if document is List {
        let signals = document->List_0;
        if drives_any(signals) {
            let i = choose|i: int|
                0 <= i < signals.len() && grid_signal(#[trigger] signals[i]) is Some;
            assert(drives(signals[i], grid_signal(signals[i])->0.entity_id));
            assert(is_driven(signals, grid_signal(signals[i])->0.entity_id));
        }
        if exists|id: Seq<char>| #[trigger] is_driven(signals, id) {
            let id = choose|id: Seq<char>| #[trigger] is_driven(signals, id);
            let i = choose|i: int| 0 <= i < signals.len() && drives(#[trigger] signals[i], id);
            assert(grid_signal(signals[i]) is Some);
        }
    }
}

/// In each step every entity is sent one command, with all the numbers that it has in that step and
/// none where its steps are over.
pub proof fn law_each_entity_is_sent_its_step(devices: Seq<DeviceSignal>, step: int, i: int)
    requires
        0 <= i < devices.len(),
        0 <= step,
    ensures
        commands_at(devices, step).len() == devices.len(),
        commands_at(devices, step)[i].entity_id == devices[i].entity_id@,
        step < devices[i].steps@.len() ==> commands_at(devices, step)[i].addends
            == devices[i].steps@[step]@,
        step >= devices[i].steps@.len() ==> commands_at(devices, step)[i].addends == Seq::<
            Number,
        >::empty(),
{
}

/// After a step a quarter of an hour passes where any entity has a later step, and no time at all
/// where none has.
pub proof fn law_pause_where_an_entity_goes_on(devices: Seq<DeviceSignal>, step: int)
    requires
        0 <= step,
    ensures
        pause_length(devices, step) == (if exists|i: int|
            0 <= i < devices.len() && step + 1 < (#[trigger] devices[i]).steps@.len() {
            Some(900u64)
        } else {
            None
        }),
{
    lemma_most_steps(devices);
}

/// Of two lengths the larger is neither less than the one nor less than the other, and one of them.
pub proof fn law_larger_is_the_larger(a: nat, b: nat)
    ensures
        larger(a, b) >= a && larger(a, b) >= b,
        larger(a, b) == a || larger(a, b) == b,
{
}

/// What is shown of a list of commands is each of them, with its entity and all its numbers.
pub proof fn law_command_views_hide_nothing(commands: Seq<StepCommand>, i: int)
    requires
        0 <= i < commands.len(),
    ensures
        commands_view(commands).len() == commands.len(),
        commands_view(commands)[i].entity_id == commands[i].entity_id@,
        commands_view(commands)[i].addends == commands[i].addends@,
{
}

/// No device has more steps than a schedule, and one has as many where it has any.
pub proof fn law_most_steps_are_those_of_a_device(devices: Seq<DeviceSignal>)
    ensures
        forall|i: int|
            0 <= i < devices.len() ==> (#[trigger] devices[i]).steps@.len() <= most_steps(devices),
        most_steps(devices) > 0 ==> exists|i: int|
            0 <= i < devices.len() && (#[trigger] devices[i]).steps@.len() == most_steps(devices),
{
    lemma_most_steps(devices);
}

} // verus!
