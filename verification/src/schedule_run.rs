//! The run of a schedule: what is sent, and when a pause is made, from its first step to its end.

use crate::json::JsonView;
use crate::schedule::{carries_out, commands_at, commands_view, most_steps, numbers_at};
use crate::schedule::{law_commands_follow_the_signals, CONTROL_SIGNAL_STEP_SECS};
use crate::schedule::{DeviceSignal, Schedule, StepCommand, StepCommandView};
use vstd::prelude::*;

verus! {

/// A schedule at one of its steps.
#[derive(Debug, PartialEq, Eq)]
pub struct ScheduleRun {
    pub schedule: Schedule,
    pub step: usize,
}

/// What comes next in the run of a schedule.
#[derive(Debug, PartialEq, Eq)]
pub enum RunStep {
    /// The commands of the step are to be sent.
    Send(ScheduleRun),
    /// A pause is to be made, as long as a step lasts.
    Pause(ScheduleRun),
    /// The run is over.
    Over,
}

/// Where the run of a schedule begins: a schedule without steps has nothing to send.
pub open spec fn first_send(schedule: Schedule) -> RunStep {
    if most_steps(schedule.devices@) == 0 {
        RunStep::Over
    } else {
        RunStep::Send(ScheduleRun { schedule, step: 0 })
    }
}

impl ScheduleRun {
    /// What comes after the commands of the step were sent: a pause, unless the step is the last.
    pub open spec fn after_send(self) -> RunStep {
        if self.step + 1 < most_steps(self.schedule.devices@) {
            RunStep::Pause(self)
        } else {
            RunStep::Over
        }
    }

    /// What comes after the pause: the next step.
    pub open spec fn after_pause(self) -> RunStep {
        if self.step + 1 < most_steps(self.schedule.devices@) {
            RunStep::Send(ScheduleRun { step: (self.step + 1) as usize, ..self })
        } else {
            RunStep::Over
        }
    }

    /// What is to be sent at the step.
    pub open spec fn due(self) -> Seq<StepCommandView> {
        commands_at(self.schedule.devices@, self.step as int)
    }

    /// Begins the run of a schedule.
    pub fn begin(schedule: Schedule) -> (r: RunStep)
        ensures
            r == first_send(schedule),
    {
        if schedule.step_count() == 0 {
            RunStep::Over
        } else {
            RunStep::Send(ScheduleRun { schedule, step: 0 })
        }
    }

    /// The commands of the step.
    pub fn commands(&self) -> (r: Vec<StepCommand>)
        ensures
            commands_view(r@) == commands_at(self.schedule.devices@, self.step as int),
            commands_view(r@) == self.due(),
    {
        self.schedule.commands(self.step)
    }

    /// Goes on after the commands of the step were sent.
    pub fn sent(self) -> (r: RunStep)
        ensures
            r == self.after_send(),
    {
        match self.schedule.pause_after(self.step) {
            Some(_) => RunStep::Pause(self),
            None => RunStep::Over,
        }
    }

    /// Goes on after the pause.
    pub fn resume(self) -> (r: RunStep)
        ensures
            r == self.after_pause(),
    {
        let count: usize = self.schedule.step_count();
        if self.step < count && self.step + 1 < count {
            let step: usize = self.step + 1;
            RunStep::Send(ScheduleRun { schedule: self.schedule, step })
        } else {
            RunStep::Over
        }
    }
}

/// Something that is done in the run of a schedule.
#[verifier::ext_equal]
pub enum RunEvent {
    /// These commands are sent.
    Sent(Seq<StepCommandView>),
    /// A pause of so many seconds is made.
    Paused(u64),
}

/// The number of steps from the one that a run is at to its end.
pub open spec fn steps_left(step: RunStep) -> nat {
    match step {
        RunStep::Send(run) => if run.step < most_steps(run.schedule.devices@) {
            (most_steps(run.schedule.devices@) - run.step) as nat
        } else {
            0
        },
        RunStep::Pause(run) => if run.step < most_steps(run.schedule.devices@) {
            (most_steps(run.schedule.devices@) - run.step) as nat
        } else {
            0
        },
        RunStep::Over => 0,
    }
}

/// The number of steps is that of a vector, so it fits.
pub proof fn lemma_steps_fit(devices: Seq<DeviceSignal>)
    ensures
        most_steps(devices) <= usize::MAX,
    decreases devices.len(),
{
    if devices.len() > 0 {
        lemma_steps_fit(devices.drop_last());
        assert(devices.last().steps.len() <= usize::MAX);
    }
}

/// All that is done in a run from a given point on.
pub open spec fn events(step: RunStep) -> Seq<RunEvent>
    decreases
            steps_left(step),
            (match step {
                RunStep::Send(_) => 2nat,
                RunStep::Pause(_) => 1nat,
                RunStep::Over => 0nat,
            }),
{
    match step {
        RunStep::Send(run) => seq![RunEvent::Sent(run.due())] + events(run.after_send()),
        RunStep::Pause(run) => {
            proof {
                lemma_steps_fit(run.schedule.devices@);
            }
            seq![RunEvent::Paused(CONTROL_SIGNAL_STEP_SECS)] + events(run.after_pause())
        },
        RunStep::Over => seq![],
    }
}

/// From a step on, the steps are sent one after the other with a pause between each two.
proof fn lemma_events_from(run: ScheduleRun)
    requires
        run.step < most_steps(run.schedule.devices@),
    ensures
        ({
            let count = most_steps(run.schedule.devices@);
            let done = events(RunStep::Send(run));
            &&& done.len() == 2 * (count - run.step) - 1
            &&& forall|k: int|
                run.step <= k < count ==> #[trigger] done[2 * (k - run.step)] == RunEvent::Sent(
                    commands_at(run.schedule.devices@, k),
                )
            &&& forall|k: int|
                run.step <= k < count - 1 ==> #[trigger] done[2 * (k - run.step) + 1]
                    == RunEvent::Paused(CONTROL_SIGNAL_STEP_SECS)
        }),
    decreases most_steps(run.schedule.devices@) - run.step,
{
    let count = most_steps(run.schedule.devices@);
    let done = events(RunStep::Send(run));
    let here = RunEvent::Sent(commands_at(run.schedule.devices@, run.step as int));
    lemma_steps_fit(run.schedule.devices@);
    if run.step + 1 < count {
        let next = ScheduleRun { step: (run.step + 1) as usize, ..run };
        let later = events(RunStep::Send(next));
        lemma_events_from(next);
        assert(events(RunStep::Pause(run)) == seq![RunEvent::Paused(CONTROL_SIGNAL_STEP_SECS)]
            + later);
        assert(done =~= seq![here, RunEvent::Paused(CONTROL_SIGNAL_STEP_SECS)] + later);
        assert forall|k: int| run.step <= k < count implies #[trigger] done[2 * (k - run.step)]
            == RunEvent::Sent(commands_at(run.schedule.devices@, k)) by {
            if k > run.step {
                assert(done[2 * (k - run.step)] == later[2 * (k - next.step)]);
            }
        }
        assert forall|k: int| run.step <= k < count - 1 implies #[trigger] done[2 * (k - run.step)
            + 1] == RunEvent::Paused(CONTROL_SIGNAL_STEP_SECS) by {
            if k > run.step {
                assert(done[2 * (k - run.step) + 1] == later[2 * (k - next.step) + 1]);
            }
        }
    } else {
        assert(events(RunStep::Over) =~= seq![]);
        assert(done =~= seq![here]);
    }
}

/// In the run of a schedule every step is sent once, in order, with a pause between each two and
/// none before the first or after the last.
pub proof fn law_run_sends_every_step_in_order(schedule: Schedule)
    ensures
        ({
            let count = most_steps(schedule.devices@);
            let done = events(first_send(schedule));
            &&& done.len() == if count == 0 {
                0
            } else {
                2 * count - 1
            }
            &&& forall|k: int|
                0 <= k < count ==> #[trigger] done[2 * k] == RunEvent::Sent(
                    commands_at(schedule.devices@, k),
                )
            &&& forall|k: int|
                0 <= k < count - 1 ==> #[trigger] done[2 * k + 1] == RunEvent::Paused(
                    CONTROL_SIGNAL_STEP_SECS,
                )
        }),
{
    let count = most_steps(schedule.devices@);
    let done = events(first_send(schedule));
    if count == 0 {
        assert(events(RunStep::Over) =~= seq![]);
    } else {
        lemma_events_from(ScheduleRun { schedule, step: 0 });
        assert forall|k: int| 0 <= k < count implies #[trigger] done[2 * k] == RunEvent::Sent(
            commands_at(schedule.devices@, k),
        ) by {
            assert(done[2 * (k - 0)] == RunEvent::Sent(commands_at(schedule.devices@, k)));
        }
        assert forall|k: int| 0 <= k < count - 1 implies #[trigger] done[2 * k + 1]
            == RunEvent::Paused(CONTROL_SIGNAL_STEP_SECS) by {
            assert(done[2 * (k - 0) + 1] == RunEvent::Paused(CONTROL_SIGNAL_STEP_SECS));
        }
    }
}

/// In the run of a schedule that carries signals out, each step sends every entity the numbers that
/// its signals have at that step.
pub proof fn law_run_carries_the_signals_out(
    schedule: Schedule,
    signals: Seq<JsonView>,
    step: int,
    i: int,
)
    requires
        carries_out(schedule.devices@, signals),
        0 <= step < most_steps(schedule.devices@),
        0 <= i < schedule.devices@.len(),
    ensures
        ({
            let done = events(first_send(schedule));
            &&& 2 * step < done.len()
            &&& done[2 * step] is Sent
            &&& done[2 * step]->Sent_0.len() == schedule.devices@.len()
            &&& done[2 * step]->Sent_0[i] == (StepCommandView {
                entity_id: schedule.devices@[i].entity_id@,
                addends: numbers_at(signals, schedule.devices@[i].entity_id@, step),
            })
        }),
{
    law_run_sends_every_step_in_order(schedule);
    law_commands_follow_the_signals(schedule.devices@, signals, i, step);
    assert(events(first_send(schedule))[2 * step] == RunEvent::Sent(
        commands_at(schedule.devices@, step),
    ));
}

/// Between two steps of a run a quarter of an hour passes, and no other pause is made.
pub proof fn law_a_quarter_of_an_hour_between_steps(schedule: Schedule, n: int)
    requires
        0 <= n < events(first_send(schedule)).len(),
    ensures
        n % 2 == 0 ==> events(first_send(schedule))[n] == RunEvent::Sent(
            commands_at(schedule.devices@, n / 2),
        ),
        n % 2 == 1 ==> events(first_send(schedule))[n] == RunEvent::Paused(900),
{
    law_run_sends_every_step_in_order(schedule);
    let done = events(first_send(schedule));
    if n % 2 == 0 {
        assert(done[2 * (n / 2)] == done[n]);
    } else {
        assert(done[2 * (n / 2) + 1] == done[n]);
    }
}

} // verus!
