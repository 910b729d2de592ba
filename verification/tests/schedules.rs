use hass_backend::json::{Json, Number};
use hass_backend::schedule::{
    device_signals, plan_control, DeviceSignal, Schedule, SchedulePlan, StepCommand,
};
use hass_backend::schedule_run::{RunStep, ScheduleRun};

fn signal(name: &str, values: Vec<Json>) -> Json {
    Json::object()
        .with("name", Json::text(name))
        .with("signal", Json::List(values))
}

fn num(n: u64) -> Json {
    Json::Number(Number::PosInt(n))
}

fn pos(n: u64) -> Number {
    Number::PosInt(n)
}

fn device(id: &str, steps: Vec<Vec<Number>>) -> DeviceSignal {
    DeviceSignal {
        entity_id: id.to_string(),
        steps,
    }
}

#[test]
fn the_signals_of_an_entity_are_put_together() {
    let signals = vec![
        signal("switch.a_electricitygrid_s1", vec![num(1), num(2)]),
        signal("light.b_electricitygrid_s1", vec![num(9)]),
        signal(
            "switch.a_electricitygrid_s2",
            vec![num(3), Json::Null, num(5)],
        ),
    ];
    assert_eq!(
        device_signals(&signals),
        vec![
            device(
                "switch.a",
                vec![vec![pos(1), pos(3)], vec![pos(2)], vec![pos(5)]]
            ),
            device("light.b", vec![vec![pos(9)]]),
        ]
    );
}

#[test]
fn signals_without_the_grid_are_left_out() {
    let signals = vec![
        signal("switch.a", vec![num(1)]),
        signal("switch.a_electricitygrid", vec![num(1)]),
        signal("sensor.a_electricitygrid_1", vec![num(1)]),
        signal("switch_electricitygrid_1", vec![num(1)]),
        Json::object().with("name", Json::text("switch.a_electricitygrid_1")),
        Json::object().with("signal", Json::List(vec![num(1)])),
        Json::Null,
    ];
    assert_eq!(device_signals(&signals), vec![]);
    assert_eq!(plan_control(&Json::List(signals)), SchedulePlan::Cancel);
}

#[test]
fn what_becomes_of_the_running_schedule() {
    assert_eq!(plan_control(&Json::Null), SchedulePlan::Keep);
    assert_eq!(plan_control(&Json::object()), SchedulePlan::Keep);
    assert_eq!(plan_control(&Json::List(vec![])), SchedulePlan::Cancel);
    assert_eq!(
        plan_control(&Json::List(vec![signal(
            "fan.x_electricitygrid_1",
            vec![]
        )])),
        SchedulePlan::Replace(Schedule {
            devices: vec![device("fan.x", vec![])]
        })
    );
}

#[test]
fn a_schedule_is_carried_out_step_by_step() {
    let schedule = Schedule {
        devices: vec![
            device("switch.a", vec![vec![pos(1), pos(2)], vec![], vec![pos(4)]]),
            device("light.b", vec![vec![pos(5)]]),
        ],
    };
    let command = |id: &str, addends| StepCommand {
        entity_id: id.to_string(),
        addends,
    };
    assert_eq!(schedule.step_count(), 3);
    assert_eq!(
        schedule.commands(0),
        vec![
            command("switch.a", vec![pos(1), pos(2)]),
            command("light.b", vec![pos(5)])
        ]
    );
    assert_eq!(
        schedule.commands(1),
        vec![command("switch.a", vec![]), command("light.b", vec![])]
    );
    assert_eq!(
        schedule.commands(2),
        vec![
            command("switch.a", vec![pos(4)]),
            command("light.b", vec![])
        ]
    );
    assert_eq!(schedule.pause_after(0), Some(900));
    assert_eq!(schedule.pause_after(1), Some(900));
    assert_eq!(schedule.pause_after(2), None);
    assert_eq!(schedule.pause_after(usize::MAX), None);
}

#[test]
fn a_schedule_without_steps() {
    let schedule = Schedule {
        devices: vec![device("fan.x", vec![])],
    };
    assert_eq!(schedule.step_count(), 0);
    assert_eq!(schedule.pause_after(0), None);
    assert_eq!(Schedule { devices: vec![] }.step_count(), 0);
}

/// What a run sends, and an empty list for each pause.
fn run_through(schedule: Schedule) -> Vec<Vec<StepCommand>> {
    let mut done = vec![];
    let mut next = ScheduleRun::begin(schedule);
    loop {
        next = match next {
            RunStep::Send(run) => {
                done.push(run.commands());
                run.sent()
            }
            RunStep::Pause(run) => {
                done.push(vec![]);
                run.resume()
            }
            RunStep::Over => return done,
        };
    }
}

#[test]
fn a_run_sends_every_step_once_with_pauses_between() {
    let command = |addends| StepCommand {
        entity_id: "switch.a".to_string(),
        addends,
    };
    let steps = vec![vec![pos(1)], vec![pos(2), pos(3)], vec![]];
    assert_eq!(
        run_through(Schedule {
            devices: vec![device("switch.a", steps)]
        }),
        vec![
            vec![command(vec![pos(1)])],
            vec![],
            vec![command(vec![pos(2), pos(3)])],
            vec![],
            vec![command(vec![])],
        ]
    );
    assert_eq!(
        run_through(Schedule {
            devices: vec![device("switch.a", vec![vec![pos(7)]])]
        }),
        vec![vec![command(vec![pos(7)])]]
    );
}

#[test]
fn a_run_without_steps_is_over_at_once() {
    assert_eq!(
        ScheduleRun::begin(Schedule { devices: vec![] }),
        RunStep::Over
    );
    assert_eq!(
        ScheduleRun::begin(Schedule {
            devices: vec![device("fan.x", vec![])]
        }),
        RunStep::Over
    );
    let beyond = || ScheduleRun {
        schedule: Schedule {
            devices: vec![device("fan.x", vec![vec![pos(1)], vec![pos(2)]])],
        },
        step: usize::MAX,
    };
    assert_eq!(beyond().sent(), RunStep::Over);
    assert_eq!(beyond().resume(), RunStep::Over);
}

#[test]
fn the_order_of_signals_makes_no_difference() {
    let signals = || {
        vec![
            signal("switch.a_electricitygrid_s1", vec![num(1), num(2)]),
            signal("light.b_electricitygrid_s1", vec![num(9)]),
            signal("switch.a_electricitygrid_s2", vec![num(3)]),
        ]
    };
    let sorted = |signals: Vec<Json>| {
        let mut devices = device_signals(&signals);
        devices.sort_by(|a, b| a.entity_id.as_str().cmp(b.entity_id.as_str()));
        for device in &mut devices {
            for step in &mut device.steps {
                step.sort_by_key(|number| number.as_i64());
            }
        }
        devices
    };
    let mut reordered = signals();
    reordered.reverse();
    assert_eq!(
        device_signals(&reordered)[0],
        device("switch.a", vec![vec![pos(3), pos(1)], vec![pos(2)]])
    );
    assert_eq!(sorted(reordered), sorted(signals()));
}
