//! The state of the backend: which of its tasks run, and what it has to answer.

use crate::feed::{data_body, status_body, status_reply, Feed, FeedView};
use crate::graphql::optional_json;
use crate::json::{lemma_list_view, Json, JsonView};
use crate::schedule::{carries_out, drives, drives_any, grid_signal, is_driven};
use crate::schedule::law_plan_follows_the_control_signals;
use crate::schedule::{plan_control, plan_fits, SchedulePlan};
use vstd::prelude::*;

verus! {

/// How long the hourly optimisation waits between two cycles, in seconds.
pub const OPTIMIZATION_PERIOD_SECS: u64 = 3600;

/// The tasks that run, and what their cycles brought.
#[derive(Debug, PartialEq, Eq)]
pub struct Backend {
    pub optimization_running: bool,
    pub control_running: bool,
    pub weather_running: bool,
    pub price_running: bool,
    pub control_signals: Option<Json>,
    pub weather: Feed,
    pub prices: Feed,
}

/// What a `Backend` says.
#[verifier::ext_equal]
pub struct BackendView {
    pub optimization_running: bool,
    pub control_running: bool,
    pub weather_running: bool,
    pub price_running: bool,
    pub control_signals: Option<JsonView>,
    pub weather: FeedView,
    pub prices: FeedView,
}

impl View for Backend {
    type V = BackendView;

    open spec fn view(&self) -> BackendView {
        BackendView {
            optimization_running: self.optimization_running,
            control_running: self.control_running,
            weather_running: self.weather_running,
            price_running: self.price_running,
            control_signals: optional_json(self.control_signals),
            weather: self.weather@,
            prices: self.prices@,
        }
    }
}

/// The answer to a caller who starts a task or a cycle, and whether it is to be started.
#[derive(Debug, PartialEq, Eq)]
pub struct StartReply {
    pub body: Json,
    pub start: bool,
}

/// The answer to a caller who stops the hourly optimisation, and which tasks are to be stopped.
#[derive(Debug, PartialEq, Eq)]
pub struct StopReply {
    pub body: Json,
    pub stop_optimization: bool,
    pub stop_control: bool,
}

/// The control signals of an outcome: an empty list where it has none.
pub open spec fn control_signals_of(outcome: JsonView) -> JsonView {
    match outcome.get("controlSignals"@) {
        Some(signals) => signals,
        None => JsonView::List(seq![]),
    }
}

/// Whether an outcome has any control signals.
pub open spec fn has_control_signals(outcome: JsonView) -> bool {
    match control_signals_of(outcome).elements() {
        Some(signals) => signals.len() > 0,
        None => false,
    }
}

impl BackendView {
    /// A backend before anything was started.
    pub open spec fn idle() -> BackendView {
        BackendView {
            optimization_running: false,
            control_running: false,
            weather_running: false,
            price_running: false,
            control_signals: None,
            weather: FeedView::empty(),
            prices: FeedView::empty(),
        }
    }

    /// The backend with the hourly optimisation started.
    pub open spec fn hourly_started(self) -> BackendView {
        BackendView { optimization_running: true, ..self }
    }

    /// The backend with the weather task started.
    pub open spec fn weather_started(self) -> BackendView {
        BackendView { weather_running: true, ..self }
    }

    /// The backend with the price task started.
    pub open spec fn price_started(self) -> BackendView {
        BackendView { price_running: true, ..self }
    }

    /// The backend with the hourly optimisation stopped: the schedule of control signals is stopped
    /// with it, but not without it.
    pub open spec fn hourly_stopped(self) -> BackendView {
        if self.optimization_running {
            BackendView { optimization_running: false, control_running: false, ..self }
        } else {
            self
        }
    }

    /// The backend after an optimisation, with its outcome where there is one.
    pub open spec fn optimized(self, outcome: Option<JsonView>) -> BackendView {
        match outcome {
            None => self,
            Some(outcome) => BackendView {
                control_signals: if has_control_signals(outcome) {
                    Some(outcome)
                } else {
                    self.control_signals
                },
                control_running: match control_signals_of(outcome).elements() {
                    Some(signals) => drives_any(signals),
                    None => self.control_running,
                },
                ..self
            },
        }
    }

    /// What a caller is answered who asks for the latest control signals.
    pub open spec fn control_signals_body(self) -> JsonView {
        match self.control_signals {
            Some(outcome) => data_body(outcome),
            None => status_body("no_data"@),
        }
    }
}

/// The answer to a caller who starts a task.
pub open spec fn start_body(running: bool) -> JsonView {
    status_body(
        if running {
            "already_running"@
        } else {
            "started"@
        },
    )
}

/// What a `StartReply` says.
#[verifier::ext_equal]
pub struct StartReplyView {
    pub body: JsonView,
    pub start: bool,
}

impl View for StartReply {
    type V = StartReplyView;

    open spec fn view(&self) -> StartReplyView {
        StartReplyView { body: self.body@, start: self.start }
    }
}

/// What a `StopReply` says.
#[verifier::ext_equal]
pub struct StopReplyView {
    pub body: JsonView,
    pub stop_optimization: bool,
    pub stop_control: bool,
}

impl View for StopReply {
    type V = StopReplyView;

    open spec fn view(&self) -> StopReplyView {
        StopReplyView {
            body: self.body@,
            stop_optimization: self.stop_optimization,
            stop_control: self.stop_control,
        }
    }
}

/// What comes of the start of a task.
pub open spec fn start_answer(running: bool) -> StartReplyView {
    StartReplyView { body: start_body(running), start: !running }
}

/// What comes of the wish for one more optimisation.
pub open spec fn refresh_answer(running: bool) -> StartReplyView {
    StartReplyView { body: refresh_body(running), start: running }
}

/// What comes of the stop of the hourly optimisation.
pub open spec fn stop_answer(running: bool, controls: bool) -> StopReplyView {
    StopReplyView {
        body: stop_body(running),
        stop_optimization: running,
        stop_control: running && controls,
    }
}

/// Whether a plan is what an optimisation calls for, with its outcome where there is one.
pub open spec fn plan_suits(plan: SchedulePlan, outcome: Option<JsonView>) -> bool {
    match outcome {
        Some(outcome) => plan_fits(plan, control_signals_of(outcome)),
        None => plan is Keep,
    }
}

/// The answer to a caller who stops the hourly optimisation.
pub open spec fn stop_body(running: bool) -> JsonView {
    status_body(
        if running {
            "stopped"@
        } else {
            "not_running"@
        },
    )
}

/// The answer to a caller who wants one more optimisation.
pub open spec fn refresh_body(running: bool) -> JsonView {
    status_body(
        if running {
            "refresh_started"@
        } else {
            "not_running"@
        },
    )
}

/// Answers a caller who starts a task.
fn start_reply(running: bool) -> (r: StartReply)
    ensures
        r.start == !running,
        r.body@ == start_body(running),
{
    if running {
        StartReply { body: status_reply("already_running"), start: false }
    } else {
        StartReply { body: status_reply("started"), start: true }
    }
}

impl Backend {
    /// A backend before anything was started.
    pub fn new() -> (r: Backend)
        ensures
            r@ == BackendView::idle(),
    {
        Backend {
            optimization_running: false,
            control_running: false,
            weather_running: false,
            price_running: false,
            control_signals: None,
            weather: Feed::new(),
            prices: Feed::new(),
        }
    }

    /// Starts the hourly optimisation, unless it runs already.
    pub fn start_hourly(&mut self) -> (r: StartReply)
        ensures
            r.start == !old(self).optimization_running,
            r.body@ == start_body(old(self).optimization_running),
            r@ == start_answer(old(self).optimization_running),
            final(self)@ == old(self)@.hourly_started(),
    {
        let r = start_reply(self.optimization_running);
        self.optimization_running = true;
        r
    }

    /// Starts the weather task, unless it runs already.
    pub fn start_weather(&mut self) -> (r: StartReply)
        ensures
            r.start == !old(self).weather_running,
            r.body@ == start_body(old(self).weather_running),
            r@ == start_answer(old(self).weather_running),
            final(self)@ == old(self)@.weather_started(),
    {
        let r = start_reply(self.weather_running);
        self.weather_running = true;
        r
    }

    /// Starts the price task, unless it runs already.
    pub fn start_price(&mut self) -> (r: StartReply)
        ensures
            r.start == !old(self).price_running,
            r.body@ == start_body(old(self).price_running),
            r@ == start_answer(old(self).price_running),
            final(self)@ == old(self)@.price_started(),
    {
        let r = start_reply(self.price_running);
        self.price_running = true;
        r
    }

    /// Stops the hourly optimisation and the schedule of control signals, if the former runs.
    pub fn stop_hourly(&mut self) -> (r: StopReply)
        ensures
            r.stop_optimization == old(self).optimization_running,
            r.stop_control == (old(self).optimization_running && old(self).control_running),
            r.body@ == status_body(
                if old(self).optimization_running {
                    "stopped"@
                } else {
                    "not_running"@
                },
            ),
            r@ == stop_answer(old(self).optimization_running, old(self).control_running),
            final(self)@ == old(self)@.hourly_stopped(),
    {
        if self.optimization_running {
            let stop_control: bool = self.control_running;
            self.optimization_running = false;
            self.control_running = false;
            StopReply { body: status_reply("stopped"), stop_optimization: true, stop_control }
        } else {
            StopReply {
                body: status_reply("not_running"),
                stop_optimization: false,
                stop_control: false,
            }
        }
    }

    /// Runs one more optimisation, if the hourly optimisation runs.
    pub fn refresh_optimization(&self) -> (r: StartReply)
        ensures
            r.start == self.optimization_running,
            r.body@ == status_body(
                if self.optimization_running {
                    "refresh_started"@
                } else {
                    "not_running"@
                },
            ),
            r@ == refresh_answer(self.optimization_running),
    {
        if self.optimization_running {
            StartReply { body: status_reply("refresh_started"), start: true }
        } else {
            StartReply { body: status_reply("not_running"), start: false }
        }
    }

    /// Answers a caller who asks for the latest control signals.
    pub fn control_signals_reply(&self) -> (r: Json)
        ensures
            r@ == self@.control_signals_body(),
    {
        match &self.control_signals {
            Some(outcome) => status_reply("ok").with("data", outcome.copy()),
            None => status_reply("no_data"),
        }
    }

    /// Takes note of the outcome of an optimisation, and decides what becomes of the running
    /// schedule.
    ///
    /// An outcome with control signals is kept as the latest one. Without an outcome nothing
    /// changes.
    pub fn record_optimization(&mut self, outcome: Option<Json>) -> (r: SchedulePlan)
        ensures
            final(self)@ == old(self)@.optimized(optional_json(outcome)),
            match outcome {
                Some(outcome) => plan_fits(r, control_signals_of(outcome@)),
                None => r is Keep,
            },
            plan_suits(r, optional_json(outcome)),
    {
        let outcome = match outcome {
            Some(outcome) => outcome,
            None => {
                return SchedulePlan::Keep;
            },
        };
        let signals = match outcome.get("controlSignals") {
            Some(signals) => signals.copy(),
            None => Json::List(Vec::new()),
        };
        let plan = plan_control(&signals);
        let keep: bool = match signals.as_array() {
            Some(list) => {
                proof {
                    lemma_list_view(list@);
                }
                list.len() > 0
            },
            None => false,
        };
        if keep {
            self.control_signals = Some(outcome);
        }
        match plan {
            SchedulePlan::Keep => {},
            SchedulePlan::Cancel => {
                self.control_running = false;
            },
            SchedulePlan::Replace(_) => {
                self.control_running = true;
            },
        }
        plan
    }
}

/// To start the hourly optimisation twice is to start it once, and the second caller is told so.
pub proof fn law_second_start_changes_nothing(backend: BackendView)
    ensures
        backend.hourly_started().hourly_started() == backend.hourly_started(),
        start_body(backend.hourly_started().optimization_running) == status_body(
            "already_running"@,
        ),
        backend.weather_started().weather_started() == backend.weather_started(),
        start_body(backend.weather_started().weather_running) == status_body("already_running"@),
        backend.price_started().price_started() == backend.price_started(),
        start_body(backend.price_started().price_running) == status_body("already_running"@),
{
}

/// After a stop of the hourly optimisation that ran, neither it nor the schedule of control signals
/// runs, and nothing else has changed; a second stop changes nothing.
pub proof fn law_stop_ends_what_start_began(backend: BackendView)
    ensures
        backend.hourly_started().hourly_stopped() == (BackendView {
            optimization_running: false,
            control_running: false,
            ..backend
        }),
        backend.hourly_stopped().hourly_stopped() == backend.hourly_stopped(),
        !backend.hourly_stopped().optimization_running,
{
}

/// The backend after a number of optimisations.
pub open spec fn optimized_through(
    backend: BackendView,
    outcomes: Seq<Option<JsonView>>,
) -> BackendView
    decreases outcomes.len(),
{
    if outcomes.len() == 0 {
        backend
    } else {
        optimized_through(backend, outcomes.drop_last()).optimized(outcomes.last())
    }
}

/// Whether an optimisation brought control signals.
pub open spec fn brought_signals(outcome: Option<JsonView>) -> bool {
    outcome is Some && has_control_signals(outcome->0)
}

/// The latest outcome with control signals is answered, however many optimisations brought none
/// since.
pub proof fn law_latest_control_signals_are_answered(
    backend: BackendView,
    outcomes: Seq<Option<JsonView>>,
    n: int,
)
    requires
        0 <= n < outcomes.len(),
        brought_signals(outcomes[n]),
        forall|i: int| n < i < outcomes.len() ==> !brought_signals(#[trigger] outcomes[i]),
    ensures
        optimized_through(backend, outcomes).control_signals_body() == data_body(outcomes[n]->0),
    decreases outcomes.len(),
{
    if n < outcomes.len() - 1 {
        assert(!brought_signals(outcomes[outcomes.len() - 1]));
        assert(outcomes.drop_last()[n] == outcomes[n]);
        law_latest_control_signals_are_answered(backend, outcomes.drop_last(), n);
    }
}

/// Optimisations change neither the feeds nor which of the other tasks run.
pub proof fn law_optimizations_leave_the_rest_alone(
    backend: BackendView,
    outcomes: Seq<Option<JsonView>>,
)
    ensures
        optimized_through(backend, outcomes) == (BackendView {
            control_running: optimized_through(backend, outcomes).control_running,
            control_signals: optimized_through(backend, outcomes).control_signals,
            ..backend
        }),
    decreases outcomes.len(),
{
    if outcomes.len() > 0 {
        law_optimizations_leave_the_rest_alone(backend, outcomes.drop_last());
    }
}

/// After an optimisation whose outcome lists at least one control signal, that outcome is kept and
/// answered as it is; after any other the control signals are what they were.
pub proof fn law_outcome_with_control_signals_is_kept(
    backend: BackendView,
    outcome: JsonView,
    list: Seq<JsonView>,
)
    ensures
        outcome.get("controlSignals"@) == Some(JsonView::List(list)) && list.len() > 0 ==> {
            &&& backend.optimized(Some(outcome)).control_signals == Some(outcome)
            &&& backend.optimized(Some(outcome)).control_signals_body() == JsonView::Object(
                map!["status"@ => JsonView::Text("ok"@), "data"@ => outcome],
            )
        },
        outcome.get("controlSignals"@) == Some(JsonView::List(list)) && list.len() == 0
            ==> backend.optimized(Some(outcome)).control_signals == backend.control_signals,
        outcome.get("controlSignals"@) is None || !(outcome.get("controlSignals"@)->0 is List)
            ==> backend.optimized(Some(outcome)).control_signals == backend.control_signals,
        backend.optimized(None) == backend,
{
}

/// After an optimisation a schedule runs exactly where its control signals drive an entity; signals
/// that are no list leave the running schedule alone.
pub proof fn law_schedule_runs_where_signals_drive(
    backend: BackendView,
    outcome: JsonView,
    list: Seq<JsonView>,
)
    ensures
        outcome.get("controlSignals"@) == Some(JsonView::List(list)) ==> (backend.optimized(
            Some(outcome),
        ).control_running <==> exists|id: Seq<char>| #[trigger] is_driven(list, id)),
        outcome.get("controlSignals"@) is None ==> !backend.optimized(
            Some(outcome),
        ).control_running,
        outcome.get("controlSignals"@) is Some && !(outcome.get("controlSignals"@)->0 is List)
            ==> backend.optimized(Some(outcome)).control_running == backend.control_running,
{
    if drives_any(list) {
        let i = choose|i: int| 0 <= i < list.len() && grid_signal(#[trigger] list[i]) is Some;
        assert(drives(list[i], grid_signal(list[i])->0.entity_id));
        assert(is_driven(list, grid_signal(list[i])->0.entity_id));
    }
    if exists|id: Seq<char>| #[trigger] is_driven(list, id) {
        let id = choose|id: Seq<char>| #[trigger] is_driven(list, id);
        let i = choose|i: int| 0 <= i < list.len() && drives(#[trigger] list[i], id);
        assert(grid_signal(list[i]) is Some);
    }
}

/// The schedule that an optimisation calls for is made from its control signals as they are; an
/// outcome without any stops the running one.
pub proof fn law_schedule_is_made_from_the_control_signals(outcome: JsonView)
    ensures
        outcome.get("controlSignals"@) is Some ==> control_signals_of(outcome) == outcome.get(
            "controlSignals"@,
        )->0,
        outcome.get("controlSignals"@) is None ==> control_signals_of(outcome) == JsonView::List(
            seq![],
        ),
{
}

/// A start or a stop changes nothing but whether its own task runs; a stop of the hourly optimisation
/// ends the schedule with it, where there was something to stop.
pub proof fn law_tasks_are_started_and_stopped_one_by_one(backend: BackendView)
    ensures
        backend.hourly_started() == (BackendView { optimization_running: true, ..backend }),
        backend.weather_started() == (BackendView { weather_running: true, ..backend }),
        backend.price_started() == (BackendView { price_running: true, ..backend }),
        backend.optimization_running ==> backend.hourly_stopped() == (BackendView {
            optimization_running: false,
            control_running: false,
            ..backend
        }),
        !backend.optimization_running ==> backend.hourly_stopped() == backend,
{
}

/// Whoever starts, stops or refreshes is told what came of it, and nothing else.
pub proof fn law_callers_are_told_what_came_of_it(running: bool)
    ensures
        start_body(running) == JsonView::Object(
            map![
                "status"@ => JsonView::Text(
                    if running {
                        "already_running"@
                    } else {
                        "started"@
                    },
                ),
            ],
        ),
        stop_body(running) == JsonView::Object(
            map![
                "status"@ => JsonView::Text(
                    if running {
                        "stopped"@
                    } else {
                        "not_running"@
                    },
                ),
            ],
        ),
        refresh_body(running) == JsonView::Object(
            map![
                "status"@ => JsonView::Text(
                    if running {
                        "refresh_started"@
                    } else {
                        "not_running"@
                    },
                ),
            ],
        ),
{
}

/// A new backend runs nothing and has nothing to answer, and its optimisation comes round by the
/// hour.
pub proof fn law_new_backend_has_no_data()
    ensures
        ({
            let idle = BackendView::idle();
            let no_data = JsonView::Object(map!["status"@ => JsonView::Text("no_data"@)]);
            &&& !idle.optimization_running && !idle.control_running
            &&& !idle.weather_running && !idle.price_running
            &&& idle.control_signals_body() == no_data
            &&& idle.weather.body() == no_data
            &&& idle.prices.body() == no_data
        }),
        OPTIMIZATION_PERIOD_SECS == 60 * 60,
{
}

/// A backend that never got an outcome with control signals says so.
pub proof fn law_no_control_signals_without_an_outcome(backend: BackendView, outcome: JsonView)
    ensures
        backend.control_signals is None ==> backend.control_signals_body() == JsonView::Object(
            map!["status"@ => JsonView::Text("no_data"@)],
        ),
        backend.control_signals == Some(outcome) ==> backend.control_signals_body()
            == JsonView::Object(map!["status"@ => JsonView::Text("ok"@), "data"@ => outcome]),
{
}

/// What is shown of a backend is all that it holds.
pub proof fn law_backend_view_hides_nothing(backend: Backend)
    ensures
        backend@.optimization_running == backend.optimization_running,
        backend@.control_running == backend.control_running,
        backend@.weather_running == backend.weather_running,
        backend@.price_running == backend.price_running,
        backend.control_signals is None <==> backend@.control_signals is None,
        backend.control_signals is Some ==> backend@.control_signals == Some(
            backend.control_signals->0@,
        ),
        backend@.weather == backend.weather@,
        backend@.prices == backend.prices@,
{
}

/// A task is started exactly where it does not run yet, one more optimisation exactly where the
/// hourly one runs, and a stop ends what runs: the schedule only together with the optimisation.
pub proof fn law_what_is_started_and_stopped(running: bool, controls: bool)
    ensures
        start_answer(running).start <==> !running,
        start_answer(running).body == start_body(running),
        refresh_answer(running).start <==> running,
        refresh_answer(running).body == refresh_body(running),
        stop_answer(running, controls).stop_optimization <==> running,
        stop_answer(running, controls).stop_control <==> running && controls,
        stop_answer(running, controls).body == stop_body(running),
{
}

/// Without an outcome the running schedule goes on. An outcome without control signals stops it, and
/// so does a list of them that drives no entity; one that drives any replaces it by a schedule that
/// carries them out; and control signals that are no list let it go on.
pub proof fn law_outcome_decides_on_the_schedule(
    plan: SchedulePlan,
    outcome: Option<JsonView>,
    list: Seq<JsonView>,
)
    requires
        plan_suits(plan, outcome),
    ensures
        outcome is None ==> plan is Keep,
        outcome is Some && outcome->0.get("controlSignals"@) is None ==> plan is Cancel,
        outcome is Some && outcome->0.get("controlSignals"@) is Some && !(outcome->0.get(
            "controlSignals"@,
        )->0 is List) ==> plan is Keep,
        outcome is Some && outcome->0.get("controlSignals"@) == Some(JsonView::List(list)) ==> {
            &&& plan is Replace <==> exists|id: Seq<char>| #[trigger] is_driven(list, id)
            &&& plan is Replace ==> carries_out(plan->Replace_0.devices@, list)
            &&& !(plan is Replace) ==> plan is Cancel
        },
{
    if outcome is Some {
        law_plan_follows_the_control_signals(plan, control_signals_of(outcome->0));
    }
}

/// What is shown of a reply is all that it holds.
pub proof fn law_reply_views_hide_nothing(start: StartReply, stop: StopReply)
    ensures
        start@.body == start.body@,
        start@.start == start.start,
        stop@.body == stop.body@,
        stop@.stop_optimization == stop.stop_optimization,
        stop@.stop_control == stop.stop_control,
{
}

} // verus!
