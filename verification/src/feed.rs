//! A feed: the latest outcome of a job that is run over and over, and its latest failure.

use crate::graphql::{optional_json, optional_text};
use crate::json::{Json, JsonView};
use vstd::prelude::*;

verus! {

/// How long to wait before the next run where the feed holds data, in seconds.
pub const REFRESH_SECS: u64 = 3600;

/// How long to wait before the next run where the feed holds no data yet, in seconds.
pub const RETRY_SECS: u64 = 30;

/// The latest outcome, and the latest failure since.
#[derive(Debug, PartialEq, Eq)]
pub struct Feed {
    pub latest: Option<Json>,
    pub error: Option<String>,
}

/// What a `Feed` says.
#[verifier::ext_equal]
pub struct FeedView {
    pub latest: Option<JsonView>,
    pub error: Option<Seq<char>>,
}

impl View for Feed {
    type V = FeedView;

    open spec fn view(&self) -> FeedView {
        FeedView { latest: optional_json(self.latest), error: optional_text(self.error) }
    }
}

/// How a run ended: with an outcome, without one, or with a failure.
pub open spec fn run_view(result: Result<Option<Json>, String>) -> Result<
    Option<JsonView>,
    Seq<char>,
> {
    match result {
        Ok(outcome) => Ok(optional_json(outcome)),
        Err(text) => Err(text@),
    }
}

/// An answer that is a status.
pub open spec fn status_body(status: Seq<char>) -> JsonView {
    JsonView::object().with("status"@, JsonView::Text(status))
}

/// An answer that holds data.
pub open spec fn data_body(data: JsonView) -> JsonView {
    status_body("ok"@).with("data"@, data)
}

impl FeedView {
    /// A feed before its first run.
    pub open spec fn empty() -> FeedView {
        FeedView { latest: None, error: None }
    }

    /// The feed after a run: an outcome takes the place of the earlier one and of the failure, a
    /// failure that of the earlier failure.
    pub open spec fn after(self, result: Result<Option<JsonView>, Seq<char>>) -> FeedView {
        match result {
            Ok(Some(outcome)) => FeedView { latest: Some(outcome), error: None },
            Ok(None) => self,
            Err(text) => FeedView { error: Some(text), ..self },
        }
    }

    /// How long to wait before the next run, in seconds: an hour where the feed holds data, and a
    /// short while where it holds none yet.
    pub open spec fn delay(self) -> u64 {
        if self.latest is Some {
            REFRESH_SECS
        } else {
            RETRY_SECS
        }
    }

    /// What a caller is answered: the outcome, or else the failure, or else that there is nothing.
    pub open spec fn body(self) -> JsonView {
        match (self.latest, self.error) {
            (Some(outcome), _) => data_body(outcome),
            (None, Some(text)) => status_body("error"@).with("message"@, JsonView::Text(text)),
            (None, None) => status_body("no_data"@),
        }
    }
}

/// An answer that is a status.
pub fn status_reply(status: &str) -> (r: Json)
    ensures
        r@ == status_body(status@),
{
    Json::object().with("status", Json::text(status))
}

impl Feed {
    /// A feed before its first run.
    pub fn new() -> (r: Feed)
        ensures
            r@ == FeedView::empty(),
    {
        Feed { latest: None, error: None }
    }

    /// Takes note of how a run ended.
    pub fn record(&mut self, result: Result<Option<Json>, String>)
        ensures
            final(self)@ == old(self)@.after(run_view(result)),
    {
        match result {
            Ok(Some(outcome)) => {
                self.latest = Some(outcome);
                self.error = None;
            },
            Ok(None) => {},
            Err(text) => {
                self.error = Some(text);
            },
        }
    }

    /// How long to wait before the next run, in seconds.
    pub fn delay_secs(&self) -> (r: u64)
        ensures
            r == self@.delay(),
    {
        if self.latest.is_some() {
            REFRESH_SECS
        } else {
            RETRY_SECS
        }
    }

    /// Answers a caller.
    pub fn reply(&self) -> (r: Json)
        ensures
            r@ == self@.body(),
    {
        match &self.latest {
            Some(outcome) => status_reply("ok").with("data", outcome.copy()),
            None => match &self.error {
                Some(text) => status_reply("error").with("message", Json::text(text.as_str())),
                None => status_reply("no_data"),
            },
        }
    }
}

/// A feed after a number of runs.
pub open spec fn feed_after(runs: Seq<Result<Option<JsonView>, Seq<char>>>) -> FeedView
    decreases runs.len(),
{
    if runs.len() == 0 {
        FeedView::empty()
    } else {
        feed_after(runs.drop_last()).after(runs.last())
    }
}

/// Whether a run ended with an outcome.
pub open spec fn has_outcome(result: Result<Option<JsonView>, Seq<char>>) -> bool {
    result is Ok && result->Ok_0 is Some
}

/// The latest outcome is answered, however many runs ended without one since.
pub proof fn law_latest_outcome_is_answered(
    runs: Seq<Result<Option<JsonView>, Seq<char>>>,
    n: int,
)
    requires
        0 <= n < runs.len(),
        has_outcome(runs[n]),
        forall|i: int| n < i < runs.len() ==> !has_outcome(#[trigger] runs[i]),
    ensures
        feed_after(runs).latest == runs[n]->Ok_0,
        feed_after(runs).body() == data_body(runs[n]->Ok_0->0),
    decreases runs.len(),
{
    if n < runs.len() - 1 {
        assert(!has_outcome(runs[runs.len() - 1]));
        assert(runs.drop_last()[n] == runs[n]);
        law_latest_outcome_is_answered(runs.drop_last(), n);
    }
}

/// Without any outcome the latest failure is answered.
pub proof fn law_latest_failure_is_answered(
    runs: Seq<Result<Option<JsonView>, Seq<char>>>,
    n: int,
)
    requires
        0 <= n < runs.len(),
        runs[n] is Err,
        forall|i: int| 0 <= i < runs.len() ==> !has_outcome(#[trigger] runs[i]),
        forall|i: int| n < i < runs.len() ==> #[trigger] runs[i] is Ok,
    ensures
        feed_after(runs) == (FeedView { latest: None, error: Some(runs[n]->Err_0) }),
        feed_after(runs).body() == status_body("error"@).with(
            "message"@,
            JsonView::Text(runs[n]->Err_0),
        ),
    decreases runs.len(),
{
    let earlier = runs.drop_last();
    assert(!has_outcome(runs[runs.len() - 1]));
    assert forall|i: int| 0 <= i < earlier.len() implies !has_outcome(#[trigger] earlier[i]) by {
        assert(!has_outcome(runs[i]));
    }
    if n < runs.len() - 1 {
        assert(runs[runs.len() - 1] is Ok);
        assert(earlier[n] == runs[n]);
        assert forall|i: int| n < i < earlier.len() implies #[trigger] earlier[i] is Ok by {
            assert(runs[i] is Ok);
        }
        law_latest_failure_is_answered(earlier, n);
    } else {
        lemma_no_outcome(earlier);
    }
}

/// Without any outcome the feed holds none.
proof fn lemma_no_outcome(runs: Seq<Result<Option<JsonView>, Seq<char>>>)
    requires
        forall|i: int| 0 <= i < runs.len() ==> !has_outcome(#[trigger] runs[i]),
    ensures
        feed_after(runs).latest is None,
    decreases runs.len(),
{
    if runs.len() > 0 {
        let earlier = runs.drop_last();
        assert(!has_outcome(runs[runs.len() - 1]));
        assert forall|i: int| 0 <= i < earlier.len() implies !has_outcome(#[trigger] earlier[i]) by {
            assert(!has_outcome(runs[i]));
        }
        lemma_no_outcome(earlier);
    }
}

/// A feed whose runs gave neither an outcome nor a failure has nothing to answer.
pub proof fn law_silent_feed_has_no_data(runs: Seq<Result<Option<JsonView>, Seq<char>>>)
    requires
        forall|i: int|
            0 <= i < runs.len() ==> #[trigger] runs[i] == Ok::<Option<JsonView>, Seq<char>>(None),
    ensures
        feed_after(runs).body() == status_body("no_data"@),
    decreases runs.len(),
{
    if runs.len() > 0 {
        let earlier = runs.drop_last();
        assert(runs[runs.len() - 1] == Ok::<Option<JsonView>, Seq<char>>(None));
        assert forall|i: int| 0 <= i < earlier.len() implies #[trigger] earlier[i] == Ok::<
            Option<JsonView>,
            Seq<char>,
        >(None) by {
            assert(runs[i] == Ok::<Option<JsonView>, Seq<char>>(None));
        }
        law_silent_feed_has_no_data(earlier);
    }
}

/// A feed that holds data goes on to hold data, and is run by the hour from then on.
pub proof fn law_data_is_never_lost(
    runs: Seq<Result<Option<JsonView>, Seq<char>>>,
    later: Seq<Result<Option<JsonView>, Seq<char>>>,
)
    requires
        feed_after(runs).latest is Some,
    ensures
        feed_after(runs + later).latest is Some,
        feed_after(runs + later).delay() == REFRESH_SECS,
    decreases later.len(),
{
    if later.len() == 0 {
        assert(runs + later =~= runs);
    } else {
        assert((runs + later).drop_last() =~= runs + later.drop_last());
        law_data_is_never_lost(runs, later.drop_last());
    }
}

/// A caller is answered the outcome wherever there is one, else the failure, else that there is no
/// data; each answer holds its status and that, and nothing else.
pub proof fn law_answers_of_a_feed(
    outcome: JsonView,
    text: Seq<char>,
    error: Option<Seq<char>>,
)
    ensures
        (FeedView { latest: Some(outcome), error }).body() == JsonView::Object(
            map!["status"@ => JsonView::Text("ok"@), "data"@ => outcome],
        ),
        (FeedView { latest: None, error: Some(text) }).body() == JsonView::Object(
            map!["status"@ => JsonView::Text("error"@), "message"@ => JsonView::Text(text)],
        ),
        (FeedView { latest: None, error: None }).body() == JsonView::Object(
            map!["status"@ => JsonView::Text("no_data"@)],
        ),
        FeedView::empty().latest is None,
        FeedView::empty().error is None,
{
}

/// An outcome is kept and clears the failure, a failure is kept and leaves the outcome, and a run
/// with neither changes nothing.
pub proof fn law_what_a_run_leaves_behind(feed: FeedView, outcome: JsonView, text: Seq<char>)
    ensures
        feed.after(Ok(Some(outcome))).latest == Some(outcome),
        feed.after(Ok(Some(outcome))).error is None,
        feed.after(Err(text)).latest == feed.latest,
        feed.after(Err(text)).error == Some(text),
        feed.after(Ok(None)) == feed,
{
}

/// A feed with data is run again after an hour, one without after half a minute, whatever failed.
pub proof fn law_feed_without_data_is_tried_again_soon(feed: FeedView)
    ensures
        feed.latest is Some ==> feed.delay() == 60 * 60,
        feed.latest is None ==> feed.delay() == 30,
{
}

/// What is shown of a feed and of a run is all that they hold.
pub proof fn law_feed_views_hide_nothing(feed: Feed, result: Result<Option<Json>, String>)
    ensures
        feed.latest is None <==> feed@.latest is None,
        feed.latest is Some ==> feed@.latest == Some(feed.latest->0@),
        feed.error is None <==> feed@.error is None,
        feed.error is Some ==> feed@.error == Some(feed.error->0@),
        match result {
            Ok(Some(outcome)) => run_view(result) == Ok::<_, Seq<char>>(Some(outcome@)),
            Ok(None) => run_view(result) == Ok::<_, Seq<char>>(None::<JsonView>),
            Err(text) => run_view(result) == Err::<Option<JsonView>, _>(text@),
        },
{
}

} // verus!
