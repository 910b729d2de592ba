//! What the backend answers where it stands between its callers and other services.

use crate::json::{lemma_list_view, list_view, Json, JsonView};
use crate::text::{decimal, decimal_u64, law_trimmed_end, occurs_at};
use crate::text::{law_copies_at_the_end_are_cut_off, law_run_at_the_end_is_cut_off};
use crate::text::{strip_end_char, strip_end_text, trim_end_char, trim_end_text};
use vstd::prelude::*;

verus! {

/// The status of an answer where the service behind the backend cannot be reached.
pub const BAD_GATEWAY: u16 = 502;

/// An answer of the backend.
#[derive(Debug, PartialEq, Eq)]
pub struct HttpReply {
    pub status: u16,
    pub body: Json,
}

/// What came back from a service that answers with documents.
#[derive(Debug, PartialEq, Eq)]
pub enum Upstream {
    /// An answer, with its document where it holds one.
    Replied { status: u16, body: Option<Json> },
    /// No answer; the text says why.
    Unreachable(String),
}

/// What came back from a service that answers with plain text.
#[derive(Debug, PartialEq, Eq)]
pub enum TextUpstream {
    /// An answer, with its text where it can be read.
    Replied { status: u16, text: Option<String> },
    /// No answer; the text says why.
    Unreachable(String),
}

/// A list of errors with one message.
pub open spec fn error_list(message: Seq<char>) -> JsonView {
    JsonView::object().with(
        "errors"@,
        JsonView::List(seq![JsonView::object().with("message"@, JsonView::Text(message))]),
    )
}

/// A document with one message.
pub open spec fn message_body(message: Seq<char>) -> JsonView {
    JsonView::object().with("message"@, JsonView::Text(message))
}

/// Whether a status says that a request succeeded.
pub open spec fn is_success(status: u16) -> bool {
    200 <= status < 300
}

/// The address of the root of Home Assistant's interface.
pub open spec fn api_url_of(base_url: Seq<char>) -> Seq<char> {
    trim_end_char(base_url, '/') + "/"@
}

/// The address of the states of all entities.
pub open spec fn states_url_of(base_url: Seq<char>) -> Seq<char> {
    trim_end_char(base_url, '/') + "/states"@
}

/// The address of the health of the GraphQL service.
pub open spec fn health_url_of(graphql_url: Seq<char>) -> Seq<char> {
    trim_end_text(graphql_url, "/graphql"@) + "/health"@
}

/// Calls `StatusCode::is_success` of `reqwest` on the status that `StatusCode::from_u16` gives.
///
/// The former holds of the statuses from 200 to 299. The latter refuses what is below 100 or above
/// 999, which is no success either.
#[verifier::external_body]
fn status_is_success(status: u16) -> (r: bool)
    ensures
        r == is_success(status),
{
    match reqwest::StatusCode::from_u16(status) {
        Ok(code) => code.is_success(),
        Err(_) => false,
    }
}

/// Whether `s` ends with `suffix`.
pub open spec fn is_suffix(suffix: Seq<char>, s: Seq<char>) -> bool {
    occurs_at(s, suffix, s.len() - suffix.len())
}

/// A list of errors with one message.
pub fn one_error(message: &str) -> (r: Json)
    ensures
        r@ == error_list(message@),
{
    let entry = Json::object().with("message", Json::text(message));
    let mut list: Vec<Json> = Vec::new();
    list.push(entry);
    proof {
        lemma_list_view(list@);
        assert(list_view(list@)[0] == list@[0]@);
        assert(list_view(list@) =~= seq![entry@]);
    }
    Json::object().with("errors", Json::List(list))
}

/// A document with one message.
pub fn one_message(message: &str) -> (r: Json)
    ensures
        r@ == message_body(message@),
{
    Json::object().with("message", Json::text(message))
}

/// The status of the answer to a caller of a service behind the backend.
pub open spec fn passed_status(upstream: Upstream) -> u16 {
    match upstream {
        Upstream::Replied { status, body: _ } => status,
        Upstream::Unreachable(_) => BAD_GATEWAY,
    }
}

/// The body of the answer to a caller of the GraphQL service.
pub open spec fn graphql_body(upstream: Upstream) -> JsonView {
    match upstream {
        Upstream::Replied { status: _, body: Some(document) } => document@,
        Upstream::Replied { status: _, body: None } => error_list(
            "Hertta returned a non-JSON response"@,
        ),
        Upstream::Unreachable(text) => error_list(text@),
    }
}

/// The body of the answer to a caller of Home Assistant's interface.
pub open spec fn home_assistant_body(upstream: Upstream) -> JsonView {
    match upstream {
        Upstream::Replied { status: _, body: Some(document) } => document@,
        Upstream::Replied { status: _, body: None } => message_body(
            "Home Assistant returned a non-JSON response"@,
        ),
        Upstream::Unreachable(text) => message_body(text@),
    }
}

/// The status of the answer to a caller who asks for the health of the GraphQL service.
pub open spec fn health_status(upstream: TextUpstream) -> u16 {
    match upstream {
        TextUpstream::Replied { status, text: _ } => status,
        TextUpstream::Unreachable(_) => BAD_GATEWAY,
    }
}

/// The body of the answer to a caller who asks for the health of the GraphQL service.
pub open spec fn health_body(upstream: TextUpstream) -> JsonView {
    match upstream {
        TextUpstream::Replied { status, text } => JsonView::object().with(
            "status"@,
            JsonView::Text(
                if is_success(status) {
                    "ok"@
                } else {
                    "error"@
                },
            ),
        ).with(
            "body"@,
            JsonView::Text(
                match text {
                    Some(text) => text@,
                    None => seq![],
                },
            ),
        ),
        TextUpstream::Unreachable(text) => JsonView::object().with(
            "status"@,
            JsonView::Text("error"@),
        ).with("message"@, JsonView::Text(text@)),
    }
}

/// The body of the answer to a caller who asks for the state of an entity.
pub open spec fn state_body(entity_id: Seq<char>, state: Result<JsonView, Seq<char>>) -> JsonView {
    match state {
        Ok(document) => JsonView::object().with("status"@, JsonView::Text("ok"@)).with(
            "entity_id"@,
            JsonView::Text(entity_id),
        ).with("data"@, document),
        Err(text) => JsonView::object().with("status"@, JsonView::Text("error"@)).with(
            "entity_id"@,
            JsonView::Text(entity_id),
        ).with("message"@, JsonView::Text(text)),
    }
}

/// A state or the text of a failure.
pub open spec fn state_view(state: Result<Json, String>) -> Result<JsonView, Seq<char>> {
    match state {
        Ok(document) => Ok(document@),
        Err(text) => Err(text@),
    }
}

/// The state of an entity, where the answer succeeded and holds one.
pub open spec fn fetched(status: u16, body: Result<JsonView, Seq<char>>) -> Result<
    JsonView,
    Seq<char>,
> {
    if body is Ok && !is_success(status) {
        Err("HTTP status "@ + decimal(status as int))
    } else {
        body
    }
}

/// Answers a caller of the GraphQL service.
pub fn graphql_proxy_reply(upstream: Upstream) -> (r: HttpReply)
    ensures
        match upstream {
            Upstream::Replied { status, body } => r.status == status && r.body@ == (match body {
                Some(document) => document@,
                None => error_list("Hertta returned a non-JSON response"@),
            }),
            Upstream::Unreachable(text) => r.status == BAD_GATEWAY && r.body@ == error_list(text@),
        },
        r.status == passed_status(upstream),
        r.body@ == graphql_body(upstream),
{
    match upstream {
        Upstream::Replied { status, body } => {
            let body = match body {
                Some(document) => document,
                None => one_error("Hertta returned a non-JSON response"),
            };
            HttpReply { status, body }
        },
        Upstream::Unreachable(text) => HttpReply {
            status: BAD_GATEWAY,
            body: one_error(text.as_str()),
        },
    }
}

/// Answers a caller of Home Assistant's interface.
pub fn ha_proxy_reply(upstream: Upstream) -> (r: HttpReply)
    ensures
        match upstream {
            Upstream::Replied { status, body } => r.status == status && r.body@ == (match body {
                Some(document) => document@,
                None => message_body("Home Assistant returned a non-JSON response"@),
            }),
            Upstream::Unreachable(text) => r.status == BAD_GATEWAY && r.body@ == message_body(
                text@,
            ),
        },
        r.status == passed_status(upstream),
        r.body@ == home_assistant_body(upstream),
{
    match upstream {
        Upstream::Replied { status, body } => {
            let body = match body {
                Some(document) => document,
                None => one_message("Home Assistant returned a non-JSON response"),
            };
            HttpReply { status, body }
        },
        Upstream::Unreachable(text) => HttpReply {
            status: BAD_GATEWAY,
            body: one_message(text.as_str()),
        },
    }
}

/// Answers a caller who asks for the health of the GraphQL service.
pub fn hertta_health_reply(upstream: TextUpstream) -> (r: HttpReply)
    ensures
        match upstream {
            TextUpstream::Replied { status, text } => r.status == status && r.body@
                == JsonView::object().with(
                "status"@,
                JsonView::Text(
                    if is_success(status) {
                        "ok"@
                    } else {
                        "error"@
                    },
                ),
            ).with(
                "body"@,
                JsonView::Text(
                    match text {
                        Some(text) => text@,
                        None => seq![],
                    },
                ),
            ),
            TextUpstream::Unreachable(text) => r.status == BAD_GATEWAY && r.body@
                == JsonView::object().with("status"@, JsonView::Text("error"@)).with(
                "message"@,
                JsonView::Text(text@),
            ),
        },
        r.status == health_status(upstream),
        r.body@ == health_body(upstream),
{
    match upstream {
        TextUpstream::Replied { status, text } => {
            let verdict = if status_is_success(status) {
                "ok"
            } else {
                "error"
            };
            let text = match text {
                Some(text) => text,
                None => String::new(),
            };
            let body = Json::object().with("status", Json::text(verdict)).with(
                "body",
                Json::Text(text),
            );
            HttpReply { status, body }
        },
        TextUpstream::Unreachable(text) => {
            let body = Json::object().with("status", Json::text("error")).with(
                "message",
                Json::Text(text),
            );
            HttpReply { status: BAD_GATEWAY, body }
        },
    }
}

/// The state of an entity, given the status of Home Assistant's answer and its document or the text
/// of a failure. Only an answer that succeeded holds a state.
pub fn entity_state(status: u16, body: Result<Json, String>) -> (r: Result<Json, String>)
    ensures
        match body {
            Ok(document) => if is_success(status) {
                r == Ok::<Json, String>(document)
            } else {
                r is Err && r->Err_0@ == "HTTP status "@ + decimal(status as int)
            },
            Err(text) => r == Err::<Json, String>(text),
        },
        state_view(r) == fetched(status, state_view(body)),
{
    match body {
        Ok(document) => {
            if status_is_success(status) {
                Ok(document)
            } else {
                let mut text = "HTTP status ".to_string();
                text.append(decimal_u64(status as u64).as_str());
                Err(text)
            }
        },
        Err(text) => Err(text),
    }
}

/// Answers a caller who asks for the state of an entity, given the state or the text of a failure.
pub fn ha_state_reply(entity_id: &str, state: Result<Json, String>) -> (r: Json)
    ensures
        r@ == (match state {
            Ok(document) => JsonView::object().with("status"@, JsonView::Text("ok"@)).with(
                "entity_id"@,
                JsonView::Text(entity_id@),
            ).with("data"@, document@),
            Err(text) => JsonView::object().with("status"@, JsonView::Text("error"@)).with(
                "entity_id"@,
                JsonView::Text(entity_id@),
            ).with("message"@, JsonView::Text(text@)),
        }),
        r@ == state_body(entity_id@, state_view(state)),
{
    match state {
        Ok(document) => Json::object().with("status", Json::text("ok")).with(
            "entity_id",
            Json::text(entity_id),
        ).with("data", document),
        Err(text) => Json::object().with("status", Json::text("error")).with(
            "entity_id",
            Json::text(entity_id),
        ).with("message", Json::Text(text)),
    }
}

/// Answers a caller who wants to set the token for Home Assistant.
pub fn set_ha_api_key_reply() -> (r: Json)
    ensures
        r@ == JsonView::object().with("status"@, JsonView::Text("ok"@)).with(
            "message"@,
            JsonView::Text(
                "Use HASS_TOKEN when starting the container to set the Home Assistant token."@,
            ),
        ),
{
    Json::object().with("status", Json::text("ok")).with(
        "message",
        Json::text("Use HASS_TOKEN when starting the container to set the Home Assistant token."),
    )
}

/// What is shown of the user interface: its page, or a note where its file is missing.
pub open spec fn shown_page(page: Option<String>) -> Seq<char> {
    match page {
        Some(text) => text@,
        None => "<h1>UI not found</h1><p>/web/index.html missing</p>"@,
    }
}

/// The page of the user interface, or a note where its file is missing.
pub fn spa_page(page: Option<String>) -> (r: String)
    ensures
        r@ == (match page {
            Some(text) => text@,
            None => "<h1>UI not found</h1><p>/web/index.html missing</p>"@,
        }),
        r@ == shown_page(page),
{
    match page {
        Some(text) => text,
        None => "<h1>UI not found</h1><p>/web/index.html missing</p>".to_string(),
    }
}

/// The address of the root of Home Assistant's interface.
pub fn api_url(base_url: &str) -> (r: String)
    ensures
        r@ == api_url_of(base_url@),
{
    let mut url = strip_end_char(base_url, '/').to_string();
    url.append("/");
    url
}

/// The address of the states of all entities.
pub fn states_url(base_url: &str) -> (r: String)
    ensures
        r@ == states_url_of(base_url@),
{
    let mut url = strip_end_char(base_url, '/').to_string();
    url.append("/states");
    url
}

/// The address of the health of the GraphQL service.
pub fn health_url(graphql_url: &str) -> (r: String)
    ensures
        r@ == health_url_of(graphql_url@),
{
    let mut url = strip_end_text(graphql_url, "/graphql");
    url.append("/health");
    url
}

/// The health of the GraphQL service is found beside its interface.
pub proof fn law_health_is_beside_graphql(service: Seq<char>)
    ensures
        health_url_of(service + "/graphql"@) == health_url_of(service),
        !is_suffix("/graphql"@, service) ==> health_url_of(service + "/graphql"@) == service
            + "/health"@,
{
    let suffix = "/graphql"@;
    let url = service + suffix;
    reveal_strlit("/graphql");
    assert(url.subrange(service.len() as int, url.len() as int) =~= suffix);
    assert(occurs_at(url, suffix, url.len() - suffix.len()));
    assert(url.take(url.len() - suffix.len()) =~= service);
}

/// Slashes at the end of the base address make no difference to the addresses made from it.
pub proof fn law_trailing_slash_is_dropped(base_url: Seq<char>)
    ensures
        api_url_of(base_url.push('/')) == api_url_of(base_url),
        states_url_of(base_url.push('/')) == states_url_of(base_url),
{
    law_trimmed_end(base_url, '/');
}

/// A status is one of success where its first of three digits is two.
pub proof fn law_success_begins_with_two(status: u16)
    ensures
        is_success(status) <==> status / 100 == 2,
{
}

/// What a service answers is passed on with its status as it is; a service that answers with no
/// document, or not at all, is spoken for in its own form.
pub proof fn law_answers_are_passed_on(status: u16, document: Json, text: String)
    ensures
        ({
            let answered = Upstream::Replied { status, body: Some(document) };
            let garbled = Upstream::Replied { status, body: None };
            let silent = Upstream::Unreachable(text);
            &&& passed_status(answered) == status
            &&& graphql_body(answered) == document@
            &&& home_assistant_body(answered) == document@
            &&& passed_status(garbled) == status
            &&& graphql_body(garbled) == JsonView::Object(
                map![
                    "errors"@ => JsonView::List(
                        seq![
                            JsonView::Object(
                                map![
                                    "message"@ => JsonView::Text(
                                        "Hertta returned a non-JSON response"@,
                                    ),
                                ],
                            ),
                        ],
                    ),
                ],
            )
            &&& home_assistant_body(garbled) == JsonView::Object(
                map![
                    "message"@ => JsonView::Text("Home Assistant returned a non-JSON response"@),
                ],
            )
            &&& passed_status(silent) == 502
            &&& graphql_body(silent) == JsonView::Object(
                map![
                    "errors"@ => JsonView::List(
                        seq![JsonView::Object(map!["message"@ => JsonView::Text(text@)])],
                    ),
                ],
            )
            &&& home_assistant_body(silent) == JsonView::Object(
                map!["message"@ => JsonView::Text(text@)],
            )
        }),
{
}

/// The service is well exactly where its status is one of success; its text is passed on, and a
/// service that does not answer is not well.
pub proof fn law_health_is_judged_by_the_status(status: u16, text: String)
    ensures
        ({
            let answered = TextUpstream::Replied { status, text: Some(text) };
            let garbled = TextUpstream::Replied { status, text: None };
            let silent = TextUpstream::Unreachable(text);
            let verdict = JsonView::Text(
                if 200 <= status <= 299 {
                    "ok"@
                } else {
                    "error"@
                },
            );
            &&& health_status(answered) == status
            &&& health_body(answered) == JsonView::Object(
                map!["status"@ => verdict, "body"@ => JsonView::Text(text@)],
            )
            &&& health_status(garbled) == status
            &&& health_body(garbled) == JsonView::Object(
                map!["status"@ => verdict, "body"@ => JsonView::Text(Seq::empty())],
            )
            &&& health_status(silent) == 502
            &&& health_body(silent) == JsonView::Object(
                map!["status"@ => JsonView::Text("error"@), "message"@ => JsonView::Text(text@)],
            )
        }),
{
}

/// A state is got exactly where the answer succeeded and holds a document, and then it is that
/// document; whoever asks is answered it, or why there is none, with the id that was asked for.
pub proof fn law_state_is_answered_for_its_entity(
    entity_id: Seq<char>,
    status: u16,
    document: JsonView,
    text: Seq<char>,
)
    ensures
        200 <= status <= 299 ==> fetched(status, Ok(document)) == Ok::<_, Seq<char>>(document),
        !(200 <= status <= 299) ==> fetched(status, Ok(document)) is Err,
        fetched(status, Err(text)) == Err::<JsonView, _>(text),
        state_body(entity_id, Ok(document)) == JsonView::Object(
            map![
                "status"@ => JsonView::Text("ok"@),
                "entity_id"@ => JsonView::Text(entity_id),
                "data"@ => document,
            ],
        ),
        state_body(entity_id, Err(text)) == JsonView::Object(
            map![
                "status"@ => JsonView::Text("error"@),
                "entity_id"@ => JsonView::Text(entity_id),
                "message"@ => JsonView::Text(text),
            ],
        ),
{
}

/// The addresses of Home Assistant's interface and of all states lie under the base address, however
/// many slashes that ends in.
pub proof fn law_addresses_lie_under_the_base(base_url: Seq<char>, n: nat)
    requires
        base_url.len() > 0 ==> base_url.last() != '/',
    ensures
        api_url_of(base_url + Seq::new(n, |i: int| '/')) == base_url + "/"@,
        states_url_of(base_url + Seq::new(n, |i: int| '/')) == base_url + "/states"@,
{
    law_run_at_the_end_is_cut_off(base_url, '/', n);
}

/// The address of the health of a service is that of the service with `/health` in the place of
/// `/graphql`, or behind it where there is none.
pub proof fn law_health_takes_the_place_of_graphql(service: Seq<char>)
    requires
        forall|a: Seq<char>| service != #[trigger] (a + "/graphql"@),
    ensures
        health_url_of(service + "/graphql"@) == service + "/health"@,
        health_url_of(service) == service + "/health"@,
{
    reveal_strlit("/graphql");
    law_copies_at_the_end_are_cut_off(service, "/graphql"@);
}

/// A page that was read is shown as it is; the note is shown only for one that is missing.
pub proof fn law_page_is_shown_as_it_is(page: String)
    ensures
        shown_page(Some(page)) == page@,
        shown_page(None) == "<h1>UI not found</h1><p>/web/index.html missing</p>"@,
{
}

} // verus!
