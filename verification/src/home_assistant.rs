//! Home Assistant: which entity a control signal speaks of, and what is asked of Home Assistant.

use crate::json::{lemma_list_view, list_view};
use crate::json::{Json, JsonView, Number};
use crate::text::{before, contains_text, first_at, join, occurs_at, split, texts, trim_end_char};
use crate::text::{begins_with, cut_before, find_text, has_char, join_first, same_text, split_on};
use crate::text::strip_end_char;
use crate::text::find_char;
use crate::text::{
    law_contained_text_can_be_cut_out, law_run_at_the_end_is_cut_off, law_text_before_a_separator,
    lemma_find_char,
};
use crate::text::{
    law_join_undoes_split, law_split_undoes_join, law_trimmed_end, lemma_before_of_prefix,
    lemma_contains_of_prefix, lemma_join_prefix, lemma_split_at_separator, lemma_split_pieces,
};
use vstd::prelude::*;

verus! {

/// The domains of the entities that the backend controls.
pub open spec fn valid_domain(domain: Seq<char>) -> bool {
    ||| domain == "switch"@
    ||| domain == "light"@
    ||| domain == "climate"@
    ||| domain == "number"@
    ||| domain == "fan"@
    ||| domain == "cover"@
}

/// The domain of an entity id: what stands in front of its first dot.
pub open spec fn domain_of(entity_id: Seq<char>) -> Seq<char> {
    before(entity_id, '.')
}

/// What ends the entity id in the name of a signal that feeds on the electricity grid.
pub open spec fn grid_marker() -> Seq<char> {
    "_electricitygrid"@
}

/// The first position at which `pattern` stands in `s`, where it stands in it.
pub open spec fn first_position(s: Seq<char>, pattern: Seq<char>) -> int {
    choose|i: int| first_at(s, pattern, i)
}

/// Whether a piece of a signal's name begins an entity of the given domain.
pub open spec fn names_domain(part: Seq<char>, domain: Seq<char>) -> bool {
    part == domain || occurs_at(part, domain + "."@, 0)
}

/// How many of the pieces begin an entity of the given domain.
pub open spec fn mentions(parts: Seq<Seq<char>>, domain: Seq<char>) -> nat
    decreases parts.len(),
{
    if parts.len() == 0 {
        0
    } else if names_domain(parts.last(), domain) {
        mentions(parts.drop_last(), domain) + 1
    } else {
        mentions(parts.drop_last(), domain)
    }
}

/// The longest run of leading pieces in which the domain is named at most once.
pub open spec fn leading_entity(parts: Seq<Seq<char>>, domain: Seq<char>) -> Seq<Seq<char>>
    decreases parts.len(),
{
    if parts.len() == 0 || mentions(parts, domain) <= 1 {
        parts
    } else {
        leading_entity(parts.drop_last(), domain)
    }
}

/// The part of a signal's name that may be an entity id.
///
/// It ends where the grid marker begins; in a name without the marker, before the piece that
/// names the entity's domain for the second time.
pub open spec fn candidate_id(name: Seq<char>) -> Seq<char> {
    if contains_text(name, grid_marker()) {
        name.take(first_position(name, grid_marker()))
    } else {
        join(leading_entity(split(name, '_'), domain_of(name)), '_')
    }
}

/// The entity id in the name of a control signal, or the empty text where there is none.
pub open spec fn entity_id_of(name: Seq<char>) -> Seq<char> {
    let candidate = candidate_id(name);
    if !name.contains('.') {
        seq![]
    } else if !contains_text(name, grid_marker()) && !candidate.contains('.') {
        seq![]
    } else if valid_domain(domain_of(candidate)) {
        candidate
    } else {
        seq![]
    }
}

/// A first position is unique.
pub proof fn lemma_first_position(s: Seq<char>, pattern: Seq<char>, i: int)
    requires
        first_at(s, pattern, i),
    ensures
        first_position(s, pattern) == i,
        contains_text(s, pattern),
{
    let k = first_position(s, pattern);
    assert(first_at(s, pattern, k));
    if k < i {
        assert(!occurs_at(s, pattern, k));
    }
    if i < k {
        assert(!occurs_at(s, pattern, i));
    }
}

/// A longer run of pieces names the domain no less often.
proof fn lemma_mentions_monotone(parts: Seq<Seq<char>>, domain: Seq<char>, n: int)
    requires
        0 <= n <= parts.len(),
    ensures
        mentions(parts.take(n), domain) <= mentions(parts, domain),
    decreases parts.len(),
{
    if n == parts.len() {
        assert(parts.take(n) =~= parts);
    } else {
        assert(parts.drop_last().take(n) =~= parts.take(n));
        lemma_mentions_monotone(parts.drop_last(), domain, n);
    }
}

/// Where the leading run ends.
proof fn lemma_leading_entity(parts: Seq<Seq<char>>, domain: Seq<char>, cut: int)
    requires
        0 <= cut <= parts.len(),
        mentions(parts.take(cut), domain) <= 1,
        cut < parts.len() ==> mentions(parts.take(cut + 1), domain) > 1,
    ensures
        leading_entity(parts, domain) == parts.take(cut),
    decreases parts.len(),
{
    if cut == parts.len() {
        assert(parts.take(cut) =~= parts);
    } else {
        lemma_mentions_monotone(parts, domain, cut + 1);
        let shorter = parts.drop_last();
        assert(shorter.take(cut) =~= parts.take(cut));
        if cut < shorter.len() {
            assert(shorter.take(cut + 1) =~= parts.take(cut + 1));
        }
        lemma_leading_entity(shorter, domain, cut);
    }
}

/// Whether the backend controls entities of this domain.
pub fn is_valid_domain(domain: &str) -> (r: bool)
    ensures
        r == valid_domain(domain@),
{
    same_text(domain, "switch") || same_text(domain, "light") || same_text(domain, "climate")
        || same_text(domain, "number") || same_text(domain, "fan") || same_text(domain, "cover")
}

/// How many leading pieces belong to the entity.
fn count_leading(parts: &Vec<String>, domain: &str) -> (r: usize)
    ensures
        r <= parts@.len(),
        leading_entity(texts(parts@), domain@) == texts(parts@).take(r as int),
{
    let ghost all = texts(parts@);
    let mut prefix = domain.to_string();
    prefix.append(".");
    let mut seen: bool = false;
    let mut i: usize = 0;
    assert(all.take(0) =~= seq![]);
    while i < parts.len()
        invariant
            i <= parts@.len(),
            all == texts(parts@),
            prefix@ == domain@ + "."@,
            mentions(all.take(i as int), domain@) == (if seen { 1nat } else { 0nat }),
        decreases parts@.len() - i,
    {
        let part = parts[i].as_str();
        let names: bool = same_text(part, domain) || begins_with(part, prefix.as_str());
        proof {
            let next = all.take(i + 1);
            assert(next.drop_last() =~= all.take(i as int));
            assert(next.last() == part@);
            assert(names == names_domain(next.last(), domain@));
        }
        if names {
            if seen {
                proof {
                    lemma_leading_entity(all, domain@, i as int);
                }
                return i;
            }
            seen = true;
        }
        i = i + 1;
    }
    proof {
        lemma_leading_entity(all, domain@, i as int);
    }
    i
}

/// Extracts a Home Assistant entity id from the raw name of a control signal.
///
/// The result is empty where the name holds no entity that the backend controls.
pub fn extract_entity_id(name: &str) -> (r: String)
    ensures
        r@ == entity_id_of(name@),
{
    if !has_char(name, '.') {
        return String::new();
    }
    if let Some(index) = find_text(name, "_electricitygrid") {
        proof {
            lemma_first_position(name@, grid_marker(), index as int);
        }
        let entity_id = name.substring_char(0, index);
        assert(entity_id@ =~= name@.take(index as int));
        if is_valid_domain(cut_before(entity_id, '.')) {
            return entity_id.to_string();
        }
        return String::new();
    }
    let parts = split_on(name, '_');
    let count: usize = count_leading(&parts, cut_before(name, '.'));
    let candidate = join_first(&parts, count);
    if !has_char(candidate.as_str(), '.') {
        return String::new();
    }
    if is_valid_domain(cut_before(candidate.as_str(), '.')) {
        candidate
    } else {
        String::new()
    }
}

/// The leading run is a run of leading pieces in which the domain is named at most once.
proof fn lemma_leading_is_prefix(parts: Seq<Seq<char>>, domain: Seq<char>)
    ensures
        leading_entity(parts, domain).len() <= parts.len(),
        leading_entity(parts, domain) == parts.take(leading_entity(parts, domain).len() as int),
        mentions(leading_entity(parts, domain), domain) <= 1,
        parts.len() > 0 ==> leading_entity(parts, domain).len() > 0,
    decreases parts.len(),
{
    if parts.len() == 0 || mentions(parts, domain) <= 1 {
        assert(parts.take(parts.len() as int) =~= parts);
    } else {
        let front = parts.drop_last();
        lemma_leading_is_prefix(front, domain);
        let n = leading_entity(front, domain).len() as int;
        assert(front.take(n) =~= parts.take(n));
        if front.len() == 0 {
            assert(mentions(front, domain) == 0);
        }
    }
}

/// An entity id that is found is one that the backend controls.
pub proof fn law_found_entity_is_controlled(name: Seq<char>)
    ensures
        entity_id_of(name).len() > 0 ==> valid_domain(domain_of(entity_id_of(name))),
{
}

/// The entity id stands at the beginning of the name.
pub proof fn law_entity_id_begins_the_name(name: Seq<char>)
    ensures
        entity_id_of(name).is_prefix_of(name),
{
    if contains_text(name, grid_marker()) {
        lemma_first_exists(name, grid_marker());
    } else {
        let parts = split(name, '_');
        law_join_undoes_split(name, '_');
        lemma_leading_is_prefix(parts, domain_of(name));
        lemma_join_prefix(parts, leading_entity(parts, domain_of(name)).len() as int, '_');
    }
}

/// A pattern that stands in a text has a first position in it.
proof fn lemma_first_exists(s: Seq<char>, pattern: Seq<char>)
    requires
        contains_text(s, pattern),
    ensures
        first_at(s, pattern, first_position(s, pattern)),
{
    let i = choose|i: int| occurs_at(s, pattern, i);
    lemma_first_up_to(s, pattern, i);
}

/// A pattern that stands at a position has a first position up to it.
proof fn lemma_first_up_to(s: Seq<char>, pattern: Seq<char>, i: int)
    requires
        occurs_at(s, pattern, i),
    ensures
        exists|k: int| first_at(s, pattern, k),
    decreases i,
{
    if exists|j: int| 0 <= j < i && occurs_at(s, pattern, j) {
        let j = choose|j: int| 0 <= j < i && occurs_at(s, pattern, j);
        lemma_first_up_to(s, pattern, j);
    } else {
        assert(first_at(s, pattern, i));
    }
}

/// A signal that is named after a controlled entity and the electricity grid speaks of that
/// entity.
pub proof fn law_grid_signal_names_its_entity(entity_id: Seq<char>, rest: Seq<char>)
    requires
        valid_domain(domain_of(entity_id)),
        !contains_text(entity_id, grid_marker()),
        (entity_id + grid_marker() + rest).contains('.'),
    ensures
        entity_id_of(entity_id + grid_marker() + rest) == entity_id,
{
    lemma_grid_position(entity_id, rest);
}

/// In a name without the grid marker, the entity id ends before the piece that names its domain
/// again.
pub proof fn law_repeated_domain_ends_the_entity(entity_id: Seq<char>, rest: Seq<char>)
    requires
        entity_id.contains('.'),
        valid_domain(domain_of(entity_id)),
        mentions(split(entity_id, '_'), domain_of(entity_id)) == 1,
        names_domain(before(rest, '_'), domain_of(entity_id)),
        !contains_text(entity_id + seq!['_'] + rest, grid_marker()),
    ensures
        entity_id_of(entity_id + seq!['_'] + rest) == entity_id,
{
    let name = entity_id + seq!['_'] + rest;
    let domain = domain_of(entity_id);
    let parts = split(name, '_');
    let own = split(entity_id, '_');
    let n = own.len() as int;
    assert(entity_id.is_prefix_of(name));
    lemma_before_of_prefix(entity_id, name, '.');
    lemma_split_at_separator(entity_id, rest, '_');
    lemma_split_pieces(rest, '_');
    assert(parts.take(n) =~= own);
    let longer = parts.take(n + 1);
    assert(longer.drop_last() =~= own);
    assert(longer.last() == before(rest, '_'));
    lemma_leading_entity(parts, domain, n);
    law_join_undoes_split(entity_id, '_');
    let k = choose|k: int| 0 <= k < entity_id.len() && entity_id[k] == '.';
    assert(name[k] == '.');
}

/// The entity id of a name without the grid marker speaks of itself.
pub proof fn law_entity_id_names_itself(name: Seq<char>)
    requires
        !contains_text(name, grid_marker()),
    ensures
        entity_id_of(entity_id_of(name)) == entity_id_of(name),
{
    let id = entity_id_of(name);
    if id.len() > 0 {
        let parts = split(name, '_');
        let domain = domain_of(name);
        let kept = leading_entity(parts, domain);
        law_entity_id_begins_the_name(name);
        if contains_text(id, grid_marker()) {
            lemma_contains_of_prefix(id, name, grid_marker());
        }
        lemma_before_of_prefix(id, name, '.');
        lemma_split_pieces(name, '_');
        lemma_leading_is_prefix(parts, domain);
        assert forall|i: int| 0 <= i < kept.len() implies !(#[trigger] kept[i]).contains('_') by {
            assert(kept[i] == parts[i]);
        }
        law_split_undoes_join(kept, '_');
    }
}

/// Slashes at the end of the base address make no difference to the addresses made from it.
pub proof fn law_trailing_slash_makes_no_difference(
    base_url: Seq<char>,
    entity_id: Seq<char>,
    value: SignalValue,
)
    ensures
        state_url(base_url.push('/'), entity_id) == state_url(base_url, entity_id),
        service_url(base_url.push('/'), entity_id, value) == service_url(
            base_url,
            entity_id,
            value,
        ),
{
    law_trimmed_end(base_url, '/');
}

/// The value of a control signal, as the bit pattern of its binary64 form.
#[derive(Debug, Clone, Copy, PartialEq, Eq, Structural)]
pub struct SignalValue {
    pub bits: u64,
}

/// The bit pattern of positive infinity: the patterns of the positive values reach from one to it.
pub const INFINITY_BITS: u64 = 0x7ff0_0000_0000_0000;

/// The bit pattern of the sign.
pub const SIGN_BIT: u64 = 0x8000_0000_0000_0000;

impl SignalValue {
    /// Whether the value is greater than zero.
    pub open spec fn positive(self) -> bool {
        0 < self.bits <= INFINITY_BITS
    }

    /// Whether the value is neither infinite nor undefined.
    pub open spec fn finite(self) -> bool {
        self.bits % SIGN_BIT < INFINITY_BITS
    }

    /// The value in a document: a number, or nothing where there is no number for it.
    pub open spec fn document(self) -> JsonView {
        if self.finite() {
            JsonView::Number(Number::Float(self.bits))
        } else {
            JsonView::Null
        }
    }

    /// Whether the value is greater than zero.
    pub fn is_positive(&self) -> (r: bool)
        ensures
            r == self.positive(),
    {
        0 < self.bits && self.bits <= INFINITY_BITS
    }

    /// The value in a document: a number, or nothing where there is no number for it.
    pub fn to_json(&self) -> (r: Json)
        ensures
            r@ == self.document(),
    {
        if self.bits % SIGN_BIT < INFINITY_BITS {
            Json::Number(Number::Float(self.bits))
        } else {
            Json::Null
        }
    }
}

/// A call of a service of Home Assistant.
#[derive(Debug, PartialEq, Eq)]
pub struct ServiceCall {
    pub url: String,
    pub payload: Json,
}

/// The service that brings a value to an entity of the given domain.
pub open spec fn service_of(domain: Seq<char>, value: SignalValue) -> Seq<char> {
    if domain == "climate"@ {
        "set_temperature"@
    } else if value.positive() {
        "turn_on"@
    } else {
        "turn_off"@
    }
}

/// The body of the call that brings a value to an entity.
pub open spec fn service_payload(entity_id: Seq<char>, value: SignalValue) -> JsonView {
    let plain = JsonView::object().with("entity_id"@, JsonView::Text(entity_id));
    if domain_of(entity_id) == "climate"@ {
        plain.with("temperature"@, value.document())
    } else {
        plain
    }
}

/// The address of the call that brings a value to an entity.
pub open spec fn service_url(
    base_url: Seq<char>,
    entity_id: Seq<char>,
    value: SignalValue,
) -> Seq<char> {
    let domain = domain_of(entity_id);
    trim_end_char(base_url, '/') + "/services/"@ + domain + "/"@ + service_of(domain, value)
}

/// The address of the state of an entity.
pub open spec fn state_url(base_url: Seq<char>, entity_id: Seq<char>) -> Seq<char> {
    trim_end_char(base_url, '/') + "/states/"@ + entity_id
}

/// The call that brings the value of a control signal to an entity.
pub fn control_signal_call(base_url: &str, entity_id: &str, value: SignalValue) -> (r: ServiceCall)
    ensures
        r.url@ == service_url(base_url@, entity_id@, value),
        r.payload@ == service_payload(entity_id@, value),
{
    let domain = cut_before(entity_id, '.');
    let climate: bool = same_text(domain, "climate");
    let service = if climate {
        "set_temperature"
    } else if value.is_positive() {
        "turn_on"
    } else {
        "turn_off"
    };
    let mut url = strip_end_char(base_url, '/').to_string();
    url.append("/services/");
    url.append(domain);
    url.append("/");
    url.append(service);
    let plain = Json::object().with("entity_id", Json::text(entity_id));
    let payload = if climate {
        plain.with("temperature", value.to_json())
    } else {
        plain
    };
    ServiceCall { url, payload }
}

/// The address of the state of an entity.
pub fn entity_state_url(base_url: &str, entity_id: &str) -> (r: String)
    ensures
        r@ == state_url(base_url@, entity_id@),
{
    let mut url = strip_end_char(base_url, '/').to_string();
    url.append("/states/");
    url.append(entity_id);
    url
}

/// An entity and the first value of a signal for it.
#[derive(Debug, PartialEq, Eq)]
pub struct FirstValue {
    pub entity_id: String,
    pub value: Number,
}

/// What a `FirstValue` says.
#[verifier::ext_equal]
pub struct FirstValueView {
    pub entity_id: Seq<char>,
    pub value: Number,
}

impl View for FirstValue {
    type V = FirstValueView;

    open spec fn view(&self) -> FirstValueView {
        FirstValueView { entity_id: self.entity_id@, value: self.value }
    }
}

/// The entity that a signal names, and the first value of the signal, where it has both.
pub open spec fn first_value(signal: JsonView) -> Option<FirstValueView> {
    match (signal.get("name"@), signal.get("signal"@)) {
        (Some(JsonView::Text(name)), Some(JsonView::List(values))) => if entity_id_of(name).len()
            > 0 && values.len() > 0 && values[0] is Number {
            Some(
                FirstValueView {
                    entity_id: entity_id_of(name),
                    value: values[0]->Number_0,
                },
            )
        } else {
            None
        },
        _ => None,
    }
}

/// The first values of the signals that have one, in their order.
pub open spec fn first_values(signals: Seq<JsonView>) -> Seq<FirstValueView>
    decreases signals.len(),
{
    if signals.len() == 0 {
        seq![]
    } else {
        match first_value(signals.last()) {
            Some(value) => first_values(signals.drop_last()).push(value),
            None => first_values(signals.drop_last()),
        }
    }
}

/// The first values of a document of signals; none where it is no list.
pub open spec fn document_values(document: JsonView) -> Seq<FirstValueView> {
    match document.elements() {
        Some(signals) => first_values(signals),
        None => seq![],
    }
}

/// Reads the first value of one signal.
fn read_first_value(signal: &Json) -> (r: Option<FirstValue>)
    ensures
        match r {
            Some(value) => first_value(signal@) == Some(value@),
            None => first_value(signal@) is None,
        },
{
    let name = match signal.get("name") {
        Some(Json::Text(name)) => name.as_str(),
        _ => {
            return None;
        },
    };
    let values = match signal.get("signal") {
        Some(Json::List(values)) => values,
        _ => {
            return None;
        },
    };
    proof {
        lemma_list_view(values@);
    }
    let entity_id = extract_entity_id(name);
    if entity_id.as_str().is_empty() || values.len() == 0 {
        return None;
    }
    assert(list_view(values@)[0] == values@[0]@);
    match values[0].as_number() {
        Some(value) => Some(FirstValue { entity_id, value }),
        None => None,
    }
}

/// The first values of the signals, as they are sent one by one; none where the document is no
/// list of signals.
pub fn first_control_values(control_signals: &Json) -> (r: Vec<FirstValue>)
    ensures
        r@.map_values(|value: FirstValue| value@) == (match control_signals@.elements() {
            Some(signals) => first_values(signals),
            None => seq![],
        }),
        r@.map_values(|value: FirstValue| value@) == document_values(control_signals@),
{
    let mut r: Vec<FirstValue> = Vec::new();
    let ghost shown = |value: FirstValue| value@;
    assert(r@.map_values(shown) =~= seq![]);
    match control_signals.as_array() {
        None => r,
        Some(signals) => {
            let ghost all = list_view(signals@);
            proof {
                lemma_list_view(signals@);
                assert(all.take(0) =~= seq![]);
            }
            let mut i: usize = 0;
            while i < signals.len()
                invariant
                    i <= signals@.len(),
                    all == list_view(signals@),
                    all.len() == signals@.len(),
                    forall|j: int| 0 <= j < signals@.len() ==> #[trigger] all[j] == signals@[j]@,
                    shown == (|value: FirstValue| value@),
                    r@.map_values(shown) == first_values(all.take(i as int)),
                decreases signals@.len() - i,
            {
                let ghost before = r@;
                assert(all.take(i + 1).drop_last() =~= all.take(i as int));
                assert(all[i as int] == signals@[i as int]@);
                if let Some(value) = read_first_value(&signals[i]) {
                    r.push(value);
                    assert(r@.map_values(shown) =~= before.map_values(shown).push(value@));
                }
                i = i + 1;
            }
            assert(all.take(i as int) =~= all);
            r
        },
    }
}

/// Every call names its entity, and only a climate is given a temperature.
pub proof fn law_only_a_climate_has_a_temperature(entity_id: Seq<char>, value: SignalValue)
    ensures
        service_payload(entity_id, value).get("entity_id"@) == Some(JsonView::Text(entity_id)),
        service_payload(entity_id, value).get("temperature"@) == (if domain_of(entity_id)
            == "climate"@ {
            Some(value.document())
        } else {
            None
        }),
{
    reveal_strlit("entity_id");
    reveal_strlit("temperature");
    assert("entity_id"@.len() != "temperature"@.len());
}

/// The names of the controlled domains hold neither a dot nor an underscore.
pub proof fn lemma_domain_is_a_word(domain: Seq<char>)
    requires
        valid_domain(domain),
    ensures
        !domain.contains('.'),
        !domain.contains('_'),
{
    reveal_strlit("switch");
    reveal_strlit("light");
    reveal_strlit("climate");
    reveal_strlit("number");
    reveal_strlit("fan");
    reveal_strlit("cover");
}

/// A text that is nowhere made of the marker and what stands around it does not hold the marker.
proof fn lemma_without(s: Seq<char>, pattern: Seq<char>)
    requires
        forall|a: Seq<char>, b: Seq<char>| s != #[trigger] (a + pattern + b),
    ensures
        !contains_text(s, pattern),
{
    if contains_text(s, pattern) {
        law_contained_text_can_be_cut_out(s, pattern);
    }
}

/// The domain of an id with a dot is what stands in front of it.
proof fn lemma_domain_in_front(domain: Seq<char>, object: Seq<char>)
    requires
        !domain.contains('.'),
    ensures
        domain_of(domain + "."@ + object) == domain,
        domain_of(domain) == domain,
        (domain + "."@ + object).contains('.'),
{
    reveal_strlit(".");
    assert("."@ =~= seq!['.']);
    law_text_before_a_separator(domain, object, '.');
    assert((domain + "."@ + object)[domain.len() as int] == '.');
}

/// In the name of a signal that feeds on the electricity grid, the entity id is all that stands in
/// front of the first `_electricitygrid`, whatever stands behind it; the backend controls it where
/// its domain is one of six.
pub proof fn law_entity_stands_in_front_of_the_grid(
    domain: Seq<char>,
    object: Seq<char>,
    rest: Seq<char>,
)
    requires
        !domain.contains('.'),
        forall|a: Seq<char>, b: Seq<char>|
            domain + "."@ + object != #[trigger] (a + "_electricitygrid"@ + b),
    ensures
        entity_id_of(domain + "."@ + object + "_electricitygrid"@ + rest) == (if domain == "switch"@
            || domain == "light"@ || domain == "climate"@ || domain == "number"@ || domain == "fan"@
            || domain == "cover"@ {
            domain + "."@ + object
        } else {
            seq![]
        }),
{
    let id = domain + "."@ + object;
    let name = id + "_electricitygrid"@ + rest;
    lemma_without(id, "_electricitygrid"@);
    lemma_domain_in_front(domain, object);
    let k = choose|k: int| 0 <= k < id.len() && id[k] == '.';
    assert(name[k] == '.');
    lemma_grid_position(id, rest);
}

/// Where a dot stands only behind the marker, what stands in front of the marker is the name of a
/// domain or nothing.
pub proof fn law_domain_alone_in_front_of_the_grid(domain: Seq<char>, rest: Seq<char>)
    requires
        !domain.contains('.'),
        rest.contains('.'),
        forall|a: Seq<char>, b: Seq<char>| domain != #[trigger] (a + "_electricitygrid"@ + b),
    ensures
        entity_id_of(domain + "_electricitygrid"@ + rest) == (if domain == "switch"@
            || domain == "light"@ || domain == "climate"@ || domain == "number"@ || domain == "fan"@
            || domain == "cover"@ {
            domain
        } else {
            seq![]
        }),
{
    let name = domain + "_electricitygrid"@ + rest;
    lemma_without(domain, "_electricitygrid"@);
    law_text_before_a_separator(domain, rest, '.');
    let k = choose|k: int| 0 <= k < rest.len() && rest[k] == '.';
    assert(name[domain.len() + "_electricitygrid"@.len() + k] == '.');
    lemma_grid_position(domain, rest);
}

/// The first marker stands right behind an id that does not hold it.
proof fn lemma_grid_position(id: Seq<char>, rest: Seq<char>)
    requires
        !contains_text(id, "_electricitygrid"@),
    ensures
        contains_text(id + "_electricitygrid"@ + rest, "_electricitygrid"@),
        candidate_id(id + "_electricitygrid"@ + rest) == id,
{
    let marker = "_electricitygrid"@;
    let name = id + marker + rest;
    let n = id.len() as int;
    reveal_strlit("_electricitygrid");
    assert(name.subrange(n, n + marker.len()) =~= marker);
    assert forall|j: int| 0 <= j < n implies !occurs_at(name, marker, j) by {
        if occurs_at(name, marker, j) {
            let found = name.subrange(j, j + marker.len());
            if j + marker.len() <= n {
                assert(id.subrange(j, j + marker.len()) =~= found);
                assert(occurs_at(id, marker, j));
            } else {
                assert(found[n - j] == name[n]);
                assert(name[n] == marker[0]);
                assert(marker[n - j] == '_');
            }
        }
    }
    lemma_first_position(name, marker, n);
    assert(name.take(n) =~= id);
}

/// A name without a dot names no entity.
pub proof fn law_no_entity_without_a_dot(name: Seq<char>)
    requires
        forall|i: int| 0 <= i < name.len() ==> name[i] != '.',
    ensures
        entity_id_of(name) == Seq::<char>::empty(),
{
}

/// Whether the domain is named once more in what follows it, as a whole word between underscores or
/// in front of a dot.
pub open spec fn named_again(object: Seq<char>, domain: Seq<char>) -> bool {
    exists|a: Seq<char>, b: Seq<char>|
        object == #[trigger] (a + "_"@ + domain + b) && (b.len() == 0 || b[0] == '_' || b[0] == '.')
}

/// Whether a piece that names the domain begins at a position.
spec fn piece_at(s: Seq<char>, domain: Seq<char>, p: int) -> bool {
    &&& 0 <= p <= s.len() - domain.len()
    &&& p > 0 ==> s[p - 1] == '_'
    &&& s.subrange(p, p + domain.len()) == domain
    &&& p + domain.len() < s.len() ==> s[p + domain.len()] == '_' || s[p + domain.len()] == '.'
}

/// A piece in front of others adds its own mention.
proof fn lemma_mentions_front(part: Seq<char>, rest: Seq<Seq<char>>, domain: Seq<char>)
    ensures
        mentions(seq![part] + rest, domain) == mentions(rest, domain) + (if names_domain(
            part,
            domain,
        ) {
            1nat
        } else {
            0nat
        }),
    decreases rest.len(),
{
    let all = seq![part] + rest;
    if rest.len() == 0 {
        assert(all.drop_last() =~= seq![]);
        assert(mentions(all.drop_last(), domain) == 0);
    } else {
        assert(all.drop_last() =~= seq![part] + rest.drop_last());
        assert(all.last() == rest.last());
        lemma_mentions_front(part, rest.drop_last(), domain);
    }
}

/// A leading piece that names the domain stands at the beginning.
proof fn lemma_leading_piece(s: Seq<char>, i: int, domain: Seq<char>)
    requires
        0 <= i <= s.len(),
        i < s.len() ==> s[i] == '_',
        names_domain(s.take(i), domain),
    ensures
        piece_at(s, domain, 0),
{
    let part = s.take(i);
    let d = domain.len() as int;
    reveal_strlit(".");
    if part == domain {
        assert(s.subrange(0, d) =~= domain);
    } else {
        let lead = part.subrange(0, d + 1);
        assert(lead == domain + "."@);
        assert(lead[d] == '.');
        assert(s[d] == lead[d]);
        assert(s.subrange(0, d) =~= domain) by {
            assert forall|k: int| 0 <= k < d implies s.subrange(0, d)[k] == domain[k] by {
                assert(lead[k] == domain[k]);
            }
        }
    }
}

/// A domain that is mentioned among the pieces stands where one of them begins.
proof fn lemma_mention_has_a_position(s: Seq<char>, domain: Seq<char>)
    requires
        mentions(split(s, '_'), domain) > 0,
    ensures
        exists|p: int| piece_at(s, domain, p),
    decreases s.len(),
{
    lemma_find_char(s, '_', 0);
    let i = find_char(s, '_', 0);
    if i < s.len() {
        let rest = s.skip(i + 1);
        lemma_mentions_front(s.take(i), split(rest, '_'), domain);
        if names_domain(s.take(i), domain) {
            lemma_leading_piece(s, i, domain);
        } else {
            lemma_mention_has_a_position(rest, domain);
            let p = choose|p: int| piece_at(rest, domain, p);
            lemma_piece_in_rest(s, domain, i, p);
        }
    } else {
        assert(s.take(i) =~= s);
        assert(split(s, '_') =~= seq![s] + Seq::<Seq<char>>::empty());
        lemma_mentions_front(s, Seq::empty(), domain);
        lemma_leading_piece(s, i, domain);
    }
}

/// A piece behind the first dot that names the domain names it again.
proof fn lemma_piece_names_again(domain: Seq<char>, object: Seq<char>, q: int)
    requires
        domain.len() + 1 < q,
        piece_at(domain + "."@ + object, domain, q),
    ensures
        named_again(object, domain),
{
    let id = domain + "."@ + object;
    let d = domain.len() as int;
    reveal_strlit(".");
    reveal_strlit("_");
    let a = id.subrange(d + 1, q - 1);
    let b = id.skip(q + d);
    assert(object =~= id.skip(d + 1));
    assert(id.skip(d + 1) =~= a + "_"@ + id.subrange(q, q + d) + b);
    assert(object == a + "_"@ + domain + b);
}

/// The first piece of an id reaches beyond its dot and names the domain.
proof fn lemma_first_piece(domain: Seq<char>, object: Seq<char>)
    requires
        !domain.contains('_'),
    ensures
        domain.len() < find_char(domain + "."@ + object, '_', 0) <= (domain + "."@ + object).len(),
        names_domain(
            (domain + "."@ + object).take(find_char(domain + "."@ + object, '_', 0)),
            domain,
        ),
{
    let id = domain + "."@ + object;
    let d = domain.len() as int;
    reveal_strlit(".");
    lemma_find_char(id, '_', 0);
    let i = find_char(id, '_', 0);
    if i <= d {
        assert(id[i] == '_');
        if i < d {
            assert(domain[i] == '_');
        } else {
            assert(id[d] == "."@[0]);
        }
        assert(false);
    }
    assert(id.take(i).subrange(0, 0int + (domain + "."@).len()) =~= domain + "."@);
}

/// A piece in a rest is a piece in the whole, behind the separator in front of that rest.
proof fn lemma_piece_in_rest(s: Seq<char>, domain: Seq<char>, i: int, p: int)
    requires
        0 <= i < s.len(),
        s[i] == '_',
        piece_at(s.skip(i + 1), domain, p),
    ensures
        piece_at(s, domain, p + i + 1),
{
    let rest = s.skip(i + 1);
    let q = p + i + 1;
    assert(s.subrange(q, q + domain.len()) =~= rest.subrange(p, p + domain.len()));
    if p > 0 {
        assert(rest[p - 1] == s[q - 1]);
    }
    if p + domain.len() < rest.len() {
        assert(rest[p + domain.len()] == s[q + domain.len()]);
    }
}

/// An id whose domain is not named again mentions it once.
proof fn lemma_mentioned_once(domain: Seq<char>, object: Seq<char>)
    requires
        !domain.contains('_'),
        !named_again(object, domain),
    ensures
        mentions(split(domain + "."@ + object, '_'), domain) == 1,
{
    let id = domain + "."@ + object;
    let i = find_char(id, '_', 0);
    lemma_find_char(id, '_', 0);
    lemma_first_piece(domain, object);
    if i < id.len() {
        let rest = id.skip(i + 1);
        lemma_mentions_front(id.take(i), split(rest, '_'), domain);
        if mentions(split(rest, '_'), domain) > 0 {
            lemma_mention_has_a_position(rest, domain);
            let p = choose|p: int| piece_at(rest, domain, p);
            lemma_piece_in_rest(id, domain, i, p);
            lemma_piece_names_again(domain, object, p + i + 1);
        }
    } else {
        assert(id.take(i) =~= id);
        assert(split(id, '_') =~= seq![id] + Seq::<Seq<char>>::empty());
        lemma_mentions_front(id, Seq::empty(), domain);
    }
}

/// A name without `_electricitygrid` whose domain is not named again is itself the entity id, where
/// its domain is one of six.
pub proof fn law_plain_name_is_the_entity(domain: Seq<char>, object: Seq<char>)
    requires
        !domain.contains('.'),
        forall|a: Seq<char>, b: Seq<char>|
            domain + "."@ + object != #[trigger] (a + "_electricitygrid"@ + b),
        !named_again(object, domain),
        domain == "switch"@ || domain == "light"@ || domain == "climate"@ || domain
            == "number"@ || domain == "fan"@ || domain == "cover"@,
    ensures
        entity_id_of(domain + "."@ + object) == domain + "."@ + object,
{
    let id = domain + "."@ + object;
    lemma_without(id, "_electricitygrid"@);
    lemma_domain_in_front(domain, object);
    lemma_domain_is_a_word(domain);
    lemma_mentioned_once(domain, object);
    law_join_undoes_split(id, '_');
}

/// In a name without `_electricitygrid`, the entity id ends where its domain is named for the second
/// time, be it as a whole word or in front of a dot.
pub proof fn law_second_domain_ends_the_entity(
    domain: Seq<char>,
    object: Seq<char>,
    rest: Seq<char>,
)
    requires
        forall|a: Seq<char>, b: Seq<char>|
            domain + "."@ + object + "_"@ + domain + rest != #[trigger] (a + "_electricitygrid"@
                + b),
        !named_again(object, domain),
        rest.len() == 0 || rest[0] == '_' || rest[0] == '.',
        domain == "switch"@ || domain == "light"@ || domain == "climate"@ || domain
            == "number"@ || domain == "fan"@ || domain == "cover"@,
    ensures
        entity_id_of(domain + "."@ + object + "_"@ + domain + rest) == domain + "."@ + object,
{
    let id = domain + "."@ + object;
    let behind = domain + rest;
    let d = domain.len() as int;
    reveal_strlit("_");
    reveal_strlit(".");
    assert("_"@ =~= seq!['_']);
    lemma_domain_is_a_word(domain);
    lemma_domain_in_front(domain, object);
    lemma_mentioned_once(domain, object);
    assert(id + "_"@ + domain + rest =~= id + seq!['_'] + behind);
    lemma_without(id + seq!['_'] + behind, "_electricitygrid"@);
    let first = before(behind, '_');
    if rest.len() == 0 {
        assert(behind =~= domain);
        law_text_before_a_separator(domain, rest, '_');
    } else if rest[0] == '_' {
        assert(behind =~= domain + seq!['_'] + rest.skip(1));
        law_text_before_a_separator(domain, rest.skip(1), '_');
    } else {
        lemma_find_char(behind, '_', 0);
        let i = find_char(behind, '_', 0);
        if i <= d {
            if i < d {
                assert(domain[i] == '_');
            }
            assert(false);
        }
        assert(first.subrange(0, 0int + (domain + "."@).len()) =~= domain + "."@);
    }
    law_repeated_domain_ends_the_entity(id, behind);
}

/// A name whose domain is none of the six names no entity.
pub proof fn law_other_domains_are_left_alone(domain: Seq<char>, object: Seq<char>)
    requires
        !domain.contains('.'),
        forall|a: Seq<char>, b: Seq<char>|
            domain + "."@ + object != #[trigger] (a + "_electricitygrid"@ + b),
        !(domain == "switch"@ || domain == "light"@ || domain == "climate"@ || domain
            == "number"@ || domain == "fan"@ || domain == "cover"@),
    ensures
        entity_id_of(domain + "."@ + object) == Seq::<char>::empty(),
{
    let name = domain + "."@ + object;
    lemma_without(name, "_electricitygrid"@);
    lemma_domain_in_front(domain, object);
    let id = entity_id_of(name);
    if id.len() > 0 {
        law_entity_id_begins_the_name(name);
        lemma_before_of_prefix(id, name, '.');
    }
}

/// The sign of a binary64 bit pattern: one for a negative value.
pub open spec fn sign_of(bits: u64) -> u64 {
    bits / 0x8000_0000_0000_0000
}

/// The exponent of a binary64 bit pattern; the largest is that of the infinities and of what is no
/// number.
pub open spec fn exponent_of(bits: u64) -> u64 {
    (bits / 0x0010_0000_0000_0000) % 0x800
}

/// The fraction of a binary64 bit pattern.
pub open spec fn fraction_of(bits: u64) -> u64 {
    bits % 0x0010_0000_0000_0000
}

/// Whether the value of a binary64 bit pattern is greater than zero: it is not negative, not zero
/// and a number.
pub open spec fn above_zero(bits: u64) -> bool {
    &&& sign_of(bits) == 0
    &&& !(exponent_of(bits) == 0 && fraction_of(bits) == 0)
    &&& !(exponent_of(bits) == 0x7ff && fraction_of(bits) != 0)
}

/// A value is positive where it is neither negative nor zero nor undefined, and finite where its
/// exponent is not the largest.
pub proof fn law_positive_and_finite_values(bits: u64)
    ensures
        (SignalValue { bits }).positive() == above_zero(bits),
        (SignalValue { bits }).finite() == (exponent_of(bits) != 0x7ff),
        (SignalValue { bits }).document() == (if exponent_of(bits) != 0x7ff {
            JsonView::Number(Number::Float(bits))
        } else {
            JsonView::Null
        }),
{
    assert((0u64 < bits && bits <= 0x7ff0_0000_0000_0000u64) <==> (bits / 0x8000_0000_0000_0000u64
        == 0u64 && !((bits / 0x0010_0000_0000_0000u64) % 0x800u64 == 0u64 && bits
        % 0x0010_0000_0000_0000u64 == 0u64) && !((bits / 0x0010_0000_0000_0000u64) % 0x800u64
        == 0x7ffu64 && bits % 0x0010_0000_0000_0000u64 != 0u64))) by (bit_vector);
    assert((bits % 0x8000_0000_0000_0000u64 < 0x7ff0_0000_0000_0000u64) <==> ((bits
        / 0x0010_0000_0000_0000u64) % 0x800u64 != 0x7ffu64)) by (bit_vector);
}

/// Slashes, as many as there are.
pub open spec fn slashes(n: nat) -> Seq<char> {
    Seq::new(n, |i: int| '/')
}

/// A climate is given its temperature; every other entity is turned on by a value greater than zero
/// and turned off by any other. The service is that of the entity's own domain, and slashes at the
/// end of the base address do not count.
pub proof fn law_value_greater_than_zero_turns_on(
    base_url: Seq<char>,
    n: nat,
    domain: Seq<char>,
    object: Seq<char>,
    bits: u64,
)
    requires
        base_url.len() > 0 ==> base_url.last() != '/',
        !domain.contains('.'),
    ensures
        domain != "climate"@ && above_zero(bits) ==> service_url(
            base_url + slashes(n),
            domain + "."@ + object,
            SignalValue { bits },
        ) == base_url + "/services/"@ + domain + "/"@ + "turn_on"@,
        domain != "climate"@ && !above_zero(bits) ==> service_url(
            base_url + slashes(n),
            domain + "."@ + object,
            SignalValue { bits },
        ) == base_url + "/services/"@ + domain + "/"@ + "turn_off"@,
        domain == "climate"@ ==> service_url(
            base_url + slashes(n),
            domain + "."@ + object,
            SignalValue { bits },
        ) == base_url + "/services/"@ + domain + "/"@ + "set_temperature"@,
        service_url(base_url + slashes(n), domain, SignalValue { bits }) == service_url(
            base_url,
            domain + "."@ + object,
            SignalValue { bits },
        ),
{
    law_run_at_the_end_is_cut_off(base_url, '/', n);
    law_run_at_the_end_is_cut_off(base_url, '/', 0);
    assert(base_url + Seq::new(0, |i: int| '/') =~= base_url);
    assert(slashes(n) =~= Seq::new(n, |i: int| '/'));
    lemma_domain_in_front(domain, object);
    law_positive_and_finite_values(bits);
}

/// A call holds the id of its entity and, for a climate, the value as its temperature; it holds
/// nothing else.
pub proof fn law_call_holds_the_entity_and_its_temperature(
    domain: Seq<char>,
    object: Seq<char>,
    bits: u64,
)
    requires
        !domain.contains('.'),
    ensures
        domain != "climate"@ ==> service_payload(
            domain + "."@ + object,
            SignalValue { bits },
        ) == JsonView::Object(map!["entity_id"@ => JsonView::Text(domain + "."@ + object)]),
        domain == "climate"@ && exponent_of(bits) != 0x7ff ==> service_payload(
            domain + "."@ + object,
            SignalValue { bits },
        ) == JsonView::Object(
            map![
                "entity_id"@ => JsonView::Text(domain + "."@ + object),
                "temperature"@ => JsonView::Number(Number::Float(bits)),
            ],
        ),
        domain == "climate"@ && exponent_of(bits) == 0x7ff ==> service_payload(
            domain + "."@ + object,
            SignalValue { bits },
        ) == JsonView::Object(
            map![
                "entity_id"@ => JsonView::Text(domain + "."@ + object),
                "temperature"@ => JsonView::Null,
            ],
        ),
        domain != "climate"@ ==> service_payload(domain, SignalValue { bits }) == JsonView::Object(
            map!["entity_id"@ => JsonView::Text(domain)],
        ),
{
    lemma_domain_in_front(domain, object);
    law_positive_and_finite_values(bits);
}

/// The state of an entity is asked for under its whole id, and slashes at the end of the base address
/// do not count.
pub proof fn law_state_is_asked_for_by_id(base_url: Seq<char>, n: nat, entity_id: Seq<char>)
    requires
        base_url.len() > 0 ==> base_url.last() != '/',
    ensures
        state_url(base_url + slashes(n), entity_id) == base_url + "/states/"@ + entity_id,
{
    law_run_at_the_end_is_cut_off(base_url, '/', n);
    assert(slashes(n) =~= Seq::new(n, |i: int| '/'));
}

/// The first values of a list of signals are those of its two parts, in their order.
pub proof fn law_first_values_keep_their_order(first: Seq<JsonView>, others: Seq<JsonView>)
    ensures
        first_values(first + others) == first_values(first) + first_values(others),
    decreases others.len(),
{
    let all = first + others;
    if others.len() == 0 {
        assert(all =~= first);
        assert(first_values(first) + first_values(others) =~= first_values(first));
    } else {
        assert(all.drop_last() =~= first + others.drop_last());
        assert(all.last() == others.last());
        law_first_values_keep_their_order(first, others.drop_last());
        assert(first_values(all) =~= first_values(first) + first_values(others));
    }
}

/// A signal has a first value exactly where it names a controlled entity and its list begins with a
/// number, be it an integer or not; that number is the value, and the entity is the one it names.
pub proof fn law_first_number_is_the_first_value(
    signal: JsonView,
    name: Seq<char>,
    values: Seq<JsonView>,
    number: Number,
)
    ensures
        signal.get("name"@) == Some(JsonView::Text(name)) && signal.get("signal"@) == Some(
            JsonView::List(values),
        ) && entity_id_of(name) != Seq::<char>::empty() && values.len() > 0 && values[0]
            == JsonView::Number(number) ==> first_values(seq![signal]) == seq![
            FirstValueView { entity_id: entity_id_of(name), value: number },
        ],
        first_values(seq![signal]).len() > 0 ==> {
            &&& signal.get("name"@) is Some
            &&& signal.get("name"@)->0 is Text
            &&& entity_id_of(signal.get("name"@)->0->Text_0) != Seq::<char>::empty()
            &&& signal.get("signal"@) is Some
            &&& signal.get("signal"@)->0 is List
            &&& signal.get("signal"@)->0->List_0.len() > 0
            &&& signal.get("signal"@)->0->List_0[0] is Number
        },
{
    let one = seq![signal];
    assert(one.drop_last() =~= seq![]);
    assert(one.last() == signal);
    assert(first_values(one.drop_last()) =~= seq![]);
    if entity_id_of(name) != Seq::<char>::empty() {
        assert(entity_id_of(name).len() > 0) by {
            if entity_id_of(name).len() == 0 {
                assert(entity_id_of(name) =~= Seq::<char>::empty());
            }
        }
    }
}

/// A list of signals has the first values of its signals; no other document has any.
pub proof fn law_only_a_list_has_first_values(document: JsonView, signals: Seq<JsonView>)
    ensures
        document == JsonView::List(signals) ==> document_values(document) == first_values(signals),
        !(document is List) ==> document_values(document) == Seq::<FirstValueView>::empty(),
        first_values(Seq::empty()) == Seq::<FirstValueView>::empty(),
{
}

} // verus!
