//! JSON documents: the replies that the backend reads and the bodies that it sends.

use crate::text::same_text;
use vstd::prelude::*;

verus! {

/// A JSON number.
///
/// A number without a fraction that fits is an integer; every other number is held as the bit
/// pattern of its binary64 form.
#[derive(Debug, Clone, Copy, PartialEq, Eq, Structural)]
pub enum Number {
    PosInt(u64),
    NegInt(i64),
    Float(u64),
}

/// A JSON document.
///
/// The members of an object are listed in the order in which they were set: a later member
/// replaces an earlier one of the same name.
#[derive(Debug, PartialEq, Eq)]
pub enum Json {
    Null,
    Bool(bool),
    Number(Number),
    Text(String),
    List(Vec<Json>),
    Object(Vec<(String, Json)>),
}

/// What a JSON document says.
#[verifier::ext_equal]
pub enum JsonView {
    Null,
    Bool(bool),
    Number(Number),
    Text(Seq<char>),
    List(Seq<JsonView>),
    Object(Map<Seq<char>, JsonView>),
}

impl Number {
    /// The integer that the number is, where it is one in the range of `i64`.
    pub open spec fn integer(self) -> Option<i64> {
        match self {
            Number::PosInt(n) => if n <= i64::MAX {
                Some(n as i64)
            } else {
                None
            },
            Number::NegInt(n) => Some(n),
            Number::Float(_) => None,
        }
    }

    /// The number that stands for an integer.
    pub open spec fn of_integer(n: i64) -> Number {
        if n < 0 {
            Number::NegInt(n)
        } else {
            Number::PosInt(n as u64)
        }
    }

    /// The integer that the number is, where it is one in the range of `i64`.
    pub fn as_i64(&self) -> (r: Option<i64>)
        ensures
            r == self.integer(),
    {
        match *self {
            Number::PosInt(n) => if n <= 0x7fff_ffff_ffff_ffff {
                Some(n as i64)
            } else {
                None
            },
            Number::NegInt(n) => Some(n),
            Number::Float(_) => None,
        }
    }

    /// The number that stands for an integer.
    pub fn from_i64(n: i64) -> (r: Number)
        ensures
            r == Number::of_integer(n),
    {
        if n < 0 {
            Number::NegInt(n)
        } else {
            Number::PosInt(n as u64)
        }
    }
}

impl JsonView {
    /// An object without members.
    pub open spec fn object() -> JsonView {
        JsonView::Object(Map::empty())
    }

    /// An object with one member set.
    pub open spec fn with(self, key: Seq<char>, value: JsonView) -> JsonView {
        JsonView::Object(self->Object_0.insert(key, value))
    }

    /// The member of an object; nothing of any other document.
    pub open spec fn get(self, key: Seq<char>) -> Option<JsonView> {
        match self {
            JsonView::Object(members) => if members.contains_key(key) {
                Some(members[key])
            } else {
                None
            },
            _ => None,
        }
    }

    /// The text that the document is.
    pub open spec fn text(self) -> Option<Seq<char>> {
        match self {
            JsonView::Text(text) => Some(text),
            _ => None,
        }
    }

    /// The number that the document is.
    pub open spec fn number(self) -> Option<Number> {
        match self {
            JsonView::Number(number) => Some(number),
            _ => None,
        }
    }

    /// The integer that the document is.
    pub open spec fn integer(self) -> Option<i64> {
        match self {
            JsonView::Number(number) => number.integer(),
            _ => None,
        }
    }

    /// The elements of the list that the document is.
    pub open spec fn elements(self) -> Option<Seq<JsonView>> {
        match self {
            JsonView::List(elements) => Some(elements),
            _ => None,
        }
    }

    /// The member `inner` of the member `outer`.
    pub open spec fn get_in(self, outer: Seq<char>, inner: Seq<char>) -> Option<JsonView> {
        match self.get(outer) {
            Some(document) => document.get(inner),
            None => None,
        }
    }
}

/// What the members of an object say, taken in order.
pub open spec fn members_view(members: Seq<(String, Json)>) -> Map<Seq<char>, JsonView>
    decreases members,
{
    if members.len() == 0 {
        Map::empty()
    } else {
        members_view(members.drop_last()).insert(members.last().0@, members.last().1@)
    }
}

/// What the elements of a list say.
pub open spec fn list_view(list: Seq<Json>) -> Seq<JsonView>
    decreases list,
{
    if list.len() == 0 {
        Seq::empty()
    } else {
        list_view(list.drop_last()).push(list.last()@)
    }
}

impl Json {
    pub open spec fn view(self) -> JsonView
        decreases self,
    {
        match self {
            Json::Null => JsonView::Null,
            Json::Bool(b) => JsonView::Bool(b),
            Json::Number(n) => JsonView::Number(n),
            Json::Text(t) => JsonView::Text(t@),
            Json::List(list) => JsonView::List(list_view(list@)),
            Json::Object(members) => JsonView::Object(members_view(members@)),
        }
    }
}

/// The view of a list, element by element.
pub proof fn lemma_list_view(list: Seq<Json>)
    ensures
        list_view(list).len() == list.len(),
        forall|i: int| 0 <= i < list.len() ==> #[trigger] list_view(list)[i] == list[i]@,
    decreases list.len(),
{
    if list.len() > 0 {
        lemma_list_view(list.drop_last());
        assert forall|i: int| 0 <= i < list.len() implies #[trigger] list_view(list)[i]
            == list[i]@ by {
            if i < list.len() - 1 {
                assert(list_view(list.drop_last())[i] == list.drop_last()[i]@);
            }
        }
    }
}

impl Json {
    /// An object without members.
    pub fn object() -> (r: Json)
        ensures
            r@ == JsonView::object(),
    {
        Json::Object(Vec::new())
    }

    /// A document that is one text.
    pub fn text(text: &str) -> (r: Json)
        ensures
            r@ == JsonView::Text(text@),
    {
        Json::Text(text.to_string())
    }

    /// The object with one member set.
    pub fn with(self, key: &str, value: Json) -> (r: Json)
        requires
            self@ is Object,
        ensures
            r@ == self@.with(key@, value@),
    {
        match self {
            Json::Object(members) => {
                let ghost before = members@;
                let mut members = members;
                members.push((key.to_string(), value));
                assert(members@.drop_last() =~= before);
                Json::Object(members)
            },
            other => other,
        }
    }

    /// The member of an object; nothing of any other document.
    pub fn get(&self, key: &str) -> (r: Option<&Json>)
        ensures
            match r {
                Some(member) => self@.get(key@) == Some(member@),
                None => self@.get(key@) is None,
            },
    {
        match self {
            Json::Object(members) => {
                let mut n: usize = members.len();
                assert(members@.take(n as int) =~= members@);
                while n > 0
                    invariant
                        n <= members@.len(),
                        *self == Json::Object(*members),
                        members_view(members@).contains_key(key@) == members_view(
                            members@.take(n as int),
                        ).contains_key(key@),
                        members_view(members@.take(n as int)).contains_key(key@) ==> members_view(
                            members@,
                        )[key@] == members_view(members@.take(n as int))[key@],
                    decreases n,
                {
                    assert(members@.take(n as int).drop_last() =~= members@.take(n - 1));
                    let member = &members[n - 1];
                    if same_text(member.0.as_str(), key) {
                        return Some(&member.1);
                    }
                    n = n - 1;
                }
                None
            },
            _ => None,
        }
    }

    /// The text that the document is.
    pub fn as_str(&self) -> (r: Option<&str>)
        ensures
            match r {
                Some(text) => self@.text() == Some(text@),
                None => self@.text() is None,
            },
    {
        match self {
            Json::Text(text) => Some(text.as_str()),
            _ => None,
        }
    }

    /// The number that the document is.
    pub fn as_number(&self) -> (r: Option<Number>)
        ensures
            r == self@.number(),
    {
        match self {
            Json::Number(number) => Some(*number),
            _ => None,
        }
    }

    /// The integer that the document is, where it is one in the range of `i64`.
    pub fn as_i64(&self) -> (r: Option<i64>)
        ensures
            r == self@.integer(),
    {
        match self {
            Json::Number(number) => number.as_i64(),
            _ => None,
        }
    }

    /// The elements of the list that the document is.
    pub fn as_array(&self) -> (r: Option<&Vec<Json>>)
        ensures
            match r {
                Some(list) => self@.elements() == Some(list_view(list@)),
                None => self@.elements() is None,
            },
    {
        match self {
            Json::List(list) => Some(list),
            _ => None,
        }
    }

    /// The member `inner` of the member `outer`.
    pub fn get_in(&self, outer: &str, inner: &str) -> (r: Option<&Json>)
        ensures
            match r {
                Some(member) => self@.get_in(outer@, inner@) == Some(member@),
                None => self@.get_in(outer@, inner@) is None,
            },
    {
        match self.get(outer) {
            Some(document) => document.get(inner),
            None => None,
        }
    }

    /// A copy that says the same.
    pub fn copy(&self) -> (r: Json)
        ensures
            r@ == self@,
        decreases self,
    {
        match self {
            Json::Null => Json::Null,
            Json::Bool(b) => Json::Bool(*b),
            Json::Number(n) => Json::Number(*n),
            Json::Text(t) => Json::Text(t.clone()),
            Json::List(list) => {
                let mut out: Vec<Json> = Vec::new();
                let mut i: usize = 0;
                assert(list@.take(0) =~= seq![]);
                while i < list.len()
                    invariant
                        i <= list@.len(),
                        *self == Json::List(*list),
                        list_view(out@) == list_view(list@.take(i as int)),
                    decreases list@.len() - i,
                {
                    let ghost so_far = out@;
                    assert(decreases_to!(self => self->List_0@[i as int]));
                    out.push(list[i].copy());
                    assert(out@.drop_last() =~= so_far);
                    assert(list@.take(i + 1).drop_last() =~= list@.take(i as int));
                    i = i + 1;
                }
                assert(list@.take(i as int) =~= list@);
                Json::List(out)
            },
            Json::Object(members) => {
                let mut out: Vec<(String, Json)> = Vec::new();
                let mut i: usize = 0;
                assert(members@.take(0) =~= seq![]);
                while i < members.len()
                    invariant
                        i <= members@.len(),
                        *self == Json::Object(*members),
                        members_view(out@) == members_view(members@.take(i as int)),
                    decreases members@.len() - i,
                {
                    let ghost so_far = out@;
                    assert(decreases_to!(self => self->Object_0@[i as int]));
                    out.push((members[i].0.clone(), members[i].1.copy()));
                    assert(out@.drop_last() =~= so_far);
                    assert(members@.take(i + 1).drop_last() =~= members@.take(i as int));
                    i = i + 1;
                }
                assert(members@.take(i as int) =~= members@);
                Json::Object(out)
            },
        }
    }
}

/// A member that was set is the member that is got, and the others are what they were.
pub proof fn law_set_member_is_got(document: JsonView, key: Seq<char>, value: JsonView)
    requires
        document is Object,
    ensures
        document.with(key, value).get(key) == Some(value),
        forall|other: Seq<char>|
            other != key ==> #[trigger] document.with(key, value).get(other) == document.get(other),
{
}

/// An integer is read back from the number that stands for it.
pub proof fn law_integer_is_read_back(n: i64)
    ensures
        Number::of_integer(n).integer() == Some(n),
{
}

/// The member of an object is the one under its name, and nothing else has members.
pub proof fn law_members_are_found_by_name(document: JsonView, key: Seq<char>, value: JsonView)
    ensures
        document.get(key) == Some(value) <==> (document is Object
            && document->Object_0.contains_pair(key, value)),
        document.get(key) is None <==> !(document is Object
            && document->Object_0.dom().contains(key)),
        JsonView::object() == JsonView::Object(Map::empty()),
{
}

/// A member of a member is found by the two names.
pub proof fn law_inner_members_are_found_by_both_names(
    document: JsonView,
    outer: Seq<char>,
    inner: Seq<char>,
    value: JsonView,
)
    ensures
        document.get_in(outer, inner) == Some(value) <==> exists|between: JsonView|
            document.get(outer) == Some(between) && #[trigger] between.get(inner) == Some(value),
{
    if document.get_in(outer, inner) == Some(value) {
        assert(document.get(outer)->0.get(inner) == Some(value));
    }
}

/// Each document is of one sort, and what it is read as is all that it holds.
pub proof fn law_documents_are_read_as_what_they_are(
    document: JsonView,
    text: Seq<char>,
    number: Number,
    list: Seq<JsonView>,
    n: i64,
)
    ensures
        document.text() == Some(text) <==> document == JsonView::Text(text),
        document.number() == Some(number) <==> document == JsonView::Number(number),
        document.elements() == Some(list) <==> document == JsonView::List(list),
        document.integer() == Some(n) <==> (document == JsonView::Number(Number::NegInt(n)) || (n
            >= 0 && document == JsonView::Number(Number::PosInt(n as u64)))),
{
}

/// What is shown of a document is all that it holds.
pub proof fn law_view_shows_the_whole_document(document: Json)
    ensures
        match document {
            Json::Null => document@ == JsonView::Null,
            Json::Bool(b) => document@ == JsonView::Bool(b),
            Json::Number(n) => document@ == JsonView::Number(n),
            Json::Text(text) => document@ == JsonView::Text(text@),
            Json::List(list) => document@ is List && document@->List_0.len() == list@.len()
                && forall|i: int|
                0 <= i < list@.len() ==> #[trigger] document@->List_0[i] == list@[i]@,
            Json::Object(members) => document@ is Object,
        },
{
    if let Json::List(list) = document {
        lemma_list_view(list@);
    }
}

/// Of the members of one name the last one counts, and there are no others.
pub proof fn law_last_member_of_a_name_counts(members: Vec<(String, Json)>, n: int)
    requires
        0 <= n < members@.len(),
        forall|i: int| n < i < members@.len() ==> (#[trigger] members@[i]).0@ != members@[n].0@,
    ensures
        Json::Object(members)@.get(members@[n].0@) == Some(members@[n].1@),
        forall|key: Seq<char>|
            #![trigger Json::Object(members)@.get(key)]
            Json::Object(members)@.get(key) is Some ==> exists|i: int|
                0 <= i < members@.len() && (#[trigger] members@[i]).0@ == key,
{
    lemma_last_member(members@, n);
    assert forall|key: Seq<char>|
        #![trigger Json::Object(members)@.get(key)]
        Json::Object(members)@.get(key) is Some implies exists|i: int|
        0 <= i < members@.len() && (#[trigger] members@[i]).0@ == key by {
        lemma_member_has_a_name(members@, key);
    }
}

/// Of the members of one name the last one counts.
proof fn lemma_last_member(members: Seq<(String, Json)>, n: int)
    requires
        0 <= n < members.len(),
        forall|i: int| n < i < members.len() ==> (#[trigger] members[i]).0@ != members[n].0@,
    ensures
        members_view(members).contains_key(members[n].0@),
        members_view(members)[members[n].0@] == members[n].1@,
    decreases members.len(),
{
    if n < members.len() - 1 {
        let front = members.drop_last();
        assert(members[members.len() - 1].0@ != members[n].0@);
        assert forall|i: int| n < i < front.len() implies (#[trigger] front[i]).0@
            != front[n].0@ by {
            assert(members[i].0@ != members[n].0@);
        }
        lemma_last_member(front, n);
    }
}

/// A member is listed under its name.
proof fn lemma_member_has_a_name(members: Seq<(String, Json)>, key: Seq<char>)
    requires
        members_view(members).contains_key(key),
    ensures
        exists|i: int| 0 <= i < members.len() && (#[trigger] members[i]).0@ == key,
    decreases members.len(),
{
    if members.len() > 0 {
        if members.last().0@ == key {
            assert(members[members.len() - 1].0@ == key);
        } else {
            let front = members.drop_last();
            lemma_member_has_a_name(front, key);
            let i = choose|i: int| 0 <= i < front.len() && (#[trigger] front[i]).0@ == key;
            assert(members[i].0@ == key);
        }
    }
}

/// A number without a fraction is read as an integer where it is in the range of `i64`.
pub proof fn law_integers_are_read_as_such(n: u64, m: i64, bits: u64)
    ensures
        n <= 0x7fff_ffff_ffff_ffff ==> Number::PosInt(n).integer() is Some
            && Number::PosInt(n).integer()->0 as int == n,
        n > 0x7fff_ffff_ffff_ffff ==> Number::PosInt(n).integer() is None,
        Number::NegInt(m).integer() == Some(m),
        Number::Float(bits).integer() is None,
        m < 0 ==> Number::of_integer(m) == Number::NegInt(m),
        m >= 0 ==> Number::of_integer(m) is PosInt && Number::of_integer(m)->PosInt_0 as int == m,
{
}

} // verus!
