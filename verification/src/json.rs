//! JSON values as plain data, with their mathematical view.
//!
//! Reading and writing JSON text is left to `serde_json`; what the rest of the
//! library does with a value, it does on [`Json`].

use crate::text;
use serde_json::Value;
use vstd::prelude::*;

verus! {

/// A JSON number. A number that is not an integer of 64 bits is kept as text.
pub enum JsonNumber {
    /// An integer that is zero or positive.
    Unsigned(u64),
    /// A negative integer.
    Signed(i64),
    /// Any other number, as it is written.
    Other(String),
}

/// A JSON value.
pub enum Json {
    Null,
    Bool(bool),
    Number(JsonNumber),
    Str(String),
    Array(Vec<Json>),
    /// Keys and values in order; of two entries with one key the later counts.
    Object(Vec<(String, Json)>),
}

/// The view of a [`JsonNumber`].
pub enum NumberView {
    Unsigned(u64),
    Signed(i64),
    Other(Seq<char>),
}

/// The view of a [`Json`].
pub enum JsonView {
    Null,
    Bool(bool),
    Number(NumberView),
    Str(Seq<char>),
    Array(Seq<JsonView>),
    Object(Seq<(Seq<char>, JsonView)>),
}

impl View for JsonNumber {
    type V = NumberView;

    open spec fn view(&self) -> NumberView {
        match self {
            JsonNumber::Unsigned(n) => NumberView::Unsigned(*n),
            JsonNumber::Signed(n) => NumberView::Signed(*n),
            JsonNumber::Other(t) => NumberView::Other(t@),
        }
    }
}

/// The view of a value, members and items included.
pub open spec fn json_view(v: Json) -> JsonView
    decreases v,
{
    match v {
        Json::Null => JsonView::Null,
        Json::Bool(b) => JsonView::Bool(b),
        Json::Number(n) => JsonView::Number(n@),
        Json::Str(s) => JsonView::Str(s@),
        Json::Array(v) => JsonView::Array(
            Seq::new(
                v@.len(),
                |i: int|
                    if 0 <= i < v@.len() {
                        json_view(v@[i])
                    } else {
                        JsonView::Null
                    },
            ),
        ),
        Json::Object(v) => JsonView::Object(
            Seq::new(
                v@.len(),
                |i: int|
                    if 0 <= i < v@.len() {
                        (v@[i].0@, json_view(v@[i].1))
                    } else {
                        (Seq::empty(), JsonView::Null)
                    },
            ),
        ),
    }
}

impl View for Json {
    type V = JsonView;

    open spec fn view(&self) -> JsonView {
        json_view(*self)
    }
}

/// The views of values.
pub open spec fn views_of(list: Seq<Json>) -> Seq<JsonView> {
    Seq::new(list.len(), |i: int| list[i]@)
}

/// The value of the last entry with key `key`.
pub open spec fn entry(entries: Seq<(Seq<char>, JsonView)>, key: Seq<char>) -> Option<JsonView>
    decreases entries.len(),
{
    if entries.len() == 0 {
        None
    } else if entries.last().0 == key {
        Some(entries.last().1)
    } else {
        entry(entries.drop_last(), key)
    }
}

impl JsonView {
    /// The member `key` of an object; no other value has members.
    pub open spec fn member(self, key: Seq<char>) -> Option<JsonView> {
        match self {
            JsonView::Object(entries) => entry(entries, key),
            _ => None,
        }
    }

    /// The number, where it is an integer that fits `u64`.
    pub open spec fn u64_value(self) -> Option<u64> {
        match self {
            JsonView::Number(NumberView::Unsigned(n)) => Some(n),
            _ => None,
        }
    }

    /// The number, where it is an integer that fits `i64`.
    pub open spec fn i64_value(self) -> Option<i64> {
        match self {
            JsonView::Number(NumberView::Unsigned(n)) => if n <= i64::MAX {
                Some(n as i64)
            } else {
                None
            },
            JsonView::Number(NumberView::Signed(n)) => Some(n),
            _ => None,
        }
    }

    /// The characters of a string value.
    pub open spec fn str_value(self) -> Option<Seq<char>> {
        match self {
            JsonView::Str(s) => Some(s),
            _ => None,
        }
    }
}

/// The view of an optional value.
pub open spec fn opt_json(v: Option<Json>) -> Option<JsonView> {
    match v {
        Some(j) => Some(j@),
        None => None,
    }
}

impl Json {
    /// A deep copy.
    pub fn copy(&self) -> (out: Json)
        ensures
            out@ == self@,
        decreases self,
    {
        match self {
            Json::Null => Json::Null,
            Json::Bool(b) => Json::Bool(*b),
            Json::Number(n) => Json::Number(n.copy()),
            Json::Str(s) => Json::Str(s.clone()),
            Json::Array(v) => {
                let mut items: Vec<Json> = Vec::new();
                for i in 0..v.len()
                    invariant
                        *self is Array,
                        self->Array_0 == *v,
                        items@.len() == i,
                        forall|j: int| 0 <= j < i ==> #[trigger] items@[j]@ == v@[j]@,
                {
                    assert(decreases_to!(*self => v@[i as int]));
                    items.push(v[i].copy());
                }
                let out = Json::Array(items);
                assert forall|j: int| 0 <= j < v@.len() implies json_view(items@[j]) == json_view(
                    v@[j],
                ) by {
                    assert(items@[j]@ == v@[j]@);
                }
                assert(out@->Array_0 =~= self@->Array_0);
                out
            },
            Json::Object(v) => {
                let mut items: Vec<(String, Json)> = Vec::new();
                for i in 0..v.len()
                    invariant
                        *self is Object,
                        self->Object_0 == *v,
                        items@.len() == i,
                        forall|j: int|
                            0 <= j < i ==> (#[trigger] items@[j]).0@ == v@[j].0@ && items@[j].1@
                                == v@[j].1@,
                {
                    assert(decreases_to!(*self => v@[i as int].1));
                    items.push((v[i].0.clone(), v[i].1.copy()));
                }
                let out = Json::Object(items);
                assert(out@->Object_0 =~= self@->Object_0);
                out
            },
        }
    }

    /// The member `key`, where the value is an object that has one.
    pub fn get(&self, key: &str) -> (r: Option<&Json>)
        ensures
            match r {
                Some(j) => self@.member(key@) == Some(j@),
                None => self@.member(key@) is None,
            },
    {
        match self {
            Json::Object(v) => {
                let ghost all = self@->Object_0;
                let mut i: usize = v.len();
                assert(all.take(i as int) =~= all);
                while i > 0
                    invariant
                        i <= v@.len(),
                        all.len() == v@.len(),
                        forall|j: int|
                            0 <= j < v@.len() ==> #[trigger] all[j] == (v@[j].0@, v@[j].1@),
                        entry(all, key@) == entry(all.take(i as int), key@),
                        self@.member(key@) == entry(all, key@),
                    decreases i,
                {
                    assert(all.take(i as int).drop_last() =~= all.take(i - 1));
                    assert(all.take(i as int).last() == all[i - 1]);
                    if text::same(v[i - 1].0.as_str(), key) {
                        return Some(&v[i - 1].1);
                    }
                    i -= 1;
                }
                None
            },
            _ => None,
        }
    }

    /// The number, where it is an integer that fits `u64`.
    pub fn as_u64(&self) -> (r: Option<u64>)
        ensures
            r == self@.u64_value(),
    {
        match self {
            Json::Number(JsonNumber::Unsigned(n)) => Some(*n),
            _ => None,
        }
    }

    /// The number, where it is an integer that fits `i64`.
    pub fn as_i64(&self) -> (r: Option<i64>)
        ensures
            r == self@.i64_value(),
    {
        match self {
            Json::Number(JsonNumber::Unsigned(n)) => if *n <= 0x7fff_ffff_ffff_ffff {
                Some(*n as i64)
            } else {
                None
            },
            Json::Number(JsonNumber::Signed(n)) => Some(*n),
            _ => None,
        }
    }

    /// The text of a string value.
    pub fn as_str(&self) -> (r: Option<&String>)
        ensures
            match r {
                Some(s) => self@.str_value() == Some(s@),
                None => self@.str_value() is None,
            },
    {
        match self {
            Json::Str(s) => Some(s),
            _ => None,
        }
    }

    /// A string value.
    pub fn text(s: &str) -> (out: Json)
        ensures
            out@ == JsonView::Str(s@),
    {
        Json::Str(s.to_string())
    }

    /// A number value.
    pub fn unsigned(n: u64) -> (out: Json)
        ensures
            out@ == JsonView::Number(NumberView::Unsigned(n)),
    {
        Json::Number(JsonNumber::Unsigned(n))
    }

    /// An array of values.
    pub fn array(items: Vec<Json>) -> (out: Json)
        ensures
            out@ == JsonView::Array(views_of(items@)),
    {
        let out = Json::Array(items);
        assert(out@->Array_0 =~= views_of(items@));
        out
    }

    /// An object without members.
    pub fn empty_object() -> (out: Json)
        ensures
            out@ == JsonView::Object(Seq::empty()),
    {
        let out = Json::Object(Vec::new());
        assert(out@->Object_0 =~= Seq::empty());
        out
    }

    /// Adds a member at the end of an object; another value is left as it is.
    pub fn with(self, key: &str, value: Json) -> (out: Json)
        ensures
            out@ == self@.with(key@, value@),
    {
        match self {
            Json::Object(v) => {
                let ghost before = v@;
                let mut v = v;
                v.push((key.to_string(), value));
                let out = Json::Object(v);
                assert(out@->Object_0 =~= Json::Object(v)@->Object_0);
                assert(v@ == before.push(v@.last()));
                assert forall|i: int| 0 <= i < before.len() implies out@->Object_0[i]
                    == self@->Object_0[i] by {
                    assert(v@[i] == before[i]);
                }
                assert(out@->Object_0 =~= self@->Object_0.push((key@, value@)));
                out
            },
            other => other,
        }
    }
}

impl JsonView {
    /// An object with one more member at its end.
    pub open spec fn with(self, key: Seq<char>, value: JsonView) -> JsonView {
        match self {
            JsonView::Object(entries) => JsonView::Object(entries.push((key, value))),
            _ => self,
        }
    }

    /// The object without members.
    pub open spec fn empty_object() -> JsonView {
        JsonView::Object(Seq::empty())
    }
}

/// The members of an object with one more: the new one, and those before.
pub proof fn lemma_with_member(v: JsonView, key: Seq<char>, value: JsonView)
    requires
        v is Object,
    ensures
        v.with(key, value) is Object,
        forall|q: Seq<char>| #[trigger]
            v.with(key, value).member(q) == (if q == key {
                Some(value)
            } else {
                v.member(q)
            }),
{
    let entries = v->Object_0;
    assert(entries.push((key, value)).drop_last() =~= entries);
}

impl JsonNumber {
    /// A copy of the number.
    pub fn copy(&self) -> (out: JsonNumber)
        ensures
            out@ == self@,
    {
        match self {
            JsonNumber::Unsigned(n) => JsonNumber::Unsigned(*n),
            JsonNumber::Signed(n) => JsonNumber::Signed(*n),
            JsonNumber::Other(t) => JsonNumber::Other(t.clone()),
        }
    }
}

// ── JSON text ───────────────────────────────────────────────────────────

/// The value that a JSON text denotes, as `serde_json` reads it; none where
/// it refuses the text.
pub uninterp spec fn json_value(text: Seq<char>) -> Option<JsonView>;

/// The compact JSON text of a value, as `serde_json` writes it.
pub uninterp spec fn json_text(v: JsonView) -> Seq<char>;

/// A value as `serde_json` holds it.
#[verifier::external_type_specification]
#[verifier::external_body]
pub struct ExValue(serde_json::Value);

/// Converts a value of `serde_json` into a [`Json`], variant by variant. Of a
/// number that is no 64-bit integer the text is kept.
#[verifier::external_body]
fn from_value(v: Value) -> Json {
    match v {
        Value::Null => Json::Null,
        Value::Bool(b) => Json::Bool(b),
        Value::Number(n) => Json::Number(match (n.as_u64(), n.as_i64()) {
            (Some(u), _) => JsonNumber::Unsigned(u),
            (None, Some(i)) => JsonNumber::Signed(i),
            (None, None) => JsonNumber::Other(n.to_string()),
        }),
        Value::String(s) => Json::Str(s),
        Value::Array(a) => Json::Array(a.into_iter().map(from_value).collect()),
        Value::Object(m) => Json::Object(m.into_iter().map(|(k, w)| (k, from_value(w))).collect()),
    }
}

/// Converts a [`Json`] into a value of `serde_json`, variant by variant. A
/// number text that is no number becomes null.
#[verifier::external_body]
fn to_value(v: &Json) -> Value {
    match v {
        Json::Null => Value::Null,
        Json::Bool(b) => Value::Bool(*b),
        Json::Number(JsonNumber::Unsigned(n)) => Value::from(*n),
        Json::Number(JsonNumber::Signed(n)) => Value::from(*n),
        Json::Number(JsonNumber::Other(t)) => t.parse().map_or(Value::Null, Value::Number),
        Json::Str(s) => Value::String(s.clone()),
        Json::Array(a) => Value::Array(a.iter().map(to_value).collect()),
        Json::Object(m) => Value::Object(m.iter().map(|(k, w)| (k.clone(), to_value(w))).collect()),
    }
}

/// `serde_json::from_str` to a `Value`: the value that the text
/// denotes, or none where the text is not JSON. Which texts those are is not
/// stated beyond the name [`json_value`].
#[verifier::external_body]
pub(crate) fn parse_json(text: &str) -> (r: Option<Json>)
    ensures
        opt_json(r) == json_value(text@),
{
    serde_json::from_str(text).ok().map(from_value)
}

/// `to_string` of a `Value`: the compact text of the value. The
/// writer escapes every control character, so the text has none; what it looks
/// like otherwise is not stated beyond the name [`json_text`].
#[verifier::external_body]
pub(crate) fn print_json(v: &Json) -> (out: String)
    ensures
        out@ == json_text(v@),
        forall|i: int| 0 <= i < out@.len() ==> #[trigger] out@[i] >= ' ',
{
    to_value(v).to_string()
}

// ── laws ────────────────────────────────────────────────────────────────

proof fn lemma_entry_at(entries: Seq<(Seq<char>, JsonView)>, key: Seq<char>, i: int)
    requires
        0 <= i < entries.len(),
        entries[i].0 == key,
        forall|j: int| i < j < entries.len() ==> (#[trigger] entries[j]).0 != key,
    ensures
        entry(entries, key) == Some(entries[i].1),
    decreases entries.len(),
{
    if i < entries.len() - 1 {
        assert(entries[entries.len() - 1].0 != key);
        lemma_entry_at(entries.drop_last(), key, i);
    }
}

proof fn lemma_no_entry(entries: Seq<(Seq<char>, JsonView)>, key: Seq<char>)
    requires
        forall|j: int| 0 <= j < entries.len() ==> (#[trigger] entries[j]).0 != key,
    ensures
        entry(entries, key) is None,
    decreases entries.len(),
{
    if entries.len() > 0 {
        assert(entries[entries.len() - 1].0 != key);
        lemma_no_entry(entries.drop_last(), key);
    }
}

/// Of the entries of an object with one key the last is its member; an object
/// without such an entry has no such member, and no other value has members.
pub proof fn law_last_entry_is_the_member(v: &Json, key: &str, r: Option<&Json>, i: int)
    requires
        call_ensures(Json::get, (v, key), r),
    ensures
        *v matches Json::Object(list) ==> {
            &&& 0 <= i < list@.len() && list@[i].0@ == key@ && (forall|j: int|
                i < j < list@.len() ==> (#[trigger] list@[j]).0@ != key@) ==> (r matches Some(m)
                && m@ == list@[i].1@)
            &&& (forall|j: int| 0 <= j < list@.len() ==> (#[trigger] list@[j]).0@ != key@)
                ==> r is None
        },
        !(*v is Object) ==> r is None,
{
    if let Json::Object(list) = v {
        let all = v@->Object_0;
        assert(all.len() == list@.len());
        assert(forall|j: int|
            0 <= j < list@.len() ==> #[trigger] all[j] == (list@[j].0@, list@[j].1@));
        if 0 <= i < list@.len() && list@[i].0@ == key@ && (forall|j: int|
            i < j < list@.len() ==> (#[trigger] list@[j]).0@ != key@) {
            assert forall|j: int| i < j < all.len() implies (#[trigger] all[j]).0 != key@ by {
                assert(list@[j].0@ != key@);
            }
            lemma_entry_at(all, key@, i);
        }
        if forall|j: int| 0 <= j < list@.len() ==> (#[trigger] list@[j]).0@ != key@ {
            assert forall|j: int| 0 <= j < all.len() implies (#[trigger] all[j]).0 != key@ by {
                assert(list@[j].0@ != key@);
            }
            lemma_no_entry(all, key@);
        }
    }
}

/// A member that was added is there, and those with other keys are what they were.
pub proof fn law_added_member_is_there(
    v: Json,
    key: &str,
    value: Json,
    out: Json,
    asked: &str,
    before: Option<&Json>,
    after: Option<&Json>,
)
    requires
        v is Object,
        call_ensures(Json::with, (v, key, value), out),
        call_ensures(Json::get, (&v, asked), before),
        call_ensures(Json::get, (&out, asked), after),
    ensures
        asked@ == key@ ==> (after matches Some(m) && m@ == value@),
        asked@ != key@ ==> (after is Some <==> before is Some),
        asked@ != key@ ==> (after matches Some(m) ==> m@ == before->0@),
{
    assert(v@ is Object);
    lemma_with_member(v@, key@, value@);
}

/// A value is read as what it is: a number that is not negative as it is in both
/// forms where it fits them, a negative one in the signed form alone, a text as its
/// characters, and nothing else as any of these.
pub proof fn law_value_is_read_as_what_it_is(
    v: &Json,
    unsigned: Option<u64>,
    signed: Option<i64>,
    chars: Option<&String>,
)
    requires
        call_ensures(Json::as_u64, (v,), unsigned),
        call_ensures(Json::as_i64, (v,), signed),
        call_ensures(Json::as_str, (v,), chars),
    ensures
        match *v {
            Json::Number(JsonNumber::Unsigned(n)) => unsigned == Some(n) && chars is None && (n
                <= i64::MAX ==> (signed matches Some(i) && i == n)) && (n > i64::MAX
                ==> signed is None),
            Json::Number(JsonNumber::Signed(n)) => unsigned is None && signed == Some(n)
                && chars is None,
            Json::Str(s) => unsigned is None && signed is None && (chars matches Some(c) && c@
                == s@),
            _ => unsigned is None && signed is None && chars is None,
        },
{
}

/// What is made of a text or a number is read as that text or number, and a list
/// has its items in order.
pub proof fn law_made_value_is_what_was_given(
    s: &str,
    n: u64,
    items: Vec<Json>,
    made: Json,
    counted: Json,
    listed: Json,
    none: Json,
    key: Seq<char>,
)
    requires
        call_ensures(Json::text, (s,), made),
        call_ensures(Json::unsigned, (n,), counted),
        call_ensures(Json::array, (items,), listed),
        call_ensures(Json::empty_object, (), none),
    ensures
        made@ == JsonView::Str(s@),
        counted@ == JsonView::Number(NumberView::Unsigned(n)),
        listed@ matches JsonView::Array(list) && list.len() == items@.len() && forall|i: int|
            0 <= i < list.len() ==> #[trigger] list[i] == items@[i]@,
        none@ is Object && none@.member(key) is None,
{
}

} // verus!
