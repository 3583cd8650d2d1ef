//! JSON values as the rules of this library read and build them.
//!
//! A value keeps the entries of an object in order, so that a body built here reaches a provider in the order
//! it was written. What `serde_json` parses arrives in the order its own map walks, which is the order of the
//! keys.

use vstd::prelude::*;

use crate::number::MINUS_ZERO;
use crate::text::same;

verus! {

/// A JSON number as `serde_json` holds it: an integer that fits 64 bits, or the bits of a double.
#[derive(Clone, Copy, Debug, PartialEq, Eq, Structural)]
pub enum Number {
    PosInt(u64),
    NegInt(i64),
    Float(u64),
}

#[derive(Debug, PartialEq, Eq)]
pub enum Json {
    Null,
    Bool(bool),
    Number(Number),
    Text(String),
    Array(Vec<Json>),
    Object(Vec<(String, Json)>),
}

/// A JSON value as mathematics: texts are sequences of characters.
#[verifier::ext_equal]
pub enum JsonView {
    Null,
    Bool(bool),
    Number(Number),
    Text(Seq<char>),
    Array(Seq<JsonView>),
    Object(Seq<(Seq<char>, JsonView)>),
}

impl DeepView for Number {
    type V = Number;

    open spec fn deep_view(&self) -> Number {
        *self
    }
}

pub open spec fn json_view(json: Json) -> JsonView
    decreases json,
{
    match json {
        Json::Null => JsonView::Null,
        Json::Bool(b) => JsonView::Bool(b),
        Json::Number(n) => JsonView::Number(n),
        Json::Text(s) => JsonView::Text(s@),
        Json::Array(items) => JsonView::Array(
            Seq::new(
                items@.len(),
                |i: int|
                    if 0 <= i < items@.len() {
                        json_view(items@[i])
                    } else {
                        JsonView::Null
                    },
            ),
        ),
        Json::Object(entries) => JsonView::Object(
            Seq::new(
                entries@.len(),
                |i: int|
                    if 0 <= i < entries@.len() {
                        (entries@[i].0@, json_view(entries@[i].1))
                    } else {
                        (seq![], JsonView::Null)
                    },
            ),
        ),
    }
}

/// The entries of an object as mathematics.
pub open spec fn entry_views(entries: Seq<(String, Json)>) -> Seq<(Seq<char>, JsonView)> {
    entries.map_values(|entry: (String, Json)| (entry.0@, json_view(entry.1)))
}

impl DeepView for Json {
    type V = JsonView;

    open spec fn deep_view(&self) -> JsonView {
        json_view(*self)
    }
}

/// An array views as the sequence of the views of its items.
pub broadcast proof fn lemma_array_view(items: Vec<Json>)
    ensures
        #[trigger] json_view(Json::Array(items)) == JsonView::Array(items.deep_view()),
{
    let views = json_view(Json::Array(items))->Array_0;
    assert(views =~= items.deep_view());
}

/// An object views as the sequence of the views of its entries.
pub broadcast proof fn lemma_object_view(entries: Vec<(String, Json)>)
    ensures
        #[trigger] json_view(Json::Object(entries)) == JsonView::Object(entry_views(entries@)),
{
    let views = json_view(Json::Object(entries))->Object_0;
    assert(views =~= entry_views(entries@));
}

pub broadcast group group_json_views {
    lemma_array_view,
    lemma_object_view,
}

/// The value of the first entry under a key.
pub open spec fn lookup(entries: Seq<(Seq<char>, JsonView)>, key: Seq<char>) -> Option<JsonView>
    decreases entries.len(),
{
    if entries.len() == 0 {
        None
    } else if entries[0].0 == key {
        Some(entries[0].1)
    } else {
        lookup(entries.drop_first(), key)
    }
}

impl JsonView {
    /// What an object holds under a key; nothing for any other value.
    pub open spec fn get(self, key: Seq<char>) -> Option<JsonView> {
        match self {
            JsonView::Object(entries) => lookup(entries, key),
            _ => None,
        }
    }

    /// What an object holds under a key, and null where it holds nothing.
    pub open spec fn at(self, key: Seq<char>) -> JsonView {
        match self.get(key) {
            Some(value) => value,
            None => JsonView::Null,
        }
    }

    pub open spec fn as_str(self) -> Option<Seq<char>> {
        match self {
            JsonView::Text(text) => Some(text),
            _ => None,
        }
    }

    /// The text of a string, and no text at all for any other value.
    pub open spec fn text(self) -> Seq<char> {
        match self {
            JsonView::Text(text) => text,
            _ => seq![],
        }
    }
}

/// The compact text that `serde_json` writes for a value.
pub uninterp spec fn json_text(json: JsonView) -> Seq<char>;

/// The text that the standard library writes for a number read as a double.
pub uninterp spec fn double_text(number: Number) -> Seq<char>;

/// What `serde_json` reads from bytes: a value, or the text of its error.
pub uninterp spec fn json_parsed(bytes: Seq<u8>) -> Result<JsonView, Seq<char>>;

/// The dynamic value of `serde_json`, carried between its calls and never looked into.
#[verifier::external_type_specification]
#[verifier::external_body]
pub struct ExValue(serde_json::Value);

/// The value of `serde_json` that holds the same null, boolean, number, text, items or entries, built one for
/// one; a double travels as the eight bytes of its bits, which `buffa` decodes. Nothing is claimed of it.
#[verifier::external_body]
fn to_value(json: &Json) -> serde_json::Value {
    match json {
        Json::Null => serde_json::Value::Null,
        Json::Bool(b) => (*b).into(),
        Json::Number(Number::PosInt(n)) => (*n).into(),
        Json::Number(Number::NegInt(n)) => (*n).into(),
        Json::Number(Number::Float(bits)) => buffa::types::decode_double(
            &mut bits.to_le_bytes().as_slice(),
        ).unwrap_or_default().into(),
        Json::Text(text) => text.clone().into(),
        Json::Array(items) => items.iter().map(to_value).collect(),
        Json::Object(entries) => entries.iter().map(|(k, v)| (k.clone(), to_value(v))).collect(),
    }
}

/// The JSON value that holds what a value of `serde_json` holds, one for one, entries in the order its map
/// walks. Nothing is claimed of it.
#[verifier::external_body]
fn from_value(value: serde_json::Value) -> Json {
    match value {
        serde_json::Value::Null => Json::Null,
        serde_json::Value::Bool(b) => Json::Bool(b),
        serde_json::Value::Number(n) => Json::Number(
            n.as_u64().map(Number::PosInt).or(n.as_i64().map(Number::NegInt)).unwrap_or(
                Number::Float(n.as_f64().unwrap_or_default().to_bits()),
            ),
        ),
        serde_json::Value::String(text) => Json::Text(text),
        serde_json::Value::Array(items) => Json::Array(items.into_iter().map(from_value).collect()),
        serde_json::Value::Object(entries) => Json::Object(
            entries.into_iter().map(|(k, v)| (k, from_value(v))).collect(),
        ),
    }
}

/// `Value`'s `Display` of `serde_json`: the compact JSON text of the value, which depends on the value alone.
#[verifier::external_body]
pub(crate) fn compact_text(json: &Json) -> (text: String)
    ensures
        text@ == json_text(json.deep_view()),
{
    to_value(json).to_string()
}

/// `serde_json::from_slice` into a `Value`: the value the bytes hold, or the text of the error it reports.
#[verifier::external_body]
pub(crate) fn parse(bytes: &[u8]) -> (parsed: Result<Json, String>)
    ensures
        (match parsed {
            Ok(json) => json_parsed(bytes@) == Ok::<JsonView, Seq<char>>(json.deep_view()),
            Err(error) => json_parsed(bytes@) == Err::<JsonView, Seq<char>>(error@),
        }),
{
    serde_json::from_slice(bytes).map(from_value).map_err(|error| error.to_string())
}

/// `f64`'s `Display` of the standard library, on the number as `serde_json` reads it as a double, or as `buffa`
/// decodes the bits of one. The text depends on the number alone.
#[verifier::external_body]
pub(crate) fn show_double(number: Number) -> (text: String)
    ensures
        text@ == double_text(number),
{
    let read = match number {
        Number::PosInt(n) => serde_json::Number::from(n).as_f64(),
        Number::NegInt(n) => serde_json::Number::from(n).as_f64(),
        Number::Float(bits) => buffa::types::decode_double(&mut bits.to_le_bytes().as_slice()).ok(),
    };
    read.unwrap_or_default().to_string()
}

/// The position of the first entry under a key.
pub fn position(entries: &Vec<(String, Json)>, key: &str) -> (found: Option<usize>)
    ensures
        (match found {
            Some(i) => i < entries@.len() && lookup(entry_views(entries@), key@) == Some(
                entries@[i as int].1.deep_view(),
            ),
            None => lookup(entry_views(entries@), key@) is None,
        }),
{
    let ghost views = entry_views(entries@);
    let mut i: usize = 0;
    assert(views.skip(0) =~= views);
    while i < entries.len()
        invariant
            i <= entries@.len(),
            views == entry_views(entries@),
            lookup(views.skip(i as int), key@) == lookup(views, key@),
        decreases entries@.len() - i,
    {
        if same(entries[i].0.as_str(), key) {
            return Some(i);
        }
        assert(views.skip(i as int).drop_first() =~= views.skip(i as int + 1));
        i += 1;
    }
    None
}

impl Clone for Json {
    fn clone(&self) -> (copied: Json)
        ensures
            copied.deep_view() == self.deep_view(),
    {
        self.copy()
    }
}

impl Json {
    pub fn get(&self, key: &str) -> (found: Option<&Json>)
        ensures
            (match found {
                Some(value) => self.deep_view().get(key@) == Some(value.deep_view()),
                None => self.deep_view().get(key@) is None,
            }),
    {
        broadcast use group_json_views;

        match self {
            Json::Object(entries) => {
                match position(entries, key) {
                    Some(i) => Some(&entries[i].1),
                    None => None,
                }
            },
            _ => None,
        }
    }

    pub fn as_str(&self) -> (found: Option<&str>)
        ensures
            found.deep_view() == self.deep_view().as_str(),
    {
        match self {
            Json::Text(text) => Some(text.as_str()),
            _ => None,
        }
    }

    /// The text under a key, and no text at all where there is none.
    pub fn text_at(&self, key: &str) -> (text: String)
        ensures
            text@ == self.deep_view().at(key@).text(),
    {
        match self.get(key) {
            Some(Json::Text(text)) => text.clone(),
            _ => String::new(),
        }
    }

    pub fn copy(&self) -> (copied: Json)
        ensures
            copied.deep_view() == self.deep_view(),
        decreases self,
    {
        broadcast use group_json_views;

        match self {
            Json::Null => Json::Null,
            Json::Bool(b) => Json::Bool(*b),
            Json::Number(n) => Json::Number(*n),
            Json::Text(text) => Json::Text(text.clone()),
            Json::Array(items) => {
                let mut copies: Vec<Json> = Vec::new();
                for i in 0..items.len()
                    invariant
                        self == Json::Array(*items),
                        copies@.len() == i,
                        forall|k: int| 0 <= k < i ==> copies@[k].deep_view() == items@[k].deep_view(),
                {
                    proof {
                        assert(decreases_to!(self => self->Array_0));
                        assert(decreases_to!(self->Array_0 => items@));
                        assert(decreases_to!(items@ => items@[i as int]));
                    }
                    copies.push(items[i].copy());
                }
                assert(copies.deep_view() =~= items.deep_view());
                Json::Array(copies)
            },
            Json::Object(entries) => {
                let mut copies: Vec<(String, Json)> = Vec::new();
                for i in 0..entries.len()
                    invariant
                        self == Json::Object(*entries),
                        copies@.len() == i,
                        forall|k: int|
                            0 <= k < i ==> copies@[k].0@ == entries@[k].0@ && copies@[k].1.deep_view()
                                == entries@[k].1.deep_view(),
                {
                    proof {
                        assert(decreases_to!(self => self->Object_0));
                        assert(decreases_to!(self->Object_0 => entries@));
                        assert(decreases_to!(entries@ => entries@[i as int]));
                        assert(decreases_to!(entries@[i as int] => entries@[i as int].1));
                    }
                    copies.push((entries[i].0.clone(), entries[i].1.copy()));
                }
                assert(entry_views(copies@) =~= entry_views(entries@));
                Json::Object(copies)
            },
        }
    }
}

/// One entry, or none where there is nothing to say.
pub open spec fn entry_if(name: Seq<char>, value: Option<JsonView>) -> Seq<(Seq<char>, JsonView)> {
    match value {
        Some(value) => seq![(name, value)],
        None => seq![],
    }
}

pub fn put_if(entries: &mut Vec<(String, Json)>, name: &str, value: Option<Json>)
    ensures
        entry_views(final(entries)@) == entry_views(old(entries)@) + entry_if(
            name@,
            value.deep_view(),
        ),
{
    let ghost before = entry_views(entries@);
    let ghost added = entry_if(name@, value.deep_view());
    if let Some(value) = value {
        entries.push((name.to_owned(), value));
    }
    assert(entry_views(entries@) =~= before + added);
}

/// The integer a number holds, where 64 bits with a sign can hold it.
pub open spec fn integer_of(value: JsonView) -> Option<i64> {
    match value {
        JsonView::Number(Number::PosInt(n)) if n <= i64::MAX => Some(n as i64),
        JsonView::Number(Number::NegInt(n)) => Some(n),
        _ => None,
    }
}

impl Json {
    pub fn as_i64(&self) -> (integer: Option<i64>)
        ensures
            integer == integer_of(self.deep_view()),
    {
        match self {
            Json::Number(Number::PosInt(n)) if *n <= i64::MAX as u64 => Some(*n as i64),
            Json::Number(Number::NegInt(n)) => Some(*n),
            _ => None,
        }
    }

    /// The text under a key, where there is one.
    pub fn str_at(&self, key: &str) -> (found: Option<&str>)
        ensures
            found.deep_view() == self.deep_view().at(key@).as_str(),
    {
        match self.get(key) {
            Some(value) => value.as_str(),
            None => None,
        }
    }
}

/// Two numbers are equal. Both zeros among the doubles are.
pub open spec fn same_number(one: Number, other: Number) -> bool {
    one == other || (is_zero(one) && is_zero(other))
}

pub open spec fn is_zero(number: Number) -> bool {
    number == Number::Float(0) || number == Number::Float(MINUS_ZERO)
}

/// Two values are equal: entry by entry, in the order of the keys that both of them keep.
pub open spec fn same_value(one: JsonView, other: JsonView) -> bool
    decreases one,
{
    match (one, other) {
        (JsonView::Null, JsonView::Null) => true,
        (JsonView::Bool(a), JsonView::Bool(b)) => a == b,
        (JsonView::Number(a), JsonView::Number(b)) => same_number(a, b),
        (JsonView::Text(a), JsonView::Text(b)) => a == b,
        (JsonView::Array(a), JsonView::Array(b)) => a.len() == b.len() && forall|i: int|
            0 <= i < a.len() ==> same_value(#[trigger] a[i], b[i]),
        (JsonView::Object(a), JsonView::Object(b)) => a.len() == b.len() && forall|i: int|
            0 <= i < a.len() ==> (#[trigger] a[i]).0 == b[i].0 && same_value(a[i].1, b[i].1),
        _ => false,
    }
}

/// Every value equals itself.
pub proof fn law_a_value_is_the_same_as_itself(value: JsonView)
    ensures
        same_value(value, value),
    decreases value,
{
    match value {
        JsonView::Array(items) => {
            assert forall|i: int| 0 <= i < items.len() implies same_value(#[trigger] items[i], items[i]) by {
                law_a_value_is_the_same_as_itself(items[i]);
            }
        },
        JsonView::Object(entries) => {
            assert forall|i: int| 0 <= i < entries.len() implies same_value(
                (#[trigger] entries[i]).1,
                entries[i].1,
            ) by {
                law_a_value_is_the_same_as_itself(entries[i].1);
            }
        },
        _ => {},
    }
}

impl Json {
    pub fn equals(&self, other: &Json) -> (equal: bool)
        ensures
            equal == same_value(self.deep_view(), other.deep_view()),
        decreases self,
    {
        broadcast use group_json_views;

        match (self, other) {
            (Json::Null, Json::Null) => true,
            (Json::Bool(a), Json::Bool(b)) => *a == *b,
            (Json::Number(a), Json::Number(b)) => {
                let zeros: bool = match (*a, *b) {
                    (Number::Float(x), Number::Float(y)) => (x == 0 || x == MINUS_ZERO) && (y == 0 || y
                        == MINUS_ZERO),
                    _ => false,
                };
                *a == *b || zeros
            },
            (Json::Text(a), Json::Text(b)) => same(a.as_str(), b.as_str()),
            (Json::Array(a), Json::Array(b)) => {
                if a.len() != b.len() {
                    return false;
                }
                for i in 0..a.len()
                    invariant
                        self == Json::Array(*a),
                        other == Json::Array(*b),
                        a@.len() == b@.len(),
                        forall|k: int|
                            0 <= k < i ==> same_value(#[trigger] a.deep_view()[k], b.deep_view()[k]),
                {
                    proof {
                        assert(decreases_to!(self => self->Array_0));
                        assert(decreases_to!(self->Array_0 => a@));
                        assert(decreases_to!(a@ => a@[i as int]));
                        lemma_array_view(*a);
                        lemma_array_view(*b);
                    }
                    assert(a.deep_view()[i as int] == a@[i as int].deep_view());
                    assert(b.deep_view()[i as int] == b@[i as int].deep_view());
                    if !a[i].equals(&b[i]) {
                        return false;
                    }
                }
                true
            },
            (Json::Object(a), Json::Object(b)) => {
                if a.len() != b.len() {
                    return false;
                }
                for i in 0..a.len()
                    invariant
                        self == Json::Object(*a),
                        other == Json::Object(*b),
                        a@.len() == b@.len(),
                        forall|k: int|
                            0 <= k < i ==> (#[trigger] entry_views(a@)[k]).0 == entry_views(b@)[k].0
                                && same_value(entry_views(a@)[k].1, entry_views(b@)[k].1),
                {
                    proof {
                        assert(decreases_to!(self => self->Object_0));
                        assert(decreases_to!(self->Object_0 => a@));
                        assert(decreases_to!(a@ => a@[i as int]));
                        assert(decreases_to!(a@[i as int] => a@[i as int].1));
                        lemma_object_view(*a);
                        lemma_object_view(*b);
                    }
                    assert(entry_views(a@)[i as int] == (a@[i as int].0@, a@[i as int].1.deep_view()));
                    assert(entry_views(b@)[i as int] == (b@[i as int].0@, b@[i as int].1.deep_view()));
                    if !same(a[i].0.as_str(), b[i].0.as_str()) || !a[i].1.equals(&b[i].1) {
                        return false;
                    }
                }
                true
            },
            _ => false,
        }
    }
}

/// An object holds under a key what its first entry of that name holds, and nothing where no entry has that name.
pub proof fn law_a_key_finds_its_first_entry(entries: Seq<(Seq<char>, JsonView)>, key: Seq<char>)
    ensures
        JsonView::Object(entries).get(key) is None <==> forall|i: int|
            0 <= i < entries.len() ==> (#[trigger] entries[i]).0 != key,
        JsonView::Object(entries).get(key) is None ==> JsonView::Object(entries).at(key)
            == JsonView::Null,
        JsonView::Object(entries).get(key) is Some ==> exists|i: int|
            0 <= i < entries.len() && (#[trigger] entries[i]).0 == key && JsonView::Object(entries).get(
                key,
            ) == Some(entries[i].1) && JsonView::Object(entries).at(key) == entries[i].1
                && forall|k: int| 0 <= k < i ==> (#[trigger] entries[k]).0 != key,
{
    lemma_first_entry(entries, key);
}

proof fn lemma_first_entry(entries: Seq<(Seq<char>, JsonView)>, key: Seq<char>)
    ensures
        lookup(entries, key) is None <==> forall|i: int|
            0 <= i < entries.len() ==> (#[trigger] entries[i]).0 != key,
        lookup(entries, key) is Some ==> exists|i: int|
            0 <= i < entries.len() && (#[trigger] entries[i]).0 == key && lookup(entries, key) == Some(
                entries[i].1,
            ) && forall|k: int| 0 <= k < i ==> (#[trigger] entries[k]).0 != key,
    decreases entries.len(),
{
    if entries.len() > 0 {
        let rest = entries.drop_first();
        lemma_first_entry(rest, key);
        assert(forall|i: int| 0 <= i < rest.len() ==> #[trigger] rest[i] == entries[i + 1]);
        if entries[0].0 != key {
            if lookup(rest, key) is Some {
                let i = choose|i: int|
                    0 <= i < rest.len() && (#[trigger] rest[i]).0 == key && lookup(rest, key) == Some(
                        rest[i].1,
                    ) && forall|k: int| 0 <= k < i ==> (#[trigger] rest[k]).0 != key;
                assert(entries[i + 1] == rest[i]);
                assert forall|k: int| 0 <= k < i + 1 implies (#[trigger] entries[k]).0 != key by {
                    if k > 0 {
                        assert(entries[k] == rest[k - 1]);
                    }
                }
            } else {
                assert forall|k: int| 0 <= k < entries.len() implies (#[trigger] entries[k]).0 != key by {
                    if k > 0 {
                        assert(entries[k] == rest[k - 1]);
                    }
                }
            }
        }
    }
}

/// An entry that is the first of its name is what the object holds under that name.
pub proof fn lemma_holds(entries: Seq<(Seq<char>, JsonView)>, i: int)
    requires
        0 <= i < entries.len(),
        forall|k: int| 0 <= k < i ==> (#[trigger] entries[k]).0 != entries[i].0,
    ensures
        JsonView::Object(entries).get(entries[i].0) == Some(entries[i].1),
        JsonView::Object(entries).at(entries[i].0) == entries[i].1,
{
    lemma_first_entry(entries, entries[i].0);
}

/// What is written only where it says something is held exactly where it says something.
pub proof fn law_an_entry_is_held_where_it_says_something(name: Seq<char>, value: Option<JsonView>, key: Seq<char>)
    ensures
        JsonView::Object(entry_if(name, value)).get(name) == value,
        key != name ==> JsonView::Object(entry_if(name, value)).get(key) is None,
{
    lemma_first_entry(entry_if(name, value), name);
    lemma_first_entry(entry_if(name, value), key);
}

/// A number is read as the integer it holds where it fits in 64 bits with a sign, and nothing else is.
pub proof fn law_an_integer_is_read_as_it_is(value: JsonView)
    ensures
        value matches JsonView::Number(Number::PosInt(n)) ==> (n <= 0x7fff_ffff_ffff_ffff ==> integer_of(value)
            == Some(n as i64)),
        value matches JsonView::Number(Number::PosInt(n)) ==> (n > 0x7fff_ffff_ffff_ffff ==> integer_of(value)
            is None),
        value matches JsonView::Number(Number::NegInt(n)) ==> integer_of(value) == Some(n),
        value matches JsonView::Number(Number::Float(_)) ==> integer_of(value) is None,
        value !is Number ==> integer_of(value) is None,
{
}

/// Only a text has a text.
pub proof fn law_only_a_text_has_a_text(value: JsonView)
    ensures
        value matches JsonView::Text(text) ==> value.as_str() == Some(text) && value.text() == text,
        value !is Text ==> value.as_str() is None && value.text().len() == 0,
{
}

/// Two values are the same where they are of one kind and say the same: lists item by item, objects entry by entry, and
/// zero is zero with either sign.
pub proof fn law_when_two_values_are_the_same(one: JsonView, other: JsonView)
    ensures
        same_value(one, other) ==> {
            &&& one is Null <==> other is Null
            &&& one is Bool <==> other is Bool
            &&& one is Number <==> other is Number
            &&& one is Text <==> other is Text
            &&& one is Array <==> other is Array
            &&& one is Object <==> other is Object
        },
        one == other ==> same_value(one, other),
        one matches JsonView::Text(a) ==> (other matches JsonView::Text(b) ==> (same_value(one, other) <==> a
            == b)),
        one matches JsonView::Bool(a) ==> (other matches JsonView::Bool(b) ==> (same_value(one, other) <==> a
            == b)),
        one matches JsonView::Number(a) ==> (other matches JsonView::Number(b) ==> (same_value(one, other) <==> a
            == b || (a == Number::Float(0) && b == Number::Float(MINUS_ZERO)) || (a == Number::Float(MINUS_ZERO)
            && b == Number::Float(0)))),
        one matches JsonView::Array(a) ==> (other matches JsonView::Array(b) ==> (same_value(one, other) <==> a.len()
            == b.len() && forall|i: int| 0 <= i < a.len() ==> same_value(#[trigger] a[i], b[i]))),
        one matches JsonView::Object(a) ==> (other matches JsonView::Object(b) ==> (same_value(one, other)
            <==> a.len() == b.len() && forall|i: int|
            0 <= i < a.len() ==> (#[trigger] a[i]).0 == b[i].0 && same_value(a[i].1, b[i].1))),
{
    law_a_value_is_the_same_as_itself(one);
}

} // verus!
