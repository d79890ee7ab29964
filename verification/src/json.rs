//! JSON documents: the library's own type for them, what can be read from one, and the way
//! from text to a document and back through `serde_json`.

use vstd::prelude::*;
use vstd::string::*;

use crate::text::same;

verus! {

// The model
/// A JSON document as the contracts speak of it: text is a sequence of characters, an array a
/// sequence of documents, an object a map from keys to documents, and a number is carried as
/// `serde_json` holds it.
pub enum JsonView {
    Null,
    Bool(bool),
    Number(serde_json::Number),
    Text(Seq<char>),
    Array(Seq<JsonView>),
    Object(Map<Seq<char>, JsonView>),
}

impl JsonView {
    /// The member of an object under `key`.
    pub open spec fn get(self, key: Seq<char>) -> Option<JsonView> {
        match self {
            JsonView::Object(members) => if members.contains_key(key) {
                Some(members[key])
            } else {
                None
            },
            _ => None,
        }
    }

    /// The member of an object under `key`, or null.
    pub open spec fn at(self, key: Seq<char>) -> JsonView {
        match self.get(key) {
            Some(value) => value,
            None => JsonView::Null,
        }
    }

    /// The characters of a text.
    pub open spec fn text(self) -> Option<Seq<char>> {
        match self {
            JsonView::Text(s) => Some(s),
            _ => None,
        }
    }

    /// The text that an object holds under `key`.
    pub open spec fn text_at(self, key: Seq<char>) -> Option<Seq<char>> {
        self.at(key).text()
    }

    /// The object holds exactly this text under `key`.
    pub open spec fn says(self, key: Seq<char>, what: Seq<char>) -> bool {
        self.text_at(key) == Some(what)
    }

    /// The elements of an array; of anything else, none.
    pub open spec fn items(self) -> Seq<JsonView> {
        match self {
            JsonView::Array(items) => items,
            _ => seq![],
        }
    }

    /// The unsigned number that an object holds under `key`, or zero.
    pub open spec fn count_at(self, key: Seq<char>) -> u64 {
        match self.at(key) {
            JsonView::Number(n) => match number_u64(n) {
                Some(count) => count,
                None => 0,
            },
            _ => 0,
        }
    }
}

/// A JSON document. Where an object's list holds a key twice, the later entry counts.
#[derive(Debug, PartialEq)]
pub enum Json {
    Null,
    Bool(bool),
    Number(serde_json::Number),
    Text(String),
    Array(Vec<Json>),
    Object(Vec<(String, Json)>),
}

impl Json {
    /// The document that this value stands for.
    pub open spec fn model(self) -> JsonView
        decreases self,
    {
        match self {
            Json::Null => JsonView::Null,
            Json::Bool(b) => JsonView::Bool(b),
            Json::Number(n) => JsonView::Number(n),
            Json::Text(s) => JsonView::Text(s@),
            Json::Array(items) => JsonView::Array(
                Seq::new(
                    items@.len(),
                    |i: int|
                        if 0 <= i < items@.len() {
                            items@[i].model()
                        } else {
                            JsonView::Null
                        },
                ),
            ),
            Json::Object(entries) => JsonView::Object(entries_model(entries@)),
        }
    }
}

/// The map that a list of entries stands for: a later entry replaces an earlier one.
pub open spec fn entries_model(entries: Seq<(String, Json)>) -> Map<Seq<char>, JsonView>
    decreases entries,
{
    if entries.len() == 0 {
        Map::empty()
    } else {
        entries_model(entries.drop_last()).insert(entries.last().0@, entries.last().1.model())
    }
}

impl View for Json {
    type V = JsonView;

    open spec fn view(&self) -> JsonView {
        self.model()
    }
}

// serde_json
/// `serde_json::Number`, carried without looking inside.
#[verifier::external_type_specification]
#[verifier::external_body]
pub struct ExNumber(serde_json::Number);

/// `serde_json::Value`, carried without looking inside.
#[verifier::external_type_specification]
#[verifier::external_body]
pub struct ExValue(serde_json::Value);

/// The document that a `serde_json::Value` holds.
pub uninterp spec fn json_view(value: serde_json::Value) -> JsonView;

/// What `serde_json::from_str` reads from a text, where the text is JSON.
pub uninterp spec fn parsed_json(text: Seq<char>) -> Option<JsonView>;

/// The compact text that `serde_json` writes for a document.
pub uninterp spec fn json_text(json: JsonView) -> Seq<char>;

/// The number that `serde_json::Number::from_i128` makes of an integer.
pub uninterp spec fn number_of(n: int) -> serde_json::Number;

/// What `serde_json::Number::as_u64` reads from a number.
pub uninterp spec fn number_u64(n: serde_json::Number) -> Option<u64>;

/// One level of a `serde_json::Value`: its kind, and what stands directly inside it.
pub enum ValueParts {
    Null,
    Bool(bool),
    Number(serde_json::Number),
    Text(String),
    Array(Vec<serde_json::Value>),
    Object(Vec<(String, serde_json::Value)>),
}

/// The map that a list of `serde_json` entries stands for.
pub open spec fn value_entries(entries: Seq<(String, serde_json::Value)>) -> Map<
    Seq<char>,
    JsonView,
>
    decreases entries.len(),
{
    if entries.len() == 0 {
        Map::empty()
    } else {
        value_entries(entries.drop_last()).insert(entries.last().0@, json_view(entries.last().1))
    }
}

/// No key stands twice in the list.
pub open spec fn distinct_keys(entries: Seq<(String, serde_json::Value)>) -> bool {
    forall|i: int, j: int|
        0 <= i < j < entries.len() ==> #[trigger] entries[i].0@ != #[trigger] entries[j].0@
}

impl View for ValueParts {
    type V = JsonView;

    open spec fn view(&self) -> JsonView {
        match *self {
            ValueParts::Null => JsonView::Null,
            ValueParts::Bool(b) => JsonView::Bool(b),
            ValueParts::Number(n) => JsonView::Number(n),
            ValueParts::Text(s) => JsonView::Text(s@),
            ValueParts::Array(items) => JsonView::Array(
                items@.map_values(|v: serde_json::Value| json_view(v)),
            ),
            ValueParts::Object(entries) => JsonView::Object(value_entries(entries@)),
        }
    }
}

/// The variants of the enum `serde_json::Value`, read: the parts are what the value holds, and
/// the entries of a `serde_json::Map`, whose `into_iter` hands them out, have distinct keys.
#[verifier::external_body]
fn open_value(value: serde_json::Value) -> (parts: ValueParts)
    ensures
        parts@ == json_view(value),
        parts matches ValueParts::Object(entries) ==> distinct_keys(entries@),
{
    match value {
        serde_json::Value::Null => ValueParts::Null,
        serde_json::Value::Bool(b) => ValueParts::Bool(b),
        serde_json::Value::Number(n) => ValueParts::Number(n),
        serde_json::Value::String(s) => ValueParts::Text(s),
        serde_json::Value::Array(items) => ValueParts::Array(items),
        serde_json::Value::Object(map) => ValueParts::Object(map.into_iter().collect()),
    }
}

/// The variants of the enum `serde_json::Value`, written: the value holds what the parts hold,
/// and a `serde_json::Map` collected from entries with distinct keys holds just these.
#[verifier::external_body]
fn close_value(parts: ValueParts) -> (value: serde_json::Value)
    requires
        parts matches ValueParts::Object(entries) ==> distinct_keys(entries@),
    ensures
        json_view(value) == parts@,
{
    match parts {
        ValueParts::Null => serde_json::Value::Null,
        ValueParts::Bool(b) => serde_json::Value::Bool(b),
        ValueParts::Number(n) => serde_json::Value::Number(n),
        ValueParts::Text(s) => serde_json::Value::String(s),
        ValueParts::Array(items) => serde_json::Value::Array(items),
        ValueParts::Object(entries) => serde_json::Value::Object(entries.into_iter().collect()),
    }
}

/// `serde_json::from_str`: whether the text is JSON, and the document it spells, depend on
/// the text alone.
#[verifier::external_body]
fn read_value(text: &str) -> (value: Option<serde_json::Value>)
    ensures
        match value {
            Some(v) => parsed_json(text@) == Some(json_view(v)),
            None => parsed_json(text@) is None,
        },
{
    serde_json::from_str::<serde_json::Value>(text).ok()
}

/// `serde_json::Value::to_string`: the compact text depends on the document alone, and, as
/// control characters are escaped and nothing is indented, it holds no line break.
#[verifier::external_body]
fn write_value(value: &serde_json::Value) -> (text: String)
    ensures
        text@ == json_text(json_view(*value)),
        !text@.contains('\n'),
        !text@.contains('\r'),
{
    value.to_string()
}

/// `serde_json::Number::from_i128`: an integer in the range of `i64` or of `u64` becomes a
/// number that depends on the integer alone, and `as_u64` reads back one that is not negative.
#[verifier::external_body]
fn make_number(n: i128) -> (number: serde_json::Number)
    requires
        i64::MIN <= n <= u64::MAX,
    ensures
        number == number_of(n as int),
        n >= 0 ==> number_u64(number) == Some(n as u64),
        n < 0 ==> number_u64(number) is None,
{
    serde_json::Number::from_i128(n).unwrap()
}

/// `serde_json::Number::as_u64`, which depends on the number alone.
#[verifier::external_body]
fn read_u64(number: &serde_json::Number) -> (count: Option<u64>)
    ensures
        count == number_u64(*number),
{
    number.as_u64()
}

/// `serde_json::Number::clone` gives the same number.
pub assume_specification[ <serde_json::Number as Clone>::clone ](
    number: &serde_json::Number,
) -> (copy: serde_json::Number)
    ensures
        copy == *number,
;

// From text and back
proof fn lemma_value_entries(entries: Seq<(String, serde_json::Value)>, i: int)
    requires
        distinct_keys(entries),
        0 <= i < entries.len(),
    ensures
        value_entries(entries).dom().finite(),
        value_entries(entries).contains_key(entries[i].0@),
        value_entries(entries)[entries[i].0@] == json_view(entries[i].1),
    decreases entries.len(),
{
    lemma_value_entries_finite(entries);
    let before = entries.drop_last();
    if i < before.len() {
        assert(entries[i].0@ != entries.last().0@);
        lemma_value_entries(before, i);
    }
}

proof fn lemma_value_entries_finite(entries: Seq<(String, serde_json::Value)>)
    ensures
        value_entries(entries).dom().finite(),
    decreases entries.len(),
{
    if entries.len() > 0 {
        lemma_value_entries_finite(entries.drop_last());
    }
}

/// The document that a `serde_json::Value` holds.
pub fn from_value(value: serde_json::Value) -> (json: Json)
    ensures
        json@ == json_view(value),
    decreases json_view(value),
{
    match open_value(value) {
        ValueParts::Null => Json::Null,
        ValueParts::Bool(b) => Json::Bool(b),
        ValueParts::Number(n) => Json::Number(n),
        ValueParts::Text(s) => Json::Text(s),
        ValueParts::Array(items) => {
            let mut out: Vec<Json> = Vec::new();
            let ghost all = items@;
            for item in it: items
                invariant
                    it.seq() == all,
                    json_view(value) == JsonView::Array(
                        all.map_values(|v: serde_json::Value| json_view(v)),
                    ),
                    out@.len() == it.index(),
                    forall|i: int|
                        0 <= i < out@.len() ==> (#[trigger] out@[i]).model() == json_view(all[i]),
            {
                assert(json_view(item) == json_view(value)->Array_0[it.index() as int]);
                out.push(from_value(item));
            }
            let json = Json::Array(out);
            assert(json@->Array_0 =~= json_view(value)->Array_0);
            json
        },
        ValueParts::Object(entries) => {
            let mut out: Vec<(String, Json)> = Vec::new();
            let ghost all = entries@;
            assert(all.take(0) =~= seq![]);
            for entry in it: entries
                invariant
                    it.seq() == all,
                    json_view(value) == JsonView::Object(value_entries(all)),
                    distinct_keys(all),
                    entries_model(out@) == value_entries(all.take(it.index() as int)),
            {
                proof {
                    let i = it.index() as int;
                    lemma_value_entries(all, i);
                    assert(json_view(all[i].1) == json_view(value)->Object_0[all[i].0@]);
                    assert(all.take(i + 1).drop_last() =~= all.take(i));
                }
                let (key, item) = entry;
                let ghost done = out@;
                out.push((key, from_value(item)));
                assert(out@.drop_last() =~= done);
            }
            assert(all.take(all.len() as int) =~= all);
            Json::Object(out)
        },
    }
}

/// Only the last entry under a key counts.
proof fn lemma_entries_last(entries: Seq<(String, Json)>, i: int)
    requires
        0 <= i < entries.len(),
        forall|j: int| i < j < entries.len() ==> entries[j].0@ != entries[i].0@,
    ensures
        entries_model(entries).contains_key(entries[i].0@),
        entries_model(entries)[entries[i].0@] == entries[i].1.model(),
    decreases entries.len(),
{
    if i < entries.len() - 1 {
        lemma_entries_last(entries.drop_last(), i);
    }
}

/// A key that no entry has is not in the map.
proof fn lemma_entries_none(entries: Seq<(String, Json)>, key: Seq<char>)
    requires
        forall|j: int| 0 <= j < entries.len() ==> (#[trigger] entries[j]).0@ != key,
    ensures
        !entries_model(entries).contains_key(key),
    decreases entries.len(),
{
    if entries.len() > 0 {
        lemma_entries_none(entries.drop_last(), key);
    }
}

/// A key that no entry has is not in the map.
proof fn lemma_value_entries_none(entries: Seq<(String, serde_json::Value)>, key: Seq<char>)
    requires
        forall|j: int| 0 <= j < entries.len() ==> (#[trigger] entries[j]).0@ != key,
    ensures
        !value_entries(entries).contains_key(key),
    decreases entries.len(),
{
    if entries.len() > 0 {
        lemma_value_entries_none(entries.drop_last(), key);
    }
}

/// Whether one of the entries has the key.
fn has_key(entries: &Vec<(String, serde_json::Value)>, key: &str) -> (yes: bool)
    requires
        distinct_keys(entries@),
    ensures
        yes == value_entries(entries@).contains_key(key@),
{
    let mut i: usize = 0;
    while i < entries.len()
        invariant
            i <= entries@.len(),
            distinct_keys(entries@),
            forall|j: int| 0 <= j < i ==> (#[trigger] entries@[j]).0@ != key@,
        decreases entries@.len() - i,
    {
        if same(entries[i].0.as_str(), key) {
            proof {
                lemma_value_entries(entries@, i as int);
            }
            return true;
        }
        i = i + 1;
    }
    proof {
        lemma_value_entries_none(entries@, key@);
    }
    false
}

/// The `serde_json::Value` that holds the document.
fn to_value(json: &Json) -> (value: serde_json::Value)
    ensures
        json_view(value) == json@,
    decreases json,
{
    match json {
        Json::Null => close_value(ValueParts::Null),
        Json::Bool(b) => close_value(ValueParts::Bool(*b)),
        Json::Number(n) => close_value(ValueParts::Number(n.clone())),
        Json::Text(s) => close_value(ValueParts::Text(s.clone())),
        Json::Array(items) => {
            let mut out: Vec<serde_json::Value> = Vec::new();
            let mut i: usize = 0;
            while i < items.len()
                invariant
                    i <= items@.len(),
                    json == Json::Array(*items),
                    out@.len() == i,
                    forall|j: int|
                        0 <= j < i ==> json_view(#[trigger] out@[j]) == items@[j].model(),
                decreases items@.len() - i,
            {
                assert(decreases_to!(json => items@[i as int])) by {
                    assert(decreases_to!(json => json->Array_0));
                }
                out.push(to_value(&items[i]));
                i = i + 1;
            }
            assert(out@.map_values(|v: serde_json::Value| json_view(v)) =~= json@->Array_0);
            close_value(ValueParts::Array(out))
        },
        Json::Object(entries) => {
            // The later entry under a key counts, so it is met first.
            let mut out: Vec<(String, serde_json::Value)> = Vec::new();
            let total: usize = entries.len();
            let mut i: usize = total;
            while i > 0
                invariant
                    i <= total,
                    total == entries@.len(),
                    json == Json::Object(*entries),
                    distinct_keys(out@),
                    forall|j: int|
                        i <= j < total ==> value_entries(out@).contains_key(
                            (#[trigger] entries@[j]).0@,
                        ),
                    forall|key: Seq<char>| #[trigger]
                        value_entries(out@).contains_key(key) ==> entries_model(
                            entries@,
                        ).contains_key(key) && value_entries(out@)[key] == entries_model(
                            entries@,
                        )[key],
                decreases i,
            {
                i = i - 1;
                let entry = &entries[i];
                if !has_key(&out, entry.0.as_str()) {
                    let ghost done = out@;
                    proof {
                        assert forall|j: int| i < j < total implies entries@[j].0@ != entry.0@ by {
                            assert(value_entries(done).contains_key(entries@[j].0@));
                        }
                        lemma_entries_last(entries@, i as int);
                        assert forall|j: int| 0 <= j < done.len() implies (#[trigger] done[j]).0@
                            != entry.0@ by {
                            lemma_value_entries(done, j);
                        }
                    }
                    assert(decreases_to!(json => entry.1)) by {
                        assert(decreases_to!(json => json->Object_0));
                        assert(decreases_to!(entries@ => entries@[i as int]));
                        assert(decreases_to!(entry => entry.1));
                    }
                    out.push((entry.0.clone(), to_value(&entry.1)));
                    assert(out@.drop_last() =~= done);
                }
            }
            proof {
                let (written, meant) = (value_entries(out@), entries_model(entries@));
                assert forall|key: Seq<char>| meant.contains_key(key) implies written.contains_key(
                    key,
                ) by {
                    if !written.contains_key(key) {
                        lemma_entries_none(entries@, key);
                    }
                }
                assert(written =~= meant);
            }
            close_value(ValueParts::Object(out))
        },
    }
}

impl Json {
    /// Reads a document from its text; none where the text is not JSON.
    pub fn parse(text: &str) -> (json: Option<Json>)
        ensures
            match json {
                Some(j) => parsed_json(text@) == Some(j@),
                None => parsed_json(text@) is None,
            },
    {
        match read_value(text) {
            Some(value) => Some(from_value(value)),
            None => None,
        }
    }

    /// The compact text of the document.
    pub fn to_text(&self) -> (text: String)
        ensures
            text@ == json_text(self@),
            !text@.contains('\n'),
            !text@.contains('\r'),
    {
        write_value(&to_value(self))
    }
}

// Reading a document
impl Json {
    /// The member of an object under `key`.
    pub fn get(&self, key: &str) -> (member: Option<&Json>)
        ensures
            match member {
                Some(m) => self@.get(key@) == Some(m@) && decreases_to!(self => m),
                None => self@.get(key@) is None,
            },
    {
        match self {
            Json::Object(entries) => {
                let mut i: usize = entries.len();
                while i > 0
                    invariant
                        i <= entries@.len(),
                        *self == Json::Object(*entries),
                        forall|j: int|
                            i <= j < entries@.len() ==> (#[trigger] entries@[j]).0@ != key@,
                    decreases i,
                {
                    i = i - 1;
                    let entry = &entries[i];
                    if same(entry.0.as_str(), key) {
                        proof {
                            lemma_entries_last(entries@, i as int);
                            assert(decreases_to!(self => self->Object_0));
                            assert(decreases_to!(entries@ => entries@[i as int]));
                            assert(decreases_to!(entry => entry.1));
                        }
                        return Some(&entry.1);
                    }
                }
                proof {
                    lemma_entries_none(entries@, key@);
                }
                None
            },
            _ => None,
        }
    }

    /// The string of a text.
    pub fn as_str(&self) -> (s: Option<&str>)
        ensures
            match s {
                Some(s) => self@.text() == Some(s@),
                None => self@.text() is None,
            },
    {
        match self {
            Json::Text(s) => Some(s.as_str()),
            _ => None,
        }
    }

    /// The string that an object holds under `key`.
    pub fn str_at(&self, key: &str) -> (s: Option<&str>)
        ensures
            match s {
                Some(s) => self@.text_at(key@) == Some(s@),
                None => self@.text_at(key@) is None,
            },
    {
        match self.get(key) {
            Some(member) => member.as_str(),
            None => None,
        }
    }

    /// Whether the object holds exactly this text under `key`.
    pub fn says(&self, key: &str, what: &str) -> (yes: bool)
        ensures
            yes == self@.says(key@, what@),
    {
        match self.str_at(key) {
            Some(s) => same(s, what),
            None => false,
        }
    }

    /// Whether the object holds `true` under `key`.
    pub fn is_true_at(&self, key: &str) -> (yes: bool)
        ensures
            yes == (self@.at(key@) == JsonView::Bool(true)),
    {
        match self.get(key) {
            Some(Json::Bool(b)) => *b,
            _ => false,
        }
    }

    /// The unsigned number that an object holds under `key`, or zero.
    pub fn count_at(&self, key: &str) -> (count: u64)
        ensures
            count == self@.count_at(key@),
    {
        match self.get(key) {
            Some(Json::Number(n)) => match read_u64(n) {
                Some(count) => count,
                None => 0,
            },
            _ => 0,
        }
    }

    // Making a document
    /// The document that holds an integer.
    pub fn integer(n: i128) -> (json: Json)
        requires
            i64::MIN <= n <= u64::MAX,
        ensures
            json@ == JsonView::Number(number_of(n as int)),
    {
        Json::Number(make_number(n))
    }

    /// The document that holds a text.
    pub fn of_str(s: &str) -> (json: Json)
        ensures
            json@ == JsonView::Text(s@),
    {
        Json::Text(s.to_owned())
    }

    /// An object without members.
    pub fn object() -> (json: Json)
        ensures
            json@ == JsonView::Object(map![]),
    {
        let entries: Vec<(String, Json)> = Vec::new();
        assert(entries_model(entries@) == Map::<Seq<char>, JsonView>::empty());
        Json::Object(entries)
    }

    /// The object with one more member.
    pub fn with(self, key: &str, value: Json) -> (json: Json)
        requires
            self@ is Object,
        ensures
            json@ == JsonView::Object(self@->Object_0.insert(key@, value@)),
    {
        match self {
            Json::Object(entries) => {
                let mut entries = entries;
                let ghost earlier = entries@;
                entries.push((key.to_owned(), value));
                assert(entries@.drop_last() =~= earlier);
                assert(entries_model(entries@) == entries_model(earlier).insert(key@, value@));
                Json::Object(entries)
            },
            other => other,
        }
    }
}

impl Clone for Json {
    fn clone(&self) -> (copy: Json)
        ensures
            copy@ == self@,
        decreases self,
    {
        match self {
            Json::Null => Json::Null,
            Json::Bool(b) => Json::Bool(*b),
            Json::Number(n) => Json::Number(n.clone()),
            Json::Text(s) => Json::Text(s.clone()),
            Json::Array(items) => {
                let mut out: Vec<Json> = Vec::new();
                let mut i: usize = 0;
                while i < items.len()
                    invariant
                        i <= items@.len(),
                        *self == Json::Array(*items),
                        out@.len() == i,
                        forall|j: int|
                            0 <= j < i ==> (#[trigger] out@[j]).model() == items@[j].model(),
                    decreases items@.len() - i,
                {
                    assert(decreases_to!(self => self->Array_0));
                    assert(decreases_to!(items@ => items@[i as int]));
                    out.push(items[i].clone());
                    i = i + 1;
                }
                let copy = Json::Array(out);
                assert(copy@->Array_0 =~= self@->Array_0);
                copy
            },
            Json::Object(entries) => {
                let mut out: Vec<(String, Json)> = Vec::new();
                let mut i: usize = 0;
                assert(entries@.take(0) =~= seq![]);
                while i < entries.len()
                    invariant
                        i <= entries@.len(),
                        *self == Json::Object(*entries),
                        entries_model(out@) == entries_model(entries@.take(i as int)),
                    decreases entries@.len() - i,
                {
                    let ghost done = out@;
                    let entry = &entries[i];
                    assert(decreases_to!(self => self->Object_0));
                    assert(decreases_to!(entries@ => entries@[i as int]));
                    assert(decreases_to!(entry => entry.1));
                    out.push((entry.0.clone(), entry.1.clone()));
                    assert(out@.drop_last() =~= done);
                    assert(entries@.take(i + 1).drop_last() =~= entries@.take(i as int));
                    i = i + 1;
                }
                assert(entries@.take(i as int) =~= entries@);
                Json::Object(out)
            },
        }
    }
}

} // verus!
