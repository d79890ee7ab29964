//! What a JSON document holds, said in the plainest way: the words in which the laws speak of the
//! documents that go in and come out.

use vstd::prelude::*;

use crate::json::{entries_model, Json, JsonView};

verus! {

/// The document is an object with this value under the key.
pub open spec fn holds(json: JsonView, key: Seq<char>, value: JsonView) -> bool {
    json matches JsonView::Object(members) && members.contains_key(key) && members[key] == value
}

/// The document is an object with this text under the key.
pub open spec fn holds_text(json: JsonView, key: Seq<char>, text: Seq<char>) -> bool {
    holds(json, key, JsonView::Text(text))
}

/// The document is no object with anything under the key.
pub open spec fn lacks(json: JsonView, key: Seq<char>) -> bool {
    forall|value: JsonView| !holds(json, key, value)
}

/// The document is no object with a text under the key.
pub open spec fn lacks_text(json: JsonView, key: Seq<char>) -> bool {
    forall|text: Seq<char>| !holds_text(json, key, text)
}

/// What an object holds is what reading it gives.
pub proof fn law_what_is_held_is_read(json: JsonView, key: Seq<char>, value: JsonView)
    ensures
        holds(json, key, value) <==> json.get(key) == Some(value),
        holds(json, key, value) ==> json.at(key) == value,
{
}

/// The text that an object holds is the one that reading it gives.
pub proof fn law_held_text_is_read(json: JsonView, key: Seq<char>, text: Seq<char>)
    ensures
        holds_text(json, key, text) <==> json.text_at(key) == Some(text),
        holds_text(json, key, text) <==> json.says(key, text),
{
}

/// Where nothing is held, reading gives nothing.
pub proof fn law_nothing_held_nothing_read(json: JsonView, key: Seq<char>)
    ensures
        lacks(json, key) <==> json.get(key) is None,
        lacks(json, key) ==> json.at(key) == JsonView::Null,
        lacks_text(json, key) <==> json.text_at(key) is None,
        lacks(json, key) ==> lacks_text(json, key),
{
    if json.get(key) is Some {
        assert(holds(json, key, json.get(key)->0));
    }
    if let Some(text) = json.text_at(key) {
        assert(holds_text(json, key, text));
    }
    if lacks(json, key) {
        assert forall|text: Seq<char>| !holds_text(json, key, text) by {
            assert(!holds(json, key, JsonView::Text(text)));
        }
    }
}

/// What a value of the library stands for: a text its characters, a list its elements in order,
/// an object its entries, of which the later counts where two have one key.
pub proof fn law_documents(
    b: bool,
    n: serde_json::Number,
    text: String,
    items: Vec<Json>,
    i: int,
    entries: Vec<(String, Json)>,
    more: (String, Json),
)
    ensures
        Json::Null@ == JsonView::Null,
        Json::Bool(b)@ == JsonView::Bool(b),
        Json::Number(n)@ == JsonView::Number(n),
        Json::Text(text)@ == JsonView::Text(text@),
        Json::Array(items)@ matches JsonView::Array(views) && views.len() == items@.len() && (0
            <= i < items@.len() ==> views[i] == items@[i]@),
        Json::Object(entries)@ == JsonView::Object(entries_model(entries@)),
        entries_model(Seq::<(String, Json)>::empty()) == Map::<Seq<char>, JsonView>::empty(),
        entries_model(entries@.push(more)) == entries_model(entries@).insert(more.0@, more.1@),
{
    assert(entries@.push(more).drop_last() =~= entries@);
}

/// An object has at most one value under a key.
pub proof fn law_one_value_under_a_key(json: JsonView, key: Seq<char>, a: JsonView, b: JsonView)
    requires
        holds(json, key, a),
        holds(json, key, b),
    ensures
        a == b,
{
}

} // verus!
