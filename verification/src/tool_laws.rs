//! What a tool call event says, in whichever of its shapes, and what it becomes in the client's
//! stream.

use vstd::prelude::*;
use vstd::string::*;

use crate::block_laws::{index_after, law_ended_text, text_ended};
use crate::facts::{
    holds, holds_text, lacks, lacks_text, law_held_text_is_read, law_nothing_held_nothing_read,
    law_what_is_held_is_read,
};
use crate::json::{parsed_json, JsonView};
use crate::sse::SseItem;
use crate::streaming::{event_step, lemma_type_words, StreamState};
use crate::text::{ascii_lowered, contains, decimal};
use crate::text_stream::TextState;
use crate::tool_call::{
    as_input, call_id, call_input, call_keys, call_text, first_member, first_nested_member,
    first_nested_text, first_text, id_keys, input_keys, is_completion, made_up_id, name_keys,
    status_keys, status_verdict,
};

verus! {

// Where a call says something
/// The document holds the text under one of the keys, and none under those before it.
pub open spec fn says_first(json: JsonView, keys: Seq<Seq<char>>, text: Seq<char>) -> bool {
    exists|k: int|
        0 <= k < keys.len() && holds_text(json, #[trigger] keys[k], text) && says_none(
            json,
            keys.take(k),
        )
}

/// The document holds a text under none of the keys.
pub open spec fn says_none(json: JsonView, keys: Seq<Seq<char>>) -> bool {
    forall|k: int| 0 <= k < keys.len() ==> lacks_text(json, #[trigger] keys[k])
}

/// The document holds the value under one of the keys, and nothing under those before it.
pub open spec fn gives_first(json: JsonView, keys: Seq<Seq<char>>, value: JsonView) -> bool {
    exists|k: int|
        0 <= k < keys.len() && holds(json, #[trigger] keys[k], value) && gives_none(
            json,
            keys.take(k),
        )
}

/// The document holds nothing under any of the keys.
pub open spec fn gives_none(json: JsonView, keys: Seq<Seq<char>>) -> bool {
    forall|k: int| 0 <= k < keys.len() ==> lacks(json, #[trigger] keys[k])
}

/// The event says the text itself, under the first of the keys that has one; or else the call
/// nested in it under `tool_call` does, or else the one under `toolCall`.
pub open spec fn event_says(event: JsonView, keys: Seq<Seq<char>>, text: Seq<char>) -> bool {
    ||| says_first(event, keys, text)
    ||| says_none(event, keys) && exists|call: JsonView| #[trigger]
        holds(event, "tool_call"@, call) && says_first(call, keys, text)
    ||| says_none(event, keys) && quiet(event, "tool_call"@, keys) && exists|call: JsonView|
     #[trigger]
        holds(event, "toolCall"@, call) && says_first(call, keys, text)
}

/// What the event nests under the key holds a text under none of the keys.
pub open spec fn quiet(event: JsonView, parent: Seq<char>, keys: Seq<Seq<char>>) -> bool {
    forall|call: JsonView| #[trigger] holds(event, parent, call) ==> says_none(call, keys)
}

/// Neither the event nor a call nested in it holds a text under any of the keys.
pub open spec fn event_is_silent(event: JsonView, keys: Seq<Seq<char>>) -> bool {
    says_none(event, keys) && quiet(event, "tool_call"@, keys) && quiet(event, "toolCall"@, keys)
}

proof fn lemma_says_none(json: JsonView, keys: Seq<Seq<char>>)
    requires
        says_none(json, keys),
    ensures
        first_text(json, keys) is None,
    decreases keys.len(),
{
    if keys.len() > 0 {
        assert(lacks_text(json, keys[0]));
        law_nothing_held_nothing_read(json, keys[0]);
        let rest = keys.drop_first();
        assert forall|k: int| 0 <= k < rest.len() implies lacks_text(json, #[trigger] rest[k]) by {
            assert(rest[k] == keys[k + 1]);
        }
        lemma_says_none(json, rest);
    }
}

proof fn lemma_says_first_at(json: JsonView, keys: Seq<Seq<char>>, k: int, text: Seq<char>)
    requires
        0 <= k < keys.len(),
        holds_text(json, keys[k], text),
        says_none(json, keys.take(k)),
    ensures
        first_text(json, keys) == Some(text),
    decreases keys.len(),
{
    law_held_text_is_read(json, keys[k], text);
    if k > 0 {
        assert(keys.take(k)[0] == keys[0]);
        assert(lacks_text(json, keys[0]));
        law_nothing_held_nothing_read(json, keys[0]);
        let rest = keys.drop_first();
        assert forall|j: int| 0 <= j < rest.take(k - 1).len() implies lacks_text(
            json,
            #[trigger] rest.take(k - 1)[j],
        ) by {
            assert(rest.take(k - 1)[j] == keys.take(k)[j + 1]);
        }
        lemma_says_first_at(json, rest, k - 1, text);
    }
}

proof fn lemma_says_first(json: JsonView, keys: Seq<Seq<char>>, text: Seq<char>)
    requires
        says_first(json, keys, text),
    ensures
        first_text(json, keys) == Some(text),
{
    let k = choose|k: int|
        0 <= k < keys.len() && holds_text(json, #[trigger] keys[k], text) && says_none(
            json,
            keys.take(k),
        );
    lemma_says_first_at(json, keys, k, text);
}

proof fn lemma_nested(event: JsonView, keys: Seq<Seq<char>>)
    ensures
        first_nested_text(event, call_keys(), keys) == (match first_text(
            event.at("tool_call"@),
            keys,
        ) {
            Some(t) => Some(t),
            None => first_text(event.at("toolCall"@), keys),
        }),
        first_nested_member(event, call_keys(), keys) == (match first_member(
            event.at("tool_call"@),
            keys,
        ) {
            Some(v) => Some(v),
            None => first_member(event.at("toolCall"@), keys),
        }),
{
    reveal_with_fuel(first_nested_text, 3);
    reveal_with_fuel(first_nested_member, 3);
    let parents = call_keys();
    assert(parents.drop_first() =~= seq!["toolCall"@]);
    assert(parents.drop_first().drop_first() =~= seq![]);
}

proof fn lemma_null_says_none(keys: Seq<Seq<char>>)
    ensures
        first_text(JsonView::Null, keys) is None,
        first_member(JsonView::Null, keys) is None,
    decreases keys.len(),
{
    if keys.len() > 0 {
        lemma_null_says_none(keys.drop_first());
    }
}

proof fn lemma_quiet(event: JsonView, parent: Seq<char>, keys: Seq<Seq<char>>)
    requires
        quiet(event, parent, keys),
    ensures
        first_text(event.at(parent), keys) is None,
{
    law_nothing_held_nothing_read(event, parent);
    lemma_null_says_none(keys);
    if !lacks(event, parent) {
        let call = event.at(parent);
        assert(holds(event, parent, call));
        lemma_says_none(call, keys);
    }
}

proof fn lemma_event_says(event: JsonView, keys: Seq<Seq<char>>, text: Seq<char>)
    requires
        event_says(event, keys, text),
    ensures
        call_text(event, keys) == Some(text),
{
    lemma_nested(event, keys);
    if says_first(event, keys, text) {
        lemma_says_first(event, keys, text);
    } else {
        lemma_says_none(event, keys);
        if exists|call: JsonView| #[trigger]
            holds(event, "tool_call"@, call) && says_first(call, keys, text) {
            let call = choose|call: JsonView| #[trigger]
                holds(event, "tool_call"@, call) && says_first(call, keys, text);
            law_what_is_held_is_read(event, "tool_call"@, call);
            lemma_says_first(call, keys, text);
        } else {
            lemma_quiet(event, "tool_call"@, keys);
            let call = choose|call: JsonView| #[trigger]
                holds(event, "toolCall"@, call) && says_first(call, keys, text);
            law_what_is_held_is_read(event, "toolCall"@, call);
            lemma_says_first(call, keys, text);
        }
    }
}

proof fn lemma_event_is_silent(event: JsonView, keys: Seq<Seq<char>>)
    requires
        event_is_silent(event, keys),
    ensures
        call_text(event, keys) is None,
{
    lemma_nested(event, keys);
    lemma_says_none(event, keys);
    lemma_quiet(event, "tool_call"@, keys);
    lemma_quiet(event, "toolCall"@, keys);
}

// Name and id
/// The tool call event names this tool.
pub open spec fn names_tool(event: JsonView, name: Seq<char>) -> bool {
    event_says(event, seq!["name"@, "tool_name"@], name)
}

/// The tool call event names no tool.
pub open spec fn names_no_tool(event: JsonView) -> bool {
    event_is_silent(event, seq!["name"@, "tool_name"@])
}

/// The tool call has this id: its own, or, where it has none, one made from the block's index.
pub open spec fn has_id(event: JsonView, index: int, id: Seq<char>) -> bool {
    let keys = seq!["id"@, "call_id"@, "tool_call_id"@];
    event_says(event, keys, id) || (event_is_silent(event, keys) && id == "toolu_"@ + decimal(
        index,
    ))
}

/// The name of a tool call is the one that its event gives, whole.
pub proof fn law_call_name(event: JsonView, name: Seq<char>)
    ensures
        names_tool(event, name) ==> call_text(event, name_keys()) == Some(name),
        names_no_tool(event) ==> call_text(event, name_keys()) is None,
{
    assert(name_keys() =~= seq!["name"@, "tool_name"@]);
    if names_tool(event, name) {
        lemma_event_says(event, name_keys(), name);
    }
    if names_no_tool(event) {
        lemma_event_is_silent(event, name_keys());
    }
}

/// The id of a tool call is its own, whole, and only one without an id is given one.
pub proof fn law_call_id(event: JsonView, index: int, id: Seq<char>)
    requires
        index >= 0,
        has_id(event, index, id),
    ensures
        call_id(event, index) == id,
{
    let keys = seq!["id"@, "call_id"@, "tool_call_id"@];
    assert(id_keys() =~= keys);
    if event_says(event, keys, id) {
        lemma_event_says(event, id_keys(), id);
    } else {
        lemma_event_is_silent(event, id_keys());
        assert(made_up_id(index) == "toolu_"@ + decimal(index));
    }
}

/// The ids made for two calls without ids, at different places in the stream, are different.
pub proof fn law_made_up_ids_differ(a: int, b: int)
    requires
        0 <= a,
        0 <= b,
        a != b,
    ensures
        made_up_id(a) != made_up_id(b),
{
    crate::text::lemma_decimal_value(a);
    crate::text::lemma_decimal_value(b);
    let head = "toolu_"@;
    assert(made_up_id(a).skip(head.len() as int) =~= decimal(a));
    assert(made_up_id(b).skip(head.len() as int) =~= decimal(b));
}

// Input
/// An input that is an object is taken as it is; a text that spells an object is taken for that
/// object; nothing is taken for an object without members; and anything else is put under
/// `input`, whole.
pub proof fn law_input_is_kept(value: JsonView, spelled: JsonView)
    ensures
        value is Object ==> as_input(value) == value,
        value matches JsonView::Text(s) ==> parsed_json(s) == Some(spelled) && spelled is Object
            ==> as_input(value) == spelled,
        value matches JsonView::Text(s) ==> (parsed_json(s) is None || (parsed_json(s) == Some(
            spelled,
        ) && !(spelled is Object))) ==> as_input(value) == JsonView::Object(
            map!["input"@ => value],
        ),
        value is Null ==> as_input(value) == JsonView::Object(Map::<Seq<char>, JsonView>::empty()),
        value is Bool || value is Number || value is Array ==> as_input(value)
            == JsonView::Object(map!["input"@ => value]),
{
}

/// The event gives this input: itself, under the first of the keys that is there; or else the
/// call nested in it under `tool_call` does, or else the one under `toolCall`.
pub open spec fn event_gives(event: JsonView, value: JsonView) -> bool {
    let keys = seq!["input"@, "args"@, "arguments"@];
    ||| gives_first(event, keys, value)
    ||| gives_none(event, keys) && exists|call: JsonView| #[trigger]
        holds(event, "tool_call"@, call) && gives_first(call, keys, value)
    ||| gives_none(event, keys) && hides(event, "tool_call"@) && exists|call: JsonView| #[trigger]
        holds(event, "toolCall"@, call) && gives_first(call, keys, value)
}

/// What the event nests under the key gives no input.
pub open spec fn hides(event: JsonView, parent: Seq<char>) -> bool {
    forall|call: JsonView| #[trigger]
        holds(event, parent, call) ==> gives_none(call, seq!["input"@, "args"@, "arguments"@])
}

/// Neither the event nor a call nested in it gives an input.
pub open spec fn gives_no_input(event: JsonView) -> bool {
    gives_none(event, seq!["input"@, "args"@, "arguments"@]) && hides(event, "tool_call"@) && hides(
        event,
        "toolCall"@,
    )
}

proof fn lemma_gives_none(json: JsonView, keys: Seq<Seq<char>>)
    requires
        gives_none(json, keys),
    ensures
        first_member(json, keys) is None,
    decreases keys.len(),
{
    if keys.len() > 0 {
        assert(lacks(json, keys[0]));
        law_nothing_held_nothing_read(json, keys[0]);
        let rest = keys.drop_first();
        assert forall|k: int| 0 <= k < rest.len() implies lacks(json, #[trigger] rest[k]) by {
            assert(rest[k] == keys[k + 1]);
        }
        lemma_gives_none(json, rest);
    }
}

proof fn lemma_gives_first_at(json: JsonView, keys: Seq<Seq<char>>, k: int, value: JsonView)
    requires
        0 <= k < keys.len(),
        holds(json, keys[k], value),
        gives_none(json, keys.take(k)),
    ensures
        first_member(json, keys) == Some(value),
    decreases keys.len(),
{
    law_what_is_held_is_read(json, keys[k], value);
    if k > 0 {
        assert(keys.take(k)[0] == keys[0]);
        assert(lacks(json, keys[0]));
        law_nothing_held_nothing_read(json, keys[0]);
        let rest = keys.drop_first();
        assert forall|j: int| 0 <= j < rest.take(k - 1).len() implies lacks(
            json,
            #[trigger] rest.take(k - 1)[j],
        ) by {
            assert(rest.take(k - 1)[j] == keys.take(k)[j + 1]);
        }
        lemma_gives_first_at(json, rest, k - 1, value);
    }
}

proof fn lemma_gives_first(json: JsonView, keys: Seq<Seq<char>>, value: JsonView)
    requires
        gives_first(json, keys, value),
    ensures
        first_member(json, keys) == Some(value),
{
    let k = choose|k: int|
        0 <= k < keys.len() && holds(json, #[trigger] keys[k], value) && gives_none(
            json,
            keys.take(k),
        );
    lemma_gives_first_at(json, keys, k, value);
}

proof fn lemma_hides(event: JsonView, parent: Seq<char>)
    requires
        hides(event, parent),
    ensures
        first_member(event.at(parent), input_keys()) is None,
{
    assert(input_keys() =~= seq!["input"@, "args"@, "arguments"@]);
    law_nothing_held_nothing_read(event, parent);
    lemma_null_says_none(input_keys());
    if !lacks(event, parent) {
        let call = event.at(parent);
        assert(holds(event, parent, call));
        lemma_gives_none(call, input_keys());
    }
}

/// The input of a tool call is what its event gives, as an object; of one that gives none it is
/// an object without members.
pub proof fn law_call_input(event: JsonView, value: JsonView)
    ensures
        event_gives(event, value) ==> call_input(event) == as_input(value),
        gives_no_input(event) ==> call_input(event) == JsonView::Object(
            Map::<Seq<char>, JsonView>::empty(),
        ),
{
    let keys = seq!["input"@, "args"@, "arguments"@];
    assert(input_keys() =~= keys);
    lemma_nested(event, keys);
    if event_gives(event, value) {
        if gives_first(event, keys, value) {
            lemma_gives_first(event, keys, value);
        } else {
            lemma_gives_none(event, keys);
            if exists|call: JsonView| #[trigger]
                holds(event, "tool_call"@, call) && gives_first(call, keys, value) {
                let call = choose|call: JsonView| #[trigger]
                    holds(event, "tool_call"@, call) && gives_first(call, keys, value);
                law_what_is_held_is_read(event, "tool_call"@, call);
                lemma_gives_first(call, keys, value);
            } else {
                lemma_hides(event, "tool_call"@);
                let call = choose|call: JsonView| #[trigger]
                    holds(event, "toolCall"@, call) && gives_first(call, keys, value);
                law_what_is_held_is_read(event, "toolCall"@, call);
                lemma_gives_first(call, keys, value);
            }
        }
    }
    if gives_no_input(event) {
        lemma_gives_none(event, keys);
        lemma_hides(event, "tool_call"@);
        lemma_hides(event, "toolCall"@);
    }
}

// Completion
/// A status says that a call has begun, in whatever case it is written.
pub open spec fn tells_start(status: Seq<char>) -> bool {
    contains(ascii_lowered(status), "start"@)
}

/// A status says that a call has ended, in whatever case it is written.
pub open spec fn tells_end(status: Seq<char>) -> bool {
    let word = ascii_lowered(status);
    ||| contains(word, "complete"@)
    ||| contains(word, "finish"@)
    ||| contains(word, "success"@)
    ||| contains(word, "error"@)
    ||| contains(word, "fail"@)
    ||| contains(word, "result"@)
}

/// The event tells nothing of begin or end under the key.
pub open spec fn tells_nothing(event: JsonView, key: Seq<char>) -> bool {
    forall|status: Seq<char>| #[trigger]
        holds_text(event, key, status) ==> !tells_start(status) && !tells_end(status)
}

proof fn lemma_tells_nothing(event: JsonView, key: Seq<char>)
    requires
        tells_nothing(event, key),
    ensures
        event.text_at(key) matches Some(t) ==> !tells_start(t) && !tells_end(t),
{
    if let Some(t) = event.text_at(key) {
        law_held_text_is_read(event, key, t);
    }
}

proof fn lemma_verdict(event: JsonView)
    ensures
        ({
            let (a, b, c) = ("subtype"@, "status"@, "phase"@);
            &&& tells_nothing(event, a) ==> status_verdict(event, status_keys()) == status_verdict(
                event,
                seq![b, c],
            )
            &&& tells_nothing(event, b) ==> status_verdict(event, seq![b, c]) == status_verdict(
                event,
                seq![c],
            )
            &&& tells_nothing(event, c) ==> status_verdict(event, seq![c]) is None
        }),
{
    let (a, b, c) = ("subtype"@, "status"@, "phase"@);
    assert(status_keys().drop_first() =~= seq![b, c]);
    assert(seq![b, c].drop_first() =~= seq![c]);
    assert(seq![c].drop_first() =~= seq![]);
    assert(status_verdict(event, seq![]) is None);
    if tells_nothing(event, a) {
        lemma_tells_nothing(event, a);
    }
    if tells_nothing(event, b) {
        lemma_tells_nothing(event, b);
    }
    if tells_nothing(event, c) {
        lemma_tells_nothing(event, c);
    }
}

/// The first of `subtype`, `status` and `phase` that tells of begin or end decides: one that
/// tells of a begin says that the call has not ended, whatever else it tells.
pub proof fn law_first_status_decides(event: JsonView, status: Seq<char>)
    requires
        tells_start(status) || tells_end(status),
        ({
            ||| holds_text(event, "subtype"@, status)
            ||| tells_nothing(event, "subtype"@) && holds_text(event, "status"@, status)
            ||| tells_nothing(event, "subtype"@) && tells_nothing(event, "status"@) && holds_text(
                event,
                "phase"@,
                status,
            )
        }),
    ensures
        is_completion(event) == !tells_start(status),
{
    lemma_verdict(event);
    let (a, b, c) = ("subtype"@, "status"@, "phase"@);
    if holds_text(event, a, status) {
        law_held_text_is_read(event, a, status);
    } else if tells_nothing(event, a) && holds_text(event, b, status) {
        law_held_text_is_read(event, b, status);
        assert(seq![b, c][0] == b);
    } else {
        law_held_text_is_read(event, c, status);
        assert(seq![c][0] == c);
    }
}

/// Where no status tells of begin or end, an event reports an end exactly where it has an output
/// or a result and no input.
pub proof fn law_outcome_decides(event: JsonView)
    requires
        tells_nothing(event, "subtype"@),
        tells_nothing(event, "status"@),
        tells_nothing(event, "phase"@),
    ensures
        is_completion(event) == ((!lacks(event, "output"@) || !lacks(event, "result"@)) && lacks(
            event,
            "input"@,
        ) && lacks(event, "args"@) && lacks(event, "arguments"@)),
{
    lemma_verdict(event);
    law_nothing_held_nothing_read(event, "output"@);
    law_nothing_held_nothing_read(event, "result"@);
    law_nothing_held_nothing_read(event, "input"@);
    law_nothing_held_nothing_read(event, "args"@);
    law_nothing_held_nothing_read(event, "arguments"@);
}

// Streaming
/// A tool call event that reports no end and names a tool is streamed as it is: after the end of
/// the text, a block that starts with exactly the id, the name and the input of the call and is
/// closed at once; unless a call with that id has been streamed before.
pub proof fn law_tool_call_is_streamed(
    s: StreamState,
    event: JsonView,
    name: Seq<char>,
    id: Seq<char>,
    value: JsonView,
)
    requires
        s.index >= 0,
        holds_text(event, "type"@, "tool_call"@),
        !is_completion(event),
        names_tool(event, name),
        has_id(event, index_after(s), id),
        event_gives(event, value) || (gives_no_input(event) && value == JsonView::Null),
    ensures
        !s.seen.contains(id) ==> event_step(s, event).items == text_ended(s) + seq![
            SseItem::BlockStart {
                index: index_after(s),
                block: JsonView::Object(
                    map![
                        "type"@ => JsonView::Text("tool_use"@),
                        "id"@ => JsonView::Text(id),
                        "name"@ => JsonView::Text(name),
                        "input"@ => as_input(value),
                    ],
                ),
            },
            SseItem::BlockStop { index: index_after(s) },
        ],
        !s.seen.contains(id) ==> event_step(s, event).state == (StreamState {
            index: index_after(s) + 1,
            open: false,
            texts: TextState::fresh(),
            seen: s.seen.insert(id),
            ..s
        }),
        s.seen.contains(id) ==> event_step(s, event).items == text_ended(s),
        s.seen.contains(id) ==> event_step(s, event).state == (StreamState {
            index: index_after(s),
            open: false,
            texts: TextState::fresh(),
            ..s
        }),
{
    law_held_text_is_read(event, "type"@, "tool_call"@);
    lemma_type_words();
    law_ended_text(s);
    law_call_name(event, name);
    law_call_id(event, index_after(s), id);
    law_call_input(event, value);
    if gives_no_input(event) {
        law_input_is_kept(JsonView::Null, JsonView::Null);
    }
    if s.seen.contains(id) {
        assert(event_step(s, event).items =~= text_ended(s));
    }
}

/// A report that a call has ended, and an event that names no tool, end the text and send no
/// block.
pub proof fn law_other_calls_are_not_streamed(s: StreamState, event: JsonView)
    requires
        holds_text(event, "type"@, "tool_call"@),
        is_completion(event) || names_no_tool(event),
    ensures
        event_step(s, event).items == text_ended(s),
        event_step(s, event).state == (StreamState {
            index: index_after(s),
            open: false,
            texts: TextState::fresh(),
            ..s
        }),
{
    law_held_text_is_read(event, "type"@, "tool_call"@);
    lemma_type_words();
    law_ended_text(s);
    law_call_name(event, seq![]);
    assert(event_step(s, event).items =~= text_ended(s));
}

} // verus!
