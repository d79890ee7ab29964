//! Tool calls as the agent reports them, in whichever of several shapes, and the block that
//! each becomes for the client.

use vstd::hash_set::StringHashSet;
use vstd::prelude::*;
use vstd::string::*;

use crate::json::{parsed_json, Json, JsonView};
use crate::sse::{emit_tool_use, items_bytes, tool_items, SseItem};
use crate::text::{ascii_lowered, contains, decimal, has, to_ascii_lower, to_decimal};

verus! {

// Fields
/// The names in a list, as the contracts speak of them.
pub open spec fn names(keys: Seq<&str>) -> Seq<Seq<char>> {
    keys.map_values(|k: &str| k@)
}

/// The text under the first of the keys that has one.
pub open spec fn first_text(event: JsonView, keys: Seq<Seq<char>>) -> Option<Seq<char>>
    decreases keys.len(),
{
    if keys.len() == 0 {
        None
    } else {
        match event.text_at(keys[0]) {
            Some(s) => Some(s),
            None => first_text(event, keys.drop_first()),
        }
    }
}

/// The text under the first of the child keys that has one, in the first of the parents in
/// which there is one.
pub open spec fn first_nested_text(
    event: JsonView,
    parents: Seq<Seq<char>>,
    children: Seq<Seq<char>>,
) -> Option<Seq<char>>
    decreases parents.len(),
{
    if parents.len() == 0 {
        None
    } else {
        match first_text(event.at(parents[0]), children) {
            Some(s) => Some(s),
            None => first_nested_text(event, parents.drop_first(), children),
        }
    }
}

/// The value under the first of the keys that is there.
pub open spec fn first_member(event: JsonView, keys: Seq<Seq<char>>) -> Option<JsonView>
    decreases keys.len(),
{
    if keys.len() == 0 {
        None
    } else {
        match event.get(keys[0]) {
            Some(value) => Some(value),
            None => first_member(event, keys.drop_first()),
        }
    }
}

/// The text under the first of the keys that has one.
pub fn str_field<'a>(event: &'a Json, keys: &[&str]) -> (found: Option<&'a str>)
    ensures
        match found {
            Some(s) => first_text(event@, names(keys@)) == Some(s@),
            None => first_text(event@, names(keys@)) is None,
        },
{
    let ghost all = names(keys@);
    let mut i: usize = 0;
    assert(all.skip(0) =~= all);
    while i < keys.len()
        invariant
            i <= keys@.len(),
            all == names(keys@),
            first_text(event@, all) == first_text(event@, all.skip(i as int)),
        decreases keys@.len() - i,
    {
        assert(all.skip(i as int).drop_first() =~= all.skip(i + 1));
        match event.str_at(keys[i]) {
            Some(s) => {
                return Some(s);
            },
            None => {},
        }
        i = i + 1;
    }
    None
}

/// A document in which nothing is found.
proof fn lemma_null_has_no_text(keys: Seq<Seq<char>>)
    ensures
        first_text(JsonView::Null, keys) is None,
    decreases keys.len(),
{
    if keys.len() > 0 {
        lemma_null_has_no_text(keys.drop_first());
    }
}

/// The text under the first of the child keys that has one, in the first of the parents in
/// which there is one.
pub fn nested_str_field<'a>(event: &'a Json, parent_keys: &[&str], child_keys: &[&str]) -> (found:
    Option<&'a str>)
    ensures
        match found {
            Some(s) => first_nested_text(event@, names(parent_keys@), names(child_keys@)) == Some(
                s@,
            ),
            None => first_nested_text(event@, names(parent_keys@), names(child_keys@)) is None,
        },
{
    let ghost all = names(parent_keys@);
    let ghost children = names(child_keys@);
    let mut i: usize = 0;
    assert(all.skip(0) =~= all);
    while i < parent_keys.len()
        invariant
            i <= parent_keys@.len(),
            all == names(parent_keys@),
            children == names(child_keys@),
            first_nested_text(event@, all, children) == first_nested_text(
                event@,
                all.skip(i as int),
                children,
            ),
        decreases parent_keys@.len() - i,
    {
        proof {
            assert(all.skip(i as int).drop_first() =~= all.skip(i + 1));
            lemma_null_has_no_text(children);
        }
        match event.get(parent_keys[i]) {
            Some(obj) => match str_field(obj, child_keys) {
                Some(s) => {
                    return Some(s);
                },
                None => {},
            },
            None => {},
        }
        i = i + 1;
    }
    None
}

/// The value under the first of the keys that is there.
pub fn member_field<'a>(event: &'a Json, keys: &[&str]) -> (found: Option<&'a Json>)
    ensures
        match found {
            Some(value) => first_member(event@, names(keys@)) == Some(value@),
            None => first_member(event@, names(keys@)) is None,
        },
{
    let ghost all = names(keys@);
    let mut i: usize = 0;
    assert(all.skip(0) =~= all);
    while i < keys.len()
        invariant
            i <= keys@.len(),
            all == names(keys@),
            first_member(event@, all) == first_member(event@, all.skip(i as int)),
        decreases keys@.len() - i,
    {
        assert(all.skip(i as int).drop_first() =~= all.skip(i + 1));
        match event.get(keys[i]) {
            Some(value) => {
                return Some(value);
            },
            None => {},
        }
        i = i + 1;
    }
    None
}

// Identity and name
/// The keys under which a tool call gives its id.
pub open spec fn id_keys() -> Seq<Seq<char>> {
    seq!["id"@, "call_id"@, "tool_call_id"@]
}

/// The keys under which a tool call gives the name of the tool.
pub open spec fn name_keys() -> Seq<Seq<char>> {
    seq!["name"@, "tool_name"@]
}

/// The keys under which an event nests a tool call.
pub open spec fn call_keys() -> Seq<Seq<char>> {
    seq!["tool_call"@, "toolCall"@]
}

/// The keys under which a tool call gives its input.
pub open spec fn input_keys() -> Seq<Seq<char>> {
    seq!["input"@, "args"@, "arguments"@]
}

/// The text under the keys in the event itself or else in the call nested in it.
pub open spec fn call_text(event: JsonView, keys: Seq<Seq<char>>) -> Option<Seq<char>> {
    match first_text(event, keys) {
        Some(s) => Some(s),
        None => first_nested_text(event, call_keys(), keys),
    }
}

/// The id made for a tool call that has none.
pub open spec fn made_up_id(index: int) -> Seq<char> {
    if index < 0 {
        "toolu_-"@ + decimal(-index)
    } else {
        "toolu_"@ + decimal(index)
    }
}

/// The id of a tool call: its own, or one made from the block's index.
pub open spec fn call_id(event: JsonView, index: int) -> Seq<char> {
    match call_text(event, id_keys()) {
        Some(id) => id,
        None => made_up_id(index),
    }
}

/// The id made for a tool call that has none.
pub fn fallback_id(index: i32) -> (id: String)
    ensures
        id@ == made_up_id(index as int),
{
    let mut id = String::new();
    if index < 0 {
        id.append("toolu_-");
        id.append(to_decimal((-(index as i64)) as u64).as_str());
    } else {
        id.append("toolu_");
        id.append(to_decimal(index as u64).as_str());
    }
    assert(id@ =~= made_up_id(index as int));
    id
}

/// The id of a tool call: its own, or one made from the block's index.
pub fn tool_call_id(event: &Json, index: i32) -> (id: String)
    ensures
        id@ == call_id(event@, index as int),
{
    let keys: [&str; 3] = ["id", "call_id", "tool_call_id"];
    let parents: [&str; 2] = ["tool_call", "toolCall"];
    assert(names(keys@) =~= id_keys());
    assert(names(parents@) =~= call_keys());
    match str_field(event, &keys) {
        Some(id) => id.to_owned(),
        None => match nested_str_field(event, &parents, &keys) {
            Some(id) => id.to_owned(),
            None => fallback_id(index),
        },
    }
}

/// The name of the tool that is called, where the event gives one.
pub fn tool_call_name(event: &Json) -> (name: Option<&str>)
    ensures
        match name {
            Some(s) => call_text(event@, name_keys()) == Some(s@),
            None => call_text(event@, name_keys()) is None,
        },
{
    let keys: [&str; 2] = ["name", "tool_name"];
    let parents: [&str; 2] = ["tool_call", "toolCall"];
    assert(names(keys@) =~= name_keys());
    assert(names(parents@) =~= call_keys());
    match str_field(event, &keys) {
        Some(name) => Some(name),
        None => nested_str_field(event, &parents, &keys),
    }
}

// Input
/// An object with the one member `input`.
pub open spec fn wrapped(value: JsonView) -> JsonView {
    JsonView::Object(map!["input"@ => value])
}

/// The input of a tool call as an object: an object is its own; a text that spells an object
/// is that object; nothing is the empty object; anything else is wrapped in one.
pub open spec fn as_input(value: JsonView) -> JsonView {
    match value {
        JsonView::Object(_) => value,
        JsonView::Text(s) => match parsed_json(s) {
            Some(JsonView::Object(members)) => JsonView::Object(members),
            _ => wrapped(value),
        },
        JsonView::Null => JsonView::Object(map![]),
        _ => wrapped(value),
    }
}

/// The input of a tool call as an object, once its text, if it is one, has been read.
pub fn input_of_parsed(value: &Json, parsed: Option<Json>) -> (input: Json)
    ensures
        input@ == (match value@ {
            JsonView::Object(_) => value@,
            JsonView::Text(_) => match parsed {
                Some(json) if json@ is Object => json@,
                _ => wrapped(value@),
            },
            JsonView::Null => JsonView::Object(map![]),
            _ => wrapped(value@),
        }),
{
    match value {
        Json::Object(_) => value.clone(),
        Json::Text(_) => match parsed {
            Some(Json::Object(entries)) => Json::Object(entries),
            _ => Json::object().with("input", value.clone()),
        },
        Json::Null => Json::object(),
        _ => Json::object().with("input", value.clone()),
    }
}

/// The input of a tool call as an object.
pub fn object_or_wrapped_input(value: &Json) -> (input: Json)
    ensures
        input@ == as_input(value@),
{
    let parsed = match value {
        Json::Text(s) => Json::parse(s.as_str()),
        _ => None,
    };
    input_of_parsed(value, parsed)
}

/// The first member under an input key of the first parent that has one.
pub open spec fn first_nested_member(
    event: JsonView,
    parents: Seq<Seq<char>>,
    keys: Seq<Seq<char>>,
) -> Option<JsonView>
    decreases parents.len(),
{
    if parents.len() == 0 {
        None
    } else {
        match first_member(event.at(parents[0]), keys) {
            Some(value) => Some(value),
            None => first_nested_member(event, parents.drop_first(), keys),
        }
    }
}

/// The input of a tool call: what stands under the first input key that is there, in the event
/// itself or else in the call nested in it, as an object.
pub open spec fn call_input(event: JsonView) -> JsonView {
    match first_member(event, input_keys()) {
        Some(value) => as_input(value),
        None => match first_nested_member(event, call_keys(), input_keys()) {
            Some(value) => as_input(value),
            None => JsonView::Object(map![]),
        },
    }
}

proof fn lemma_null_has_no_member(keys: Seq<Seq<char>>)
    ensures
        first_member(JsonView::Null, keys) is None,
    decreases keys.len(),
{
    if keys.len() > 0 {
        lemma_null_has_no_member(keys.drop_first());
    }
}

/// The input of a tool call.
pub fn tool_call_input(event: &Json) -> (input: Json)
    ensures
        input@ == call_input(event@),
{
    let keys: [&str; 3] = ["input", "args", "arguments"];
    let parents: [&str; 2] = ["tool_call", "toolCall"];
    assert(names(keys@) =~= input_keys());
    match member_field(event, &keys) {
        Some(value) => {
            return object_or_wrapped_input(value);
        },
        None => {},
    }
    let ghost all = call_keys();
    assert(names(parents@) =~= all);
    assert(all.skip(0) =~= all);
    let mut i: usize = 0;
    while i < 2
        invariant
            i <= 2,
            all == call_keys(),
            names(parents@) == all,
            names(keys@) == input_keys(),
            first_member(event@, input_keys()) is None,
            first_nested_member(event@, all, input_keys()) == first_nested_member(
                event@,
                all.skip(i as int),
                input_keys(),
            ),
        decreases 2 - i,
    {
        proof {
            assert(all.skip(i as int).drop_first() =~= all.skip(i + 1));
            assert(names(parents@)[i as int] == parents@[i as int]@);
            lemma_null_has_no_member(input_keys());
        }
        match event.get(parents[i]) {
            Some(obj) => match member_field(obj, &keys) {
                Some(value) => {
                    return object_or_wrapped_input(value);
                },
                None => {},
            },
            None => {},
        }
        i = i + 1;
    }
    Json::object()
}

// Completion
/// A status word says that a call has ended.
pub open spec fn says_ended(word: Seq<char>) -> bool {
    ||| contains(word, "complete"@)
    ||| contains(word, "finish"@)
    ||| contains(word, "success"@)
    ||| contains(word, "error"@)
    ||| contains(word, "fail"@)
    ||| contains(word, "result"@)
}

/// What the first of the status fields that says anything of start or end says of it.
pub open spec fn status_verdict(event: JsonView, keys: Seq<Seq<char>>) -> Option<bool>
    decreases keys.len(),
{
    if keys.len() == 0 {
        None
    } else {
        match event.text_at(keys[0]) {
            Some(status) => {
                let word = ascii_lowered(status);
                if contains(word, "start"@) {
                    Some(false)
                } else if says_ended(word) {
                    Some(true)
                } else {
                    status_verdict(event, keys.drop_first())
                }
            },
            None => status_verdict(event, keys.drop_first()),
        }
    }
}

/// The keys under which an event tells how far a tool call has come.
pub open spec fn status_keys() -> Seq<Seq<char>> {
    seq!["subtype"@, "status"@, "phase"@]
}

/// The event reports the end of a tool call: its status says so, or, where no status says
/// anything, it has an outcome and no input.
pub open spec fn is_completion(event: JsonView) -> bool {
    match status_verdict(event, status_keys()) {
        Some(ended) => ended,
        None => (event.get("output"@) is Some || event.get("result"@) is Some) && event.get(
            "input"@,
        ) is None && event.get("args"@) is None && event.get("arguments"@) is None,
    }
}

/// Whether the event reports the end of a tool call.
pub fn tool_call_is_completion(event: &Json) -> (ended: bool)
    ensures
        ended == is_completion(event@),
{
    let keys: [&str; 3] = ["subtype", "status", "phase"];
    let ghost all = status_keys();
    assert(names(keys@) =~= all);
    assert(all.skip(0) =~= all);
    let mut i: usize = 0;
    while i < 3
        invariant
            i <= 3,
            all == status_keys(),
            names(keys@) == all,
            status_verdict(event@, all) == status_verdict(event@, all.skip(i as int)),
        decreases 3 - i,
    {
        assert(all.skip(i as int).drop_first() =~= all.skip(i + 1));
        assert(names(keys@)[i as int] == keys@[i as int]@);
        match event.str_at(keys[i]) {
            Some(status) => {
                let word = to_ascii_lower(status);
                if has(&word, "start") {
                    return false;
                }
                if has(&word, "complete") || has(&word, "finish") || has(&word, "success") || has(
                    &word,
                    "error",
                ) || has(&word, "fail") || has(&word, "result") {
                    return true;
                }
            },
            None => {},
        }
        i = i + 1;
    }
    (event.get("output").is_some() || event.get("result").is_some()) && event.get(
        "input",
    ).is_none() && event.get("args").is_none() && event.get("arguments").is_none()
}

// Emitting
/// The ids of the tool calls that a turn has emitted.
pub struct ToolIds {
    ids: StringHashSet,
}

impl View for ToolIds {
    type V = Set<Seq<char>>;

    closed spec fn view(&self) -> Set<Seq<char>> {
        self.ids@
    }
}

impl ToolIds {
    /// No ids.
    pub fn new() -> (ids: ToolIds)
        ensures
            ids@ == Set::<Seq<char>>::empty(),
    {
        ToolIds { ids: StringHashSet::new() }
    }

    /// Adds an id and says whether it was new.
    pub fn insert(&mut self, id: &str) -> (new: bool)
        ensures
            new == !old(self)@.contains(id@),
            final(self)@ == old(self)@.insert(id@),
    {
        self.ids.insert(id.to_owned())
    }
}

/// A tool call event becomes a block: it is no report of an end, names a tool, and has an id
/// that has not been emitted.
pub open spec fn emits_call(event: JsonView, index: int, seen: Set<Seq<char>>) -> bool {
    &&& !is_completion(event)
    &&& call_text(event, name_keys()) is Some
    &&& !seen.contains(call_id(event, index))
}

/// What a tool call event emits.
pub open spec fn call_items(event: JsonView, index: int, seen: Set<Seq<char>>) -> Seq<SseItem> {
    if emits_call(event, index, seen) {
        tool_items(
            index,
            call_id(event, index),
            call_text(event, name_keys())->0,
            call_input(event),
        )
    } else {
        seq![]
    }
}

/// The ids emitted after a tool call event.
pub open spec fn seen_after(event: JsonView, index: int, seen: Set<Seq<char>>) -> Set<Seq<char>> {
    if emits_call(event, index, seen) {
        seen.insert(call_id(event, index))
    } else {
        seen
    }
}

/// Emits the block of a tool call event, where it becomes one, and says whether it did.
pub fn emit_tool_call(
    stream: &mut Vec<u8>,
    event: &Json,
    index: i32,
    seen_tool_ids: &mut ToolIds,
) -> (emitted: bool)
    ensures
        emitted == emits_call(event@, index as int, old(seen_tool_ids)@),
        final(stream)@ == old(stream)@ + items_bytes(
            call_items(event@, index as int, old(seen_tool_ids)@),
        ),
        final(seen_tool_ids)@ == seen_after(event@, index as int, old(seen_tool_ids)@),
{
    assert(stream@ + items_bytes(seq![]) =~= stream@);
    if tool_call_is_completion(event) {
        return false;
    }
    match tool_call_name(event) {
        None => false,
        Some(name) => {
            let tool_id = tool_call_id(event, index);
            if !seen_tool_ids.insert(tool_id.as_str()) {
                assert(seen_tool_ids@ =~= old(seen_tool_ids)@);
                return false;
            }
            emit_tool_use(stream, index, tool_id.as_str(), name, tool_call_input(event));
            true
        },
    }
}

// Laws
/// A report that a tool call has ended emits nothing and is not remembered.
pub proof fn law_completion_is_silent(event: JsonView, index: int, seen: Set<Seq<char>>)
    requires
        is_completion(event),
    ensures
        call_items(event, index, seen) == Seq::<SseItem>::empty(),
        seen_after(event, index, seen) == seen,
{
}

/// A tool call is emitted once: after one with its id has been emitted, another with the same
/// id emits nothing, at whatever index.
pub proof fn law_call_is_emitted_once(
    first: JsonView,
    at: int,
    second: JsonView,
    later: int,
    seen: Set<Seq<char>>,
)
    requires
        emits_call(first, at, seen),
        call_id(second, later) == call_id(first, at),
    ensures
        call_items(second, later, seen_after(first, at, seen)) == Seq::<SseItem>::empty(),
{
}

/// The input of an emitted tool call is always an object.
pub proof fn law_input_is_an_object(event: JsonView)
    ensures
        call_input(event) is Object,
{
}

} // verus!
