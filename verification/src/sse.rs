//! Server-sent events: the bytes in which a reply is streamed to the client.
//!
//! A client gathers a content block from its start and all its deltas, so a start is always
//! empty and only deltas carry content.

use vstd::prelude::*;
use vstd::string::*;
use vstd::utf8::encode_utf8;

use crate::json::{json_text, number_of, Json, JsonView};
use crate::text::{after, before, find_from, lemma_find_from_is, lemma_first_index, occurs_at};

verus! {

/// One item of an event stream.
pub enum SseItem {
    /// The start of a content block.
    BlockStart { index: int, block: JsonView },
    /// A piece of a content block.
    BlockDelta { index: int, delta: JsonView },
    /// The end of a content block.
    BlockStop { index: int },
    /// Any other event.
    Event { name: Seq<char>, data: JsonView },
    /// The mark that ends the stream.
    Done,
}

/// The text of a named event: its data stands on one line, and a blank line closes it.
pub open spec fn event_text(name: Seq<char>, json: Seq<char>) -> Seq<char> {
    "event: "@ + name + "\ndata: "@ + json + "\n\n"@
}

/// The data of an event about a content block.
pub open spec fn block_data(name: Seq<char>, index: int) -> Map<Seq<char>, JsonView> {
    map!["type"@ => JsonView::Text(name), "index"@ => JsonView::Number(number_of(index))]
}

/// The text of an item.
pub open spec fn item_text(item: SseItem) -> Seq<char> {
    match item {
        SseItem::BlockStart { index, block } => event_text(
            "content_block_start"@,
            json_text(
                JsonView::Object(
                    block_data("content_block_start"@, index).insert("content_block"@, block),
                ),
            ),
        ),
        SseItem::BlockDelta { index, delta } => event_text(
            "content_block_delta"@,
            json_text(
                JsonView::Object(block_data("content_block_delta"@, index).insert("delta"@, delta)),
            ),
        ),
        SseItem::BlockStop { index } => event_text(
            "content_block_stop"@,
            json_text(JsonView::Object(block_data("content_block_stop"@, index))),
        ),
        SseItem::Event { name, data } => event_text(name, json_text(data)),
        SseItem::Done => "data: [DONE]\n\n"@,
    }
}

/// The bytes of items, one after the other.
pub open spec fn items_bytes(items: Seq<SseItem>) -> Seq<u8>
    decreases items.len(),
{
    if items.len() == 0 {
        seq![]
    } else {
        items_bytes(items.drop_last()) + encode_utf8(item_text(items.last()))
    }
}

/// The bytes of two runs of items are those of the first and then those of the second.
pub proof fn lemma_items_bytes_add(a: Seq<SseItem>, b: Seq<SseItem>)
    ensures
        items_bytes(a + b) == items_bytes(a) + items_bytes(b),
    decreases b.len(),
{
    if b.len() == 0 {
        assert(a + b =~= a);
        assert(items_bytes(a) + items_bytes(b) =~= items_bytes(a));
    } else {
        lemma_items_bytes_add(a, b.drop_last());
        assert((a + b).drop_last() =~= a + b.drop_last());
        assert(items_bytes(a + b) =~= items_bytes(a) + items_bytes(b));
    }
}

/// The bytes of one item.
pub proof fn lemma_items_bytes_one(item: SseItem)
    ensures
        items_bytes(seq![item]) == encode_utf8(item_text(item)),
{
    assert(seq![item].drop_last() =~= seq![]);
    assert(items_bytes(seq![item].drop_last()) == Seq::<u8>::empty());
    assert(items_bytes(seq![item]) =~= encode_utf8(item_text(item)));
}

/// Appends the bytes of a string.
pub fn push_bytes(stream: &mut Vec<u8>, s: &str)
    ensures
        final(stream)@ == old(stream)@ + encode_utf8(s@),
{
    stream.extend_from_slice(s.as_bytes());
    assert(stream@ =~= old(stream)@ + encode_utf8(s@));
}

/// The text of a named event, once its data has been written as JSON.
pub fn sse_frame(event_type: &str, json: &str) -> (text: String)
    ensures
        text@ == event_text(event_type@, json@),
{
    let mut text = String::new();
    text.append("event: ");
    text.append(event_type);
    text.append("\ndata: ");
    text.append(json);
    text.append("\n\n");
    assert(text@ =~= event_text(event_type@, json@));
    text
}

/// Appends a named event.
pub fn write_sse(stream: &mut Vec<u8>, event_type: &str, data: &Json)
    ensures
        final(stream)@ == old(stream)@ + encode_utf8(event_text(event_type@, json_text(data@))),
        final(stream)@ == old(stream)@ + items_bytes(
            seq![SseItem::Event { name: event_type@, data: data@ }],
        ),
        !json_text(data@).contains('\n'),
        !json_text(data@).contains('\r'),
{
    let json = data.to_text();
    let text = sse_frame(event_type, json.as_str());
    push_bytes(stream, text.as_str());
    proof {
        lemma_items_bytes_one(SseItem::Event { name: event_type@, data: data@ });
    }
}

/// Appends the mark that ends the stream.
pub fn write_done(stream: &mut Vec<u8>)
    ensures
        final(stream)@ == old(stream)@ + items_bytes(seq![SseItem::Done]),
{
    push_bytes(stream, "data: [DONE]\n\n");
    proof {
        lemma_items_bytes_one(SseItem::Done);
    }
}

// Content blocks
/// An object with a type and one text.
pub open spec fn typed_text(kind: Seq<char>, key: Seq<char>, text: Seq<char>) -> JsonView {
    JsonView::Object(map!["type"@ => JsonView::Text(kind), key => JsonView::Text(text)])
}

/// The content block of a tool call.
pub open spec fn tool_block(id: Seq<char>, name: Seq<char>, input: JsonView) -> JsonView {
    JsonView::Object(
        map![
            "type"@ => JsonView::Text("tool_use"@),
            "id"@ => JsonView::Text(id),
            "name"@ => JsonView::Text(name),
            "input"@ => input,
        ],
    )
}

/// An object with a type and one text.
pub fn typed_text_json(kind: &str, key: &str, text: &str) -> (json: Json)
    ensures
        json@ == typed_text(kind@, key@, text@),
{
    Json::object().with("type", Json::of_str(kind)).with(key, Json::of_str(text))
}

fn write_block_start(stream: &mut Vec<u8>, index: i32, block: Json)
    ensures
        final(stream)@ == old(stream)@ + items_bytes(
            seq![SseItem::BlockStart { index: index as int, block: block@ }],
        ),
{
    let data = Json::object().with("type", Json::of_str("content_block_start")).with(
        "index",
        Json::integer(index as i128),
    ).with("content_block", block);
    write_sse(stream, "content_block_start", &data);
    proof {
        lemma_items_bytes_one(SseItem::BlockStart { index: index as int, block: block@ });
    }
}

fn write_block_delta(stream: &mut Vec<u8>, index: i32, delta: Json)
    ensures
        final(stream)@ == old(stream)@ + items_bytes(
            seq![SseItem::BlockDelta { index: index as int, delta: delta@ }],
        ),
{
    let data = Json::object().with("type", Json::of_str("content_block_delta")).with(
        "index",
        Json::integer(index as i128),
    ).with("delta", delta);
    write_sse(stream, "content_block_delta", &data);
    proof {
        lemma_items_bytes_one(SseItem::BlockDelta { index: index as int, delta: delta@ });
    }
}

fn write_block_stop(stream: &mut Vec<u8>, index: i32)
    ensures
        final(stream)@ == old(stream)@ + items_bytes(
            seq![SseItem::BlockStop { index: index as int }],
        ),
{
    let data = Json::object().with("type", Json::of_str("content_block_stop")).with(
        "index",
        Json::integer(index as i128),
    );
    write_sse(stream, "content_block_stop", &data);
    proof {
        lemma_items_bytes_one(SseItem::BlockStop { index: index as int });
    }
}

// Emitting
/// What appending text to the open block emits: nothing for no text; otherwise a delta, after a
/// start where no block is open.
pub open spec fn text_items(text: Seq<char>, index: int, open: bool) -> Seq<SseItem> {
    let delta = SseItem::BlockDelta { index, delta: typed_text("text_delta"@, "text"@, text) };
    if text.len() == 0 {
        seq![]
    } else if open {
        seq![delta]
    } else {
        seq![SseItem::BlockStart { index, block: typed_text("text"@, "text"@, ""@) }, delta]
    }
}

/// Appends text to the open block, opening one first where none is open.
pub fn emit_text(stream: &mut Vec<u8>, text: &str, index: i32, block_open: &mut bool)
    ensures
        final(stream)@ == old(stream)@ + items_bytes(
            text_items(text@, index as int, *old(block_open)),
        ),
        *final(block_open) == (*old(block_open) || text@.len() > 0),
{
    if text.is_empty() {
        assert(stream@ =~= old(stream)@ + items_bytes(seq![]));
        return;
    }
    let ghost delta = SseItem::BlockDelta {
        index: index as int,
        delta: typed_text("text_delta"@, "text"@, text@),
    };
    let ghost start = SseItem::BlockStart {
        index: index as int,
        block: typed_text("text"@, "text"@, ""@),
    };
    if !*block_open {
        write_block_start(stream, index, typed_text_json("text", "text", ""));
        *block_open = true;
    }
    write_block_delta(stream, index, typed_text_json("text_delta", "text", text));
    proof {
        lemma_items_bytes_add(seq![start], seq![delta]);
        assert(seq![start] + seq![delta] =~= seq![start, delta]);
        assert(stream@ =~= old(stream)@ + items_bytes(
            text_items(text@, index as int, *old(block_open)),
        ));
    }
}

/// What a block of reasoning emits: nothing for none; otherwise a block of its own, complete.
pub open spec fn thinking_items(thinking: Seq<char>, index: int) -> Seq<SseItem> {
    if thinking.len() == 0 {
        seq![]
    } else {
        seq![
            SseItem::BlockStart { index, block: typed_text("thinking"@, "thinking"@, ""@) },
            SseItem::BlockDelta {
                index,
                delta: typed_text("thinking_delta"@, "thinking"@, thinking),
            },
            SseItem::BlockStop { index },
        ]
    }
}

/// Emits a complete block of private reasoning.
pub fn emit_thinking(stream: &mut Vec<u8>, thinking: &str, index: i32)
    ensures
        final(stream)@ == old(stream)@ + items_bytes(thinking_items(thinking@, index as int)),
{
    if thinking.is_empty() {
        assert(stream@ =~= old(stream)@ + items_bytes(seq![]));
        return;
    }
    write_block_start(stream, index, typed_text_json("thinking", "thinking", ""));
    write_block_delta(stream, index, typed_text_json("thinking_delta", "thinking", thinking));
    write_block_stop(stream, index);
    proof {
        let items = thinking_items(thinking@, index as int);
        let (a, b, c) = (items[0], items[1], items[2]);
        lemma_items_bytes_add(seq![a], seq![b]);
        lemma_items_bytes_add(seq![a] + seq![b], seq![c]);
        assert(seq![a] + seq![b] + seq![c] =~= seq![a, b, c]);
        assert(stream@ =~= old(stream)@ + items_bytes(thinking_items(thinking@, index as int)));
    }
}

/// What closing the text block emits.
pub open spec fn close_items(index: int, open: bool) -> Seq<SseItem> {
    if open {
        seq![SseItem::BlockStop { index }]
    } else {
        seq![]
    }
}

/// Closes the text block, where one is open, and says whether one was.
pub fn close_text_block(stream: &mut Vec<u8>, index: i32, block_open: &mut bool) -> (closed: bool)
    ensures
        closed == *old(block_open),
        !*final(block_open),
        final(stream)@ == old(stream)@ + items_bytes(close_items(index as int, *old(block_open))),
{
    if !*block_open {
        assert(stream@ =~= old(stream)@ + items_bytes(seq![]));
        return false;
    }
    write_block_stop(stream, index);
    *block_open = false;
    true
}

/// What a tool call emits: a block that is complete at once.
pub open spec fn tool_items(
    index: int,
    id: Seq<char>,
    name: Seq<char>,
    input: JsonView,
) -> Seq<SseItem> {
    seq![
        SseItem::BlockStart { index, block: tool_block(id, name, input) },
        SseItem::BlockStop { index },
    ]
}

/// Emits a complete tool call.
pub fn emit_tool_use(stream: &mut Vec<u8>, index: i32, tool_id: &str, name: &str, input: Json)
    ensures
        final(stream)@ == old(stream)@ + items_bytes(
            tool_items(index as int, tool_id@, name@, input@),
        ),
{
    let block = Json::object().with("type", Json::of_str("tool_use")).with(
        "id",
        Json::of_str(tool_id),
    ).with("name", Json::of_str(name)).with("input", input);
    write_block_start(stream, index, block);
    write_block_stop(stream, index);
    proof {
        let items = tool_items(index as int, tool_id@, name@, input@);
        let (a, b) = (items[0], items[1]);
        lemma_items_bytes_add(seq![a], seq![b]);
        assert(seq![a] + seq![b] =~= seq![a, b]);
        assert(stream@ =~= old(stream)@ + items_bytes(
            tool_items(index as int, tool_id@, name@, input@),
        ));
    }
}

// Laws
/// An event reaches the client whole: read line by line, its text gives back the name and then
/// the JSON, and the first blank line in it is the one that closes it.
pub proof fn law_event_is_one(name: Seq<char>, json: Seq<char>)
    requires
        !name.contains('\n'),
        !json.contains('\n'),
    ensures
        before(event_text(name, json), '\n') == "event: "@ + name,
        ({
            let rest = after(event_text(name, json), '\n');
            rest is Some && before(rest->0, '\n') == "data: "@ + json
        }),
        find_from(event_text(name, json), "\n\n"@, 0) == Some(
            event_text(name, json).len() - 2,
        ),
{
    reveal_strlit("event: ");
    reveal_strlit("\ndata: ");
    reveal_strlit("data: ");
    reveal_strlit("\n\n");
    let t = event_text(name, json);
    let size = json.len() as int;
    let first = 7 + name.len() as int;
    let second = first + 7 + size;
    assert(t.len() == second + 2);
    assert forall|j: int| 0 <= j < first implies t[j] != '\n' by {
        if j >= 7 {
            assert(t[j] == name[j - 7]);
        }
    }
    assert(t[first] == '\n');
    assert forall|j: int| first < j < second implies t[j] != '\n' by {
        if j >= first + 7 {
            assert(t[j] == json[j - first - 7]);
        }
    }
    assert(t[second] == '\n' && t[second + 1] == '\n');
    lemma_first_index(t, '\n', first);
    assert(before(t, '\n') =~= "event: "@ + name);
    let rest = t.skip(first + 1);
    assert forall|j: int| 0 <= j < 6 + size implies rest[j] != '\n' by {
        assert(rest[j] == t[first + 1 + j]);
    }
    assert(rest[6 + size] == t[second]);
    lemma_first_index(rest, '\n', 6 + size);
    assert(before(rest, '\n') =~= "data: "@ + json);
    let pat = "\n\n"@;
    assert(t.subrange(second, second + 2) =~= pat);
    assert forall|j: int| 0 <= j < second implies !occurs_at(t, pat, j) by {
        if occurs_at(t, pat, j) {
            let found = t.subrange(j, j + 2);
            assert(found[0] == t[j] && found[1] == t[j + 1]);
            assert(j == first);
        }
    }
    lemma_find_from_is(t, pat, 0, second);
}

} // verus!
