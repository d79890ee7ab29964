//! What each event of the agent becomes in the client's stream and in a reply in one piece, for
//! every state of the turn: which blocks are sent, what they carry, and what they look like on
//! the wire.

use vstd::prelude::*;
use vstd::string::*;

use crate::blocking::{
    blocks_gathered, event_gathered, events_gathered, fresh_reply, law_gathered_text, line_gathered,
    reply_json, segment_gathered, turn_store, BlockingState,
};
use crate::facts::{
    holds, holds_text, lacks, lacks_text, law_held_text_is_read, law_nothing_held_nothing_read,
    law_what_is_held_is_read,
};
use crate::json::{json_text, number_of, number_u64, parsed_json, JsonView};
use crate::prompt::MessageView;
use crate::session::{committed, EntryView};
use crate::sse::{item_text, items_bytes, SseItem};
use crate::stream_laws::{ends_segment, segments_events, segments_shown, Segment};
use crate::streaming::{
    block_step, blocks_step, end_segment, end_text, event_step, event_store, finish_step, fresh_turn,
    lemma_type_words, line_step, line_store, message_end, message_id, message_start,
    settle, stay, StreamState,
};
use crate::text::{decimal, trimmed};
use crate::text_stream::{shown, TextState};
use crate::tool_call::made_up_id;

verus! {

// The wire
/// The text of a named event: the name on one line, the data on the next, and a blank line.
pub open spec fn wire(name: Seq<char>, data: JsonView) -> Seq<char> {
    "event: "@ + name + "\ndata: "@ + json_text(data) + "\n\n"@
}

/// What each item looks like on the wire: its kind as the name and under `type`, the index of its
/// block, and what it carries.
pub proof fn law_items_on_the_wire(index: int, carried: JsonView, name: Seq<char>)
    ensures
        item_text(SseItem::BlockStart { index, block: carried }) == wire(
            "content_block_start"@,
            JsonView::Object(
                map![
                    "type"@ => JsonView::Text("content_block_start"@),
                    "index"@ => JsonView::Number(number_of(index)),
                    "content_block"@ => carried,
                ],
            ),
        ),
        item_text(SseItem::BlockDelta { index, delta: carried }) == wire(
            "content_block_delta"@,
            JsonView::Object(
                map![
                    "type"@ => JsonView::Text("content_block_delta"@),
                    "index"@ => JsonView::Number(number_of(index)),
                    "delta"@ => carried,
                ],
            ),
        ),
        item_text(SseItem::BlockStop { index }) == wire(
            "content_block_stop"@,
            JsonView::Object(
                map![
                    "type"@ => JsonView::Text("content_block_stop"@),
                    "index"@ => JsonView::Number(number_of(index)),
                ],
            ),
        ),
        item_text(SseItem::Event { name, data: carried }) == wire(name, carried),
        item_text(SseItem::Done) == "data: [DONE]\n\n"@,
{
}

/// The bytes of a stream are the bytes of its items, one after the other, in UTF-8.
pub proof fn law_bytes_of_the_stream(items: Seq<SseItem>, item: SseItem)
    ensures
        items_bytes(seq![]) == Seq::<u8>::empty(),
        items_bytes(items.push(item)) == items_bytes(items) + vstd::utf8::encode_utf8(
            item_text(item),
        ),
{
    assert(items.push(item).drop_last() =~= items);
}

// What the stream is made of
/// An event in which the assistant brings these content blocks.
pub open spec fn brings(event: JsonView, message: JsonView, blocks: Seq<JsonView>) -> bool {
    &&& holds_text(event, "type"@, "assistant"@)
    &&& holds(event, "message"@, message)
    &&& holds(message, "content"@, JsonView::Array(blocks))
}

/// The start of a text block.
pub open spec fn text_start(index: int) -> SseItem {
    SseItem::BlockStart {
        index,
        block: JsonView::Object(
            map!["type"@ => JsonView::Text("text"@), "text"@ => JsonView::Text(""@)],
        ),
    }
}

/// A piece of a text block.
pub open spec fn text_piece(index: int, text: Seq<char>) -> SseItem {
    SseItem::BlockDelta {
        index,
        delta: JsonView::Object(
            map!["type"@ => JsonView::Text("text_delta"@), "text"@ => JsonView::Text(text)],
        ),
    }
}

/// What is sent when text goes out: nothing for none; otherwise a piece, after a start where no
/// block is open.
pub open spec fn text_sent(index: int, open: bool, text: Seq<char>) -> Seq<SseItem> {
    if text.len() == 0 {
        seq![]
    } else if open {
        seq![text_piece(index, text)]
    } else {
        seq![text_start(index), text_piece(index, text)]
    }
}

/// The text that goes out when the segment ends.
pub open spec fn last_words(s: StreamState) -> Seq<char> {
    shown(s.texts.closing())
}

/// There is a text block to be closed when the segment ends.
pub open spec fn has_block(s: StreamState) -> bool {
    s.open || last_words(s).len() > 0
}

/// What is sent when the segment ends and its block is closed.
pub open spec fn text_ended(s: StreamState) -> Seq<SseItem> {
    text_sent(s.index, s.open, last_words(s)) + (if has_block(s) {
        seq![SseItem::BlockStop { index: s.index }]
    } else {
        seq![]
    })
}

/// The index of the block after the one that the segment's end closes.
pub open spec fn index_after(s: StreamState) -> int {
    if has_block(s) {
        s.index + 1
    } else {
        s.index
    }
}

/// The end of a segment sends the text that is left and closes its block, and a block of another
/// kind then gets the index after it.
pub proof fn law_ended_text(s: StreamState)
    ensures
        end_text(s).items == text_ended(s),
        end_text(s).state == (StreamState { texts: TextState::fresh(), open: false, ..s }),
        settle(s).items == text_ended(s),
        settle(s).state == (StreamState {
            texts: TextState::fresh(),
            open: false,
            index: index_after(s),
            ..s
        }),
{
    let said = end_segment(s);
    assert(said.items =~= text_sent(s.index, s.open, last_words(s)));
    assert(end_text(s).items =~= text_ended(s));
}

proof fn lemma_brings(event: JsonView, message: JsonView, blocks: Seq<JsonView>)
    requires
        brings(event, message, blocks),
    ensures
        event.says("type"@, "assistant"@),
        event.at("message"@).at("content"@).items() == blocks,
{
    law_held_text_is_read(event, "type"@, "assistant"@);
    law_what_is_held_is_read(event, "message"@, message);
    law_what_is_held_is_read(message, "content"@, JsonView::Array(blocks));
}

proof fn lemma_one_block(s: StreamState, block: JsonView)
    ensures
        blocks_step(s, seq![block]).state == block_step(s, block).state,
        blocks_step(s, seq![block]).items == block_step(s, block).items,
{
    assert(seq![block].drop_last() =~= seq![]);
    assert(blocks_step(s, seq![block].drop_last()) == stay(s));
    assert(blocks_step(s, seq![block]).items =~= block_step(s, block).items);
}

proof fn lemma_block_kinds()
    ensures
        "text"@ != "tool_use"@,
        "text"@ != "thinking"@,
        "tool_use"@ != "thinking"@,
{
    reveal_strlit("text");
    reveal_strlit("tool_use");
    reveal_strlit("thinking");
    assert("text"@.len() == 4 && "tool_use"@.len() == 8 && "thinking"@.len() == 8);
    assert("tool_use"@[1] != "thinking"@[1]);
}

// Streaming: content blocks
proof fn lemma_blocks_step_add(s: StreamState, a: Seq<JsonView>, b: Seq<JsonView>)
    ensures
        blocks_step(s, a + b).state == blocks_step(blocks_step(s, a).state, b).state,
        blocks_step(s, a + b).items == blocks_step(s, a).items + blocks_step(
            blocks_step(s, a).state,
            b,
        ).items,
    decreases b.len(),
{
    let first = blocks_step(s, a);
    if b.len() == 0 {
        assert(a + b =~= a);
        assert(first.items + blocks_step(first.state, b).items =~= first.items);
    } else {
        lemma_blocks_step_add(s, a, b.drop_last());
        assert((a + b).drop_last() =~= a + b.drop_last());
        assert(blocks_step(s, a + b).items =~= first.items + blocks_step(first.state, b).items);
    }
}

/// The blocks of an event are streamed in order: an event with two runs of blocks does what two
/// events with one run each do.
pub proof fn law_blocks_are_streamed_in_order(
    s: StreamState,
    whole: (JsonView, JsonView),
    first: (JsonView, JsonView),
    second: (JsonView, JsonView),
    a: Seq<JsonView>,
    b: Seq<JsonView>,
)
    requires
        brings(whole.0, whole.1, a + b),
        brings(first.0, first.1, a),
        brings(second.0, second.1, b),
    ensures
        ({
            let between = event_step(s, first.0);
            let after = event_step(between.state, second.0);
            &&& event_step(s, whole.0).state == after.state
            &&& event_step(s, whole.0).items == between.items + after.items
        }),
{
    lemma_brings(whole.0, whole.1, a + b);
    lemma_brings(first.0, first.1, a);
    lemma_brings(second.0, second.1, b);
    lemma_blocks_step_add(s, a, b);
}

/// An event without blocks changes nothing and sends nothing.
pub proof fn law_no_blocks_no_stream(s: StreamState, event: JsonView)
    requires
        holds_text(event, "type"@, "assistant"@),
        forall|message: JsonView, blocks: Seq<JsonView>|
            #[trigger] brings(event, message, blocks) ==> blocks.len() == 0,
    ensures
        event_step(s, event).state == s,
        event_step(s, event).items == Seq::<SseItem>::empty(),
{
    law_held_text_is_read(event, "type"@, "assistant"@);
    let items = event.at("message"@).at("content"@).items();
    if items.len() > 0 {
        let message = event.at("message"@);
        assert(brings(event, message, items));
    }
}

/// A tool call block is streamed as it is: after the end of the text, a block that starts with
/// exactly the name, the id and the input of the call, and is closed at once. Only a call without
/// a name is called `unknown`, and only one without an id is given one.
pub proof fn law_tool_use_is_streamed(
    s: StreamState,
    event: JsonView,
    message: JsonView,
    block: JsonView,
    name: Seq<char>,
    id: Seq<char>,
    input: JsonView,
)
    requires
        s.index >= 0,
        brings(event, message, seq![block]),
        holds_text(block, "type"@, "tool_use"@),
        holds_text(block, "name"@, name) || (lacks_text(block, "name"@) && name == "unknown"@),
        holds_text(block, "id"@, id) || (lacks_text(block, "id"@) && id == "toolu_"@ + decimal(
            index_after(s),
        )),
        holds(block, "input"@, input) || (lacks(block, "input"@) && input == JsonView::Null),
    ensures
        event_step(s, event).items == text_ended(s) + seq![
            SseItem::BlockStart {
                index: index_after(s),
                block: JsonView::Object(
                    map![
                        "type"@ => JsonView::Text("tool_use"@),
                        "id"@ => JsonView::Text(id),
                        "name"@ => JsonView::Text(name),
                        "input"@ => input,
                    ],
                ),
            },
            SseItem::BlockStop { index: index_after(s) },
        ],
        event_step(s, event).state == (StreamState {
            index: index_after(s) + 1,
            open: false,
            texts: TextState::fresh(),
            seen: s.seen.insert(id),
            ..s
        }),
{
    lemma_brings(event, message, seq![block]);
    lemma_one_block(s, block);
    lemma_block_kinds();
    law_ended_text(s);
    law_held_text_is_read(block, "type"@, "tool_use"@);
    law_held_text_is_read(block, "name"@, name);
    law_nothing_held_nothing_read(block, "name"@);
    law_held_text_is_read(block, "id"@, id);
    law_nothing_held_nothing_read(block, "id"@);
    law_what_is_held_is_read(block, "input"@, input);
    law_nothing_held_nothing_read(block, "input"@);
    assert(made_up_id(index_after(s)) == "toolu_"@ + decimal(index_after(s)));
}

/// Reasoning is streamed whole and as reasoning: after the end of the text, a block of its own
/// with all of it in one piece. Empty reasoning takes an index and sends nothing.
pub proof fn law_thinking_is_streamed(
    s: StreamState,
    event: JsonView,
    message: JsonView,
    block: JsonView,
    thinking: Seq<char>,
)
    requires
        brings(event, message, seq![block]),
        holds_text(block, "type"@, "thinking"@),
        holds_text(block, "thinking"@, thinking),
    ensures
        thinking.len() > 0 ==> event_step(s, event).items == text_ended(s) + seq![
            SseItem::BlockStart {
                index: index_after(s),
                block: JsonView::Object(
                    map!["type"@ => JsonView::Text("thinking"@), "thinking"@ => JsonView::Text(""@)],
                ),
            },
            SseItem::BlockDelta {
                index: index_after(s),
                delta: JsonView::Object(
                    map![
                        "type"@ => JsonView::Text("thinking_delta"@),
                        "thinking"@ => JsonView::Text(thinking),
                    ],
                ),
            },
            SseItem::BlockStop { index: index_after(s) },
        ],
        thinking.len() == 0 ==> event_step(s, event).items == text_ended(s),
        event_step(s, event).state == (StreamState {
            index: index_after(s) + 1,
            open: false,
            texts: TextState::fresh(),
            ..s
        }),
{
    lemma_brings(event, message, seq![block]);
    lemma_one_block(s, block);
    lemma_block_kinds();
    law_ended_text(s);
    law_held_text_is_read(block, "type"@, "thinking"@);
    law_held_text_is_read(block, "thinking"@, thinking);
    if thinking.len() == 0 {
        assert(block_step(s, block).items =~= text_ended(s));
    }
}

/// A piece of text, in a block that says it is text or says nothing of its type, is held back
/// whole, and sends the piece that was held back before it, whole and as text.
pub proof fn law_text_is_streamed(
    s: StreamState,
    event: JsonView,
    message: JsonView,
    block: JsonView,
    text: Seq<char>,
)
    requires
        brings(event, message, seq![block]),
        holds_text(block, "type"@, "text"@) || lacks_text(block, "type"@),
        holds_text(block, "text"@, text),
        text.len() > 0,
    ensures
        event_step(s, event).items == text_sent(s.index, s.open, shown(s.texts.pending)),
        event_step(s, event).state == (StreamState {
            open: s.open || shown(s.texts.pending).len() > 0,
            texts: TextState {
                segment: s.texts.segment + shown(s.texts.pending),
                pending: Some(text),
            },
            ..s
        }),
{
    lemma_brings(event, message, seq![block]);
    lemma_one_block(s, block);
    law_held_text_is_read(block, "type"@, "text"@);
    law_nothing_held_nothing_read(block, "type"@);
    law_held_text_is_read(block, "text"@, text);
    assert(s.texts.segment + Seq::<char>::empty() =~= s.texts.segment);
    assert(block_step(s, block).items =~= text_sent(s.index, s.open, shown(s.texts.pending)));
}

/// A block of another type, or without the text that its type calls for, changes nothing and
/// sends nothing.
pub proof fn law_other_blocks_are_not_streamed(
    s: StreamState,
    event: JsonView,
    message: JsonView,
    block: JsonView,
)
    requires
        brings(event, message, seq![block]),
        !holds_text(block, "type"@, "tool_use"@),
        holds_text(block, "type"@, "thinking"@) ==> lacks_text(block, "thinking"@),
        holds_text(block, "type"@, "text"@) || lacks_text(block, "type"@) ==> lacks_text(
            block,
            "text"@,
        ) || holds_text(block, "text"@, seq![]),
    ensures
        event_step(s, event).items == Seq::<SseItem>::empty(),
        event_step(s, event).state == s,
{
    lemma_brings(event, message, seq![block]);
    lemma_one_block(s, block);
    law_held_text_is_read(block, "type"@, "tool_use"@);
    law_held_text_is_read(block, "type"@, "thinking"@);
    law_held_text_is_read(block, "type"@, "text"@);
    law_nothing_held_nothing_read(block, "type"@);
    law_nothing_held_nothing_read(block, "thinking"@);
    law_nothing_held_nothing_read(block, "text"@);
    law_held_text_is_read(block, "text"@, seq![]);
    lemma_block_kinds();
}

// Streaming: the other events
/// The number that a document gives under a key: an unsigned number, or else zero.
pub open spec fn number_under(json: JsonView, key: Seq<char>, count: u64) -> bool {
    (exists|n: serde_json::Number| #[trigger]
        holds(json, key, JsonView::Number(n)) && number_u64(n) == Some(count)) || (count == 0
        && forall|n: serde_json::Number| #[trigger]
        holds(json, key, JsonView::Number(n)) ==> number_u64(n) is None)
}

proof fn lemma_number_under(json: JsonView, key: Seq<char>, count: u64)
    requires
        number_under(json, key, count),
    ensures
        json.count_at(key) == count,
{
    if let JsonView::Number(n) = json.at(key) {
        assert(holds(json, key, JsonView::Number(n)));
    } else {
        assert(forall|n: serde_json::Number| !#[trigger] holds(json, key, JsonView::Number(n)));
    }
}

/// The counts that the result of a turn gives.
pub open spec fn counts(event: JsonView, input: u64, output: u64) -> bool {
    (exists|usage: JsonView| #[trigger]
        holds(event, "usage"@, usage) && number_under(usage, "inputTokens"@, input)
            && number_under(usage, "outputTokens"@, output)) || (lacks(event, "usage"@) && input
        == 0 && output == 0)
}

proof fn lemma_counts(event: JsonView, input: u64, output: u64)
    requires
        counts(event, input, output),
    ensures
        event.at("usage"@).count_at("inputTokens"@) == input,
        event.at("usage"@).count_at("outputTokens"@) == output,
{
    law_nothing_held_nothing_read(event, "usage"@);
    if !lacks(event, "usage"@) {
        let usage = choose|usage: JsonView| #[trigger]
            holds(event, "usage"@, usage) && number_under(usage, "inputTokens"@, input)
                && number_under(usage, "outputTokens"@, output);
        law_what_is_held_is_read(event, "usage"@, usage);
        lemma_number_under(usage, "inputTokens"@, input);
        lemma_number_under(usage, "outputTokens"@, output);
    }
}

/// What closes a message with these counts: why it stopped and what it cost, the stop, and the
/// end of the stream.
pub open spec fn message_closed(input: u64, output: u64) -> Seq<SseItem> {
    seq![
        SseItem::Event {
            name: "message_delta"@,
            data: JsonView::Object(
                map![
                    "type"@ => JsonView::Text("message_delta"@),
                    "delta"@ => JsonView::Object(
                        map!["stop_reason"@ => JsonView::Text("end_turn"@)],
                    ),
                    "usage"@ => JsonView::Object(
                        map![
                            "input_tokens"@ => JsonView::Number(number_of(input as int)),
                            "output_tokens"@ => JsonView::Number(number_of(output as int)),
                        ],
                    ),
                ],
            ),
        },
        SseItem::Event {
            name: "message_stop"@,
            data: JsonView::Object(map!["type"@ => JsonView::Text("message_stop"@)]),
        },
        SseItem::Done,
    ]
}

/// The result ends the text and closes the message with its own counts.
pub proof fn law_result_closes_the_message(
    s: StreamState,
    event: JsonView,
    input: u64,
    output: u64,
)
    requires
        holds_text(event, "type"@, "result"@),
        counts(event, input, output),
    ensures
        event_step(s, event).items == text_ended(s) + message_closed(input, output),
        event_step(s, event).state == (StreamState {
            result: true,
            open: false,
            texts: TextState::fresh(),
            ..s
        }),
{
    law_held_text_is_read(event, "type"@, "result"@);
    lemma_type_words();
    lemma_counts(event, input, output);
    let t = StreamState { result: true, ..s };
    law_ended_text(t);
    assert(text_ended(t) == text_ended(s));
    assert(message_end(input, output) =~= message_closed(input, output));
}

/// The end of the output ends the text; where no result has come it closes the message too, and
/// after a result it sends no more than that.
pub proof fn law_end_of_output(s: StreamState)
    ensures
        s.result ==> finish_step(s).items == text_ended(s),
        !s.result ==> finish_step(s).items == text_ended(s) + message_closed(0, 0),
        finish_step(s).state == (StreamState { open: false, texts: TextState::fresh(), ..s }),
{
    law_ended_text(s);
    assert(message_end(0, 0) =~= message_closed(0, 0));
}

/// An opening event announces the session, and sends nothing.
pub proof fn law_opening_announces_the_session(s: StreamState, event: JsonView, id: Seq<char>)
    requires
        holds_text(event, "type"@, "system"@),
    ensures
        holds_text(event, "subtype"@, "init"@) && holds_text(event, "session_id"@, id)
            ==> event_step(s, event).state == (StreamState { chat_id: id, ..s }),
        !holds_text(event, "subtype"@, "init"@) || lacks_text(event, "session_id"@) ==> event_step(
            s,
            event,
        ).state == s,
        event_step(s, event).items == Seq::<SseItem>::empty(),
{
    law_held_text_is_read(event, "type"@, "system"@);
    law_held_text_is_read(event, "subtype"@, "init"@);
    law_held_text_is_read(event, "session_id"@, id);
    law_nothing_held_nothing_read(event, "session_id"@);
    lemma_type_words();
}

/// An event of a type that is not known changes nothing and sends nothing.
pub proof fn law_other_events_are_skipped(s: StreamState, event: JsonView)
    requires
        !holds_text(event, "type"@, "assistant"@),
        !holds_text(event, "type"@, "system"@),
        !holds_text(event, "type"@, "tool_call"@),
        !holds_text(event, "type"@, "result"@),
    ensures
        event_step(s, event).state == s,
        event_step(s, event).items == Seq::<SseItem>::empty(),
{
    law_held_text_is_read(event, "type"@, "assistant"@);
    law_held_text_is_read(event, "type"@, "system"@);
    law_held_text_is_read(event, "type"@, "tool_call"@);
    law_held_text_is_read(event, "type"@, "result"@);
}

/// A line of output is the event that it spells; a blank line, and one that spells no JSON, do
/// nothing. That holds of what is sent and of what is recorded.
pub proof fn law_lines_are_events(
    s: StreamState,
    line: Seq<char>,
    event: JsonView,
    store: Map<u64, EntryView>,
    messages: Seq<MessageView>,
    model: Seq<char>,
)
    ensures
        trimmed(line).len() > 0 && parsed_json(line) == Some(event) ==> line_step(s, line)
            == event_step(s, event) && line_store(store, s, line, messages, model) == event_store(
            store,
            s,
            event,
            messages,
            model,
        ),
        trimmed(line).len() == 0 || parsed_json(line) is None ==> line_step(s, line).state == s
            && line_step(s, line).items.len() == 0 && line_store(store, s, line, messages, model)
            == store,
{
}

/// The session is recorded by a result that holds anything but true under `is_error`, and by no
/// other event.
pub proof fn law_recording_event(
    store: Map<u64, EntryView>,
    s: StreamState,
    event: JsonView,
    messages: Seq<MessageView>,
    model: Seq<char>,
)
    ensures
        holds_text(event, "type"@, "result"@) && !holds(event, "is_error"@, JsonView::Bool(true))
            ==> event_store(store, s, event, messages, model) == committed(
            store,
            messages,
            model,
            s.chat_id,
        ),
        !holds_text(event, "type"@, "result"@) || holds(event, "is_error"@, JsonView::Bool(true))
            ==> event_store(store, s, event, messages, model) == store,
{
    law_held_text_is_read(event, "type"@, "result"@);
    law_what_is_held_is_read(event, "is_error"@, JsonView::Bool(true));
    law_nothing_held_nothing_read(event, "is_error"@);
}

/// The stream opens with an empty message of the assistant, under the model that was asked for
/// and the id of the process.
pub proof fn law_stream_opens_with_the_message(pid: u32, model: Seq<char>)
    ensures
        message_start(message_id(pid), model) == (SseItem::Event {
            name: "message_start"@,
            data: JsonView::Object(
                map![
                    "type"@ => JsonView::Text("message_start"@),
                    "message"@ => JsonView::Object(
                        map![
                            "id"@ => JsonView::Text("msg_"@ + decimal(pid as int)),
                            "type"@ => JsonView::Text("message"@),
                            "role"@ => JsonView::Text("assistant"@),
                            "content"@ => JsonView::Array(seq![]),
                            "model"@ => JsonView::Text(model),
                            "stop_reason"@ => JsonView::Null,
                            "usage"@ => JsonView::Object(
                                map![
                                    "input_tokens"@ => JsonView::Number(number_of(0)),
                                    "output_tokens"@ => JsonView::Number(number_of(0)),
                                ],
                            ),
                        ],
                    ),
                ],
            ),
        }),
{
}

/// A turn begins with nothing sent, nothing held back and nothing known.
pub proof fn law_turn_begins_empty()
    ensures
        fresh_turn() == (StreamState {
            index: 0,
            result: false,
            open: false,
            texts: TextState { segment: seq![], pending: None },
            chat_id: seq![],
            seen: Set::empty(),
        }),
        fresh_reply() == (BlockingState {
            text: seq![],
            texts: TextState { segment: seq![], pending: None },
            input_tokens: 0,
            output_tokens: 0,
            chat_id: seq![],
            succeeded: false,
        }),
{
}

// A reply in one piece
/// The message that answers a request holds all the text that was gathered, in one block of text,
/// and the model, the id and the counts of the turn.
pub proof fn law_reply_holds_what_was_gathered(s: BlockingState, model: Seq<char>, pid: u32)
    ensures
        reply_json(s, model, pid) == JsonView::Object(
            map![
                "id"@ => JsonView::Text("msg_"@ + decimal(pid as int)),
                "type"@ => JsonView::Text("message"@),
                "role"@ => JsonView::Text("assistant"@),
                "content"@ => JsonView::Array(
                    seq![
                        JsonView::Object(
                            map![
                                "type"@ => JsonView::Text("text"@),
                                "text"@ => JsonView::Text(s.text),
                            ],
                        ),
                    ],
                ),
                "model"@ => JsonView::Text(model),
                "stop_reason"@ => JsonView::Text("end_turn"@),
                "usage"@ => JsonView::Object(
                    map![
                        "input_tokens"@ => JsonView::Number(number_of(s.input_tokens as int)),
                        "output_tokens"@ => JsonView::Number(number_of(s.output_tokens as int)),
                    ],
                ),
            ],
        ),
{
}

/// A turn of text answers with what its segments show, all of it and nothing else.
pub proof fn law_reply_of_a_turn(segments: Seq<Segment>, model: Seq<char>, pid: u32)
    requires
        forall|i: int| 0 <= i < segments.len() ==> ends_segment((#[trigger] segments[i]).end),
    ensures
        ({
            let s = segment_gathered(events_gathered(fresh_reply(), segments_events(segments)));
            holds(
                reply_json(s, model, pid),
                "content"@,
                JsonView::Array(
                    seq![
                        JsonView::Object(
                            map![
                                "type"@ => JsonView::Text("text"@),
                                "text"@ => JsonView::Text(segments_shown(segments)),
                            ],
                        ),
                    ],
                ),
            )
        }),
{
    law_gathered_text(fresh_reply(), segments);
    let s = segment_gathered(events_gathered(fresh_reply(), segments_events(segments)));
    assert(s.text =~= segments_shown(segments));
    law_reply_holds_what_was_gathered(s, model, pid);
    reveal_strlit("id");
    reveal_strlit("type");
    reveal_strlit("role");
    reveal_strlit("content");
    reveal_strlit("model");
    reveal_strlit("stop_reason");
    reveal_strlit("usage");
    assert("content"@.len() == 7 && "model"@.len() == 5 && "stop_reason"@.len() == 11
        && "usage"@.len() == 5);
}

proof fn lemma_blocks_gathered_add(s: BlockingState, a: Seq<JsonView>, b: Seq<JsonView>)
    ensures
        blocks_gathered(s, a + b) == blocks_gathered(blocks_gathered(s, a), b),
    decreases b.len(),
{
    if b.len() == 0 {
        assert(a + b =~= a);
    } else {
        lemma_blocks_gathered_add(s, a, b.drop_last());
        assert((a + b).drop_last() =~= a + b.drop_last());
    }
}

/// The blocks of an event are gathered in order: an event with two runs of blocks does what two
/// events with one run each do.
pub proof fn law_blocks_are_gathered_in_order(
    s: BlockingState,
    whole: (JsonView, JsonView),
    first: (JsonView, JsonView),
    second: (JsonView, JsonView),
    a: Seq<JsonView>,
    b: Seq<JsonView>,
)
    requires
        brings(whole.0, whole.1, a + b),
        brings(first.0, first.1, a),
        brings(second.0, second.1, b),
    ensures
        event_gathered(s, whole.0) == event_gathered(event_gathered(s, first.0), second.0),
{
    lemma_brings(whole.0, whole.1, a + b);
    lemma_brings(first.0, first.1, a);
    lemma_brings(second.0, second.1, b);
    lemma_blocks_gathered_add(s, a, b);
}

/// A block with a text, of whatever type, has all of it held back, and adds to the reply all of
/// the text that was held back before it; a block without a text changes nothing.
pub proof fn law_text_is_gathered(
    s: BlockingState,
    event: JsonView,
    message: JsonView,
    block: JsonView,
    text: Seq<char>,
)
    requires
        brings(event, message, seq![block]),
    ensures
        holds_text(block, "text"@, text) ==> event_gathered(s, event) == (BlockingState {
            text: s.text + shown(s.texts.pending),
            texts: TextState {
                segment: s.texts.segment + shown(s.texts.pending),
                pending: Some(text),
            },
            ..s
        }),
        lacks_text(block, "text"@) ==> event_gathered(s, event) == s,
{
    lemma_brings(event, message, seq![block]);
    assert(seq![block].drop_last() =~= seq![]);
    assert(blocks_gathered(s, seq![block].drop_last()) == s);
    law_held_text_is_read(block, "text"@, text);
    law_nothing_held_nothing_read(block, "text"@);
    assert(s.texts.segment + Seq::<char>::empty() =~= s.texts.segment);
}

/// A tool call ends the segment: the text held back is added, all of it, unless it is the recap.
pub proof fn law_tool_call_ends_the_segment(s: BlockingState, event: JsonView)
    requires
        holds_text(event, "type"@, "tool_call"@),
    ensures
        event_gathered(s, event) == (BlockingState {
            text: s.text + shown(s.texts.closing()),
            texts: TextState::fresh(),
            ..s
        }),
{
    law_held_text_is_read(event, "type"@, "tool_call"@);
    lemma_type_words();
}

/// The result ends the segment, gives the counts, and decides whether the turn has succeeded: it
/// has unless the result holds true under `is_error`.
pub proof fn law_result_is_gathered(s: BlockingState, event: JsonView, input: u64, output: u64)
    requires
        holds_text(event, "type"@, "result"@),
        counts(event, input, output),
    ensures
        event_gathered(s, event) == (BlockingState {
            text: s.text + shown(s.texts.closing()),
            texts: TextState::fresh(),
            input_tokens: input,
            output_tokens: output,
            succeeded: !holds(event, "is_error"@, JsonView::Bool(true)),
            ..s
        }),
{
    law_held_text_is_read(event, "type"@, "result"@);
    law_what_is_held_is_read(event, "is_error"@, JsonView::Bool(true));
    law_nothing_held_nothing_read(event, "is_error"@);
    lemma_type_words();
    lemma_counts(event, input, output);
}

/// An opening event announces the session, and an event of a type that is not known changes
/// nothing.
pub proof fn law_other_events_are_gathered(s: BlockingState, event: JsonView, id: Seq<char>)
    requires
        !holds_text(event, "type"@, "assistant"@),
        !holds_text(event, "type"@, "tool_call"@),
        !holds_text(event, "type"@, "result"@),
    ensures
        holds_text(event, "type"@, "system"@) && holds_text(event, "subtype"@, "init"@)
            && holds_text(event, "session_id"@, id) ==> event_gathered(s, event) == (
        BlockingState { chat_id: id, ..s }),
        !holds_text(event, "type"@, "system"@) || !holds_text(event, "subtype"@, "init"@)
            || lacks_text(event, "session_id"@) ==> event_gathered(s, event) == s,
{
    law_held_text_is_read(event, "type"@, "assistant"@);
    law_held_text_is_read(event, "type"@, "system"@);
    law_held_text_is_read(event, "type"@, "tool_call"@);
    law_held_text_is_read(event, "type"@, "result"@);
    law_held_text_is_read(event, "subtype"@, "init"@);
    law_held_text_is_read(event, "session_id"@, id);
    law_nothing_held_nothing_read(event, "session_id"@);
}

/// A line of output is the event that it spells; a blank line, and one that spells no JSON, do
/// nothing.
pub proof fn law_lines_are_gathered(s: BlockingState, line: Seq<char>, event: JsonView)
    ensures
        trimmed(line).len() > 0 && parsed_json(line) == Some(event) ==> line_gathered(s, line)
            == event_gathered(s, event),
        trimmed(line).len() == 0 || parsed_json(line) is None ==> line_gathered(s, line) == s,
{
}

/// The end of the output ends the segment; the session is recorded under the id that was
/// announced where the turn has succeeded, and only there.
pub proof fn law_end_of_a_reply(
    store: Map<u64, EntryView>,
    s: BlockingState,
    messages: Seq<MessageView>,
    model: Seq<char>,
)
    ensures
        segment_gathered(s) == (BlockingState {
            text: s.text + shown(s.texts.closing()),
            texts: TextState::fresh(),
            ..s
        }),
        s.succeeded ==> turn_store(store, s, messages, model) == committed(
            store,
            messages,
            model,
            s.chat_id,
        ),
        !s.succeeded ==> turn_store(store, s, messages, model) == store,
{
}

// What is held back
/// A piece of text that comes is held back, whole, and the one held back before it joins the
/// segment, whole.
pub proof fn law_pieces_are_held_back(
    segment: Seq<char>,
    held: Seq<char>,
    text: Seq<char>,
)
    ensures
        (TextState { segment, pending: Some(held) }).pushed(text) == (TextState {
            segment: segment + held,
            pending: Some(text),
        }),
        (TextState { segment, pending: None }).pushed(text) == (TextState {
            segment,
            pending: Some(text),
        }),
        shown(Some(text)) == text,
        shown(None).len() == 0,
{
}

/// When a segment ends, the piece held back goes out unless it repeats all that went out before
/// it, and none goes out where none was held back.
pub proof fn law_only_the_recap_is_dropped(segment: Seq<char>, held: Seq<char>)
    ensures
        held != segment ==> (TextState { segment, pending: Some(held) }).closing() == Some(held),
        held == segment ==> (TextState { segment, pending: Some(held) }).closing() is None,
        (TextState { segment, pending: None }).closing() is None,
        TextState::fresh() == (TextState { segment: seq![], pending: None }),
{
}

} // verus!
