//! A streamed turn: the agent's events, one by one, become the events of the client's stream.

use std::collections::HashMap;

use vstd::prelude::*;
use vstd::string::*;

use crate::json::{number_of, parsed_json, Json, JsonView};
use crate::prompt::{text_or, views, Message, MessageView};
use crate::session::{
    commit_session, committed, store_usable, store_valid, store_view, EntryView, SessionEntry,
    MAX_SESSIONS,
};
use crate::sse::{
    close_items, close_text_block, emit_text, emit_thinking, emit_tool_use, items_bytes,
    lemma_items_bytes_add, text_items, thinking_items, tool_items, write_done, write_sse, SseItem,
};
use crate::text::{decimal, same, to_decimal, trim, trimmed};
use crate::text_stream::{text_view, TextState, TextStream};
use crate::tool_call::{
    call_items, emit_tool_call, emits_call, fallback_id, made_up_id, seen_after, ToolIds,
};

verus! {

// State
/// A turn that is being streamed.
pub struct StreamingTurn {
    pub content_index: i32,
    pub result_received: bool,
    /// A run of text deltas belongs in one content block.
    pub text_block_open: bool,
    pub texts: TextStream,
    pub chat_id: String,
    pub seen_tool_ids: ToolIds,
}

/// The state of a streamed turn.
pub struct StreamState {
    pub index: int,
    pub result: bool,
    pub open: bool,
    pub texts: TextState,
    pub chat_id: Seq<char>,
    pub seen: Set<Seq<char>>,
}

impl View for StreamingTurn {
    type V = StreamState;

    open spec fn view(&self) -> StreamState {
        StreamState {
            index: self.content_index as int,
            result: self.result_received,
            open: self.text_block_open,
            texts: self.texts@,
            chat_id: self.chat_id@,
            seen: self.seen_tool_ids@,
        }
    }
}

/// The state in which a turn begins.
pub open spec fn fresh_turn() -> StreamState {
    StreamState {
        index: 0,
        result: false,
        open: false,
        texts: TextState::fresh(),
        chat_id: seq![],
        seen: Set::empty(),
    }
}

/// What one step of a turn leads to: the next state, and what the client is sent.
pub struct Step {
    pub state: StreamState,
    pub items: Seq<SseItem>,
}

impl Step {
    /// This step and then another from where it led.
    pub open spec fn and(self, next: Step) -> Step {
        Step { state: next.state, items: self.items + next.items }
    }
}

/// The step that changes nothing.
pub open spec fn stay(s: StreamState) -> Step {
    Step { state: s, items: seq![] }
}

/// The text that is ready goes to the client.
pub open spec fn say(s: StreamState, ready: Option<Seq<char>>) -> Step {
    match ready {
        Some(t) => Step {
            state: StreamState { open: s.open || t.len() > 0, ..s },
            items: text_items(t, s.index, s.open),
        },
        None => stay(s),
    }
}

/// The segment ends: what is held back goes out, unless it is the recap.
pub open spec fn end_segment(s: StreamState) -> Step {
    say(StreamState { texts: TextState::fresh(), ..s }, s.texts.closing())
}

/// The segment ends and its text block is closed.
pub open spec fn end_text(s: StreamState) -> Step {
    let said = end_segment(s);
    said.and(
        Step {
            state: StreamState { open: false, ..said.state },
            items: close_items(said.state.index, said.state.open),
        },
    )
}

/// The segment ends, its text block is closed, and the next block gets the next index: a block
/// of another kind cannot open while text is still streaming.
pub open spec fn settle(s: StreamState) -> Step {
    let was_open = end_segment(s).state.open;
    let ended = end_text(s);
    Step {
        state: StreamState {
            index: if was_open {
                ended.state.index + 1
            } else {
                ended.state.index
            },
            ..ended.state
        },
        items: ended.items,
    }
}

// Content blocks of an assistant event
/// A text block: empty text is skipped, other text is held back and releases the text before.
pub open spec fn text_step(s: StreamState, block: JsonView) -> Step {
    match block.text_at("text"@) {
        Some(t) if t.len() > 0 => say(
            StreamState { texts: s.texts.pushed(t), ..s },
            s.texts.pending,
        ),
        _ => stay(s),
    }
}

/// A tool call block becomes a block of the client's stream.
pub open spec fn tool_use_step(s: StreamState, block: JsonView) -> Step {
    let settled = settle(s);
    let index = settled.state.index;
    let id = text_or(block.text_at("id"@), made_up_id(index));
    settled.and(
        Step {
            state: StreamState {
                index: index + 1,
                seen: settled.state.seen.insert(id),
                ..settled.state
            },
            items: tool_items(
                index,
                id,
                text_or(block.text_at("name"@), "unknown"@),
                block.at("input"@),
            ),
        },
    )
}

/// A block of reasoning becomes a block of the client's stream.
pub open spec fn thinking_step(s: StreamState, block: JsonView) -> Step {
    match block.text_at("thinking"@) {
        Some(thinking) => {
            let settled = settle(s);
            let index = settled.state.index;
            settled.and(
                Step {
                    state: StreamState { index: index + 1, ..settled.state },
                    items: thinking_items(thinking, index),
                },
            )
        },
        None => stay(s),
    }
}

/// One content block, by its type; a block without a type counts as text, and one of another
/// type is skipped.
pub open spec fn block_step(s: StreamState, block: JsonView) -> Step {
    let kind = text_or(block.text_at("type"@), "text"@);
    if kind == "text"@ {
        text_step(s, block)
    } else if kind == "tool_use"@ {
        tool_use_step(s, block)
    } else if kind == "thinking"@ {
        thinking_step(s, block)
    } else {
        stay(s)
    }
}

/// Content blocks, one after the other.
pub open spec fn blocks_step(s: StreamState, blocks: Seq<JsonView>) -> Step
    decreases blocks.len(),
{
    if blocks.len() == 0 {
        stay(s)
    } else {
        let before = blocks_step(s, blocks.drop_last());
        before.and(block_step(before.state, blocks.last()))
    }
}

// Events
/// A tool call event ends the text and becomes a block, unless it is a report or a repetition.
pub open spec fn tool_call_step(s: StreamState, event: JsonView) -> Step {
    let settled = settle(s);
    let index = settled.state.index;
    let seen = settled.state.seen;
    settled.and(
        Step {
            state: StreamState {
                index: if emits_call(event, index, seen) {
                    index + 1
                } else {
                    index
                },
                seen: seen_after(event, index, seen),
                ..settled.state
            },
            items: call_items(event, index, seen),
        },
    )
}

/// The token counts of a turn.
pub open spec fn usage_view(input: u64, output: u64) -> JsonView {
    JsonView::Object(
        map![
            "input_tokens"@ => JsonView::Number(number_of(input as int)),
            "output_tokens"@ => JsonView::Number(number_of(output as int)),
        ],
    )
}

/// What closes a message: why it stopped, what it cost, and the end of the stream.
pub open spec fn message_end(input: u64, output: u64) -> Seq<SseItem> {
    seq![
        SseItem::Event {
            name: "message_delta"@,
            data: JsonView::Object(
                map![
                    "type"@ => JsonView::Text("message_delta"@),
                    "delta"@ => JsonView::Object(
                        map!["stop_reason"@ => JsonView::Text("end_turn"@)],
                    ),
                    "usage"@ => usage_view(input, output),
                ],
            ),
        },
        SseItem::Event {
            name: "message_stop"@,
            data: JsonView::Object(map!["type"@ => JsonView::Text("message_stop"@)]),
        },
        SseItem::Done,
    ]
}

/// The result ends the text and the message.
pub open spec fn result_step(s: StreamState, event: JsonView) -> Step {
    let usage = event.at("usage"@);
    let ended = end_text(StreamState { result: true, ..s });
    ended.and(
        Step {
            state: ended.state,
            items: message_end(usage.count_at("inputTokens"@), usage.count_at("outputTokens"@)),
        },
    )
}

/// The event is the result of the turn.
pub open spec fn is_result(event: JsonView) -> bool {
    event.says("type"@, "result"@)
}

/// The event is the result of a turn that succeeded.
pub open spec fn is_success(event: JsonView) -> bool {
    is_result(event) && event.at("is_error"@) != JsonView::Bool(true)
}

/// The session id after an event: the one that an opening event announces, or the one before.
pub open spec fn chat_after(chat_id: Seq<char>, event: JsonView) -> Seq<char> {
    if event.says("type"@, "system"@) && event.says("subtype"@, "init"@) {
        text_or(event.text_at("session_id"@), chat_id)
    } else {
        chat_id
    }
}

/// The session id that these events announce: the last one announced.
pub open spec fn announced(events: Seq<JsonView>) -> Seq<char>
    decreases events.len(),
{
    if events.len() == 0 {
        seq![]
    } else {
        chat_after(announced(events.drop_last()), events.last())
    }
}

/// One event of the agent, by its type; one of another type is skipped.
pub open spec fn event_step(s: StreamState, event: JsonView) -> Step {
    if event.says("type"@, "assistant"@) {
        blocks_step(s, event.at("message"@).at("content"@).items())
    } else if event.says("type"@, "system"@) {
        stay(StreamState { chat_id: chat_after(s.chat_id, event), ..s })
    } else if event.says("type"@, "tool_call"@) {
        tool_call_step(s, event)
    } else if is_result(event) {
        result_step(s, event)
    } else {
        stay(s)
    }
}

/// The sessions after an event: only a turn that succeeded is recorded.
pub open spec fn event_store(
    store: Map<u64, EntryView>,
    s: StreamState,
    event: JsonView,
    messages: Seq<MessageView>,
    model: Seq<char>,
) -> Map<u64, EntryView> {
    if is_success(event) {
        committed(store, messages, model, s.chat_id)
    } else {
        store
    }
}

/// The event that a line of the agent's output is, where it is one.
pub open spec fn line_event(line: Seq<char>) -> Option<JsonView> {
    if trimmed(line).len() == 0 {
        None
    } else {
        parsed_json(line)
    }
}

/// One line of the agent's output: a line that is no event is skipped.
pub open spec fn line_step(s: StreamState, line: Seq<char>) -> Step {
    match line_event(line) {
        Some(event) => event_step(s, event),
        None => stay(s),
    }
}

/// The sessions after a line of the agent's output.
pub open spec fn line_store(
    store: Map<u64, EntryView>,
    s: StreamState,
    line: Seq<char>,
    messages: Seq<MessageView>,
    model: Seq<char>,
) -> Map<u64, EntryView> {
    match line_event(line) {
        Some(event) => event_store(store, s, event, messages, model),
        None => store,
    }
}

/// The end of the agent's output: the text ends, and the message too where no result ended it.
pub open spec fn finish_step(s: StreamState) -> Step {
    let ended = end_text(s);
    if s.result {
        ended
    } else {
        ended.and(Step { state: ended.state, items: message_end(0, 0) })
    }
}

/// The event that opens the client's stream.
pub open spec fn message_start(id: Seq<char>, model: Seq<char>) -> SseItem {
    SseItem::Event {
        name: "message_start"@,
        data: JsonView::Object(
            map![
                "type"@ => JsonView::Text("message_start"@),
                "message"@ => JsonView::Object(
                    map![
                        "id"@ => JsonView::Text(id),
                        "type"@ => JsonView::Text("message"@),
                        "role"@ => JsonView::Text("assistant"@),
                        "content"@ => JsonView::Array(seq![]),
                        "model"@ => JsonView::Text(model),
                        "stop_reason"@ => JsonView::Null,
                        "usage"@ => usage_view(0, 0),
                    ],
                ),
            ],
        ),
    }
}

/// The id of the message that the process `pid` makes.
pub open spec fn message_id(pid: u32) -> Seq<char> {
    "msg_"@ + decimal(pid as int)
}

// Indices only grow
proof fn lemma_block_index(s: StreamState, block: JsonView)
    ensures
        s.index <= block_step(s, block).state.index,
        settle(s).state.index <= s.index + 1,
        s.index <= settle(s).state.index,
{
}

proof fn lemma_blocks_index(s: StreamState, blocks: Seq<JsonView>, i: int)
    requires
        0 <= i <= blocks.len(),
    ensures
        s.index <= blocks_step(s, blocks.take(i)).state.index,
        blocks_step(s, blocks.take(i)).state.index <= blocks_step(s, blocks).state.index,
    decreases blocks.len(),
{
    if i == blocks.len() {
        assert(blocks.take(i) =~= blocks);
        if i > 0 {
            assert(blocks.drop_last().take(i - 1) =~= blocks.drop_last());
            lemma_blocks_index(s, blocks.drop_last(), i - 1);
            lemma_block_index(blocks_step(s, blocks.drop_last()).state, blocks.last());
        }
    } else {
        assert(blocks.drop_last().take(i) =~= blocks.take(i));
        lemma_blocks_index(s, blocks.drop_last(), i);
        lemma_block_index(blocks_step(s, blocks.drop_last()).state, blocks.last());
    }
}

/// The words that tell events apart are different words.
pub proof fn lemma_type_words()
    ensures
        "assistant"@ != "system"@,
        "assistant"@ != "tool_call"@,
        "assistant"@ != "result"@,
        "system"@ != "tool_call"@,
        "system"@ != "result"@,
        "tool_call"@ != "result"@,
{
    reveal_strlit("assistant");
    reveal_strlit("system");
    reveal_strlit("tool_call");
    reveal_strlit("result");
    assert("system"@[0] != "result"@[0]);
    assert("assistant"@[0] != "tool_call"@[0]);
}

/// The token counts of a turn, as JSON.
pub fn usage_json(input: u64, output: u64) -> (json: Json)
    ensures
        json@ == usage_view(input, output),
{
    Json::object().with("input_tokens", Json::integer(input as i128)).with(
        "output_tokens",
        Json::integer(output as i128),
    )
}

/// Appends what closes a message.
fn write_message_end(stream: &mut Vec<u8>, input: u64, output: u64)
    ensures
        final(stream)@ == old(stream)@ + items_bytes(message_end(input, output)),
{
    let delta = Json::object().with("type", Json::of_str("message_delta")).with(
        "delta",
        Json::object().with("stop_reason", Json::of_str("end_turn")),
    ).with("usage", usage_json(input, output));
    write_sse(stream, "message_delta", &delta);
    write_sse(
        stream,
        "message_stop",
        &Json::object().with("type", Json::of_str("message_stop")),
    );
    write_done(stream);
    proof {
        let items = message_end(input, output);
        lemma_items_bytes_add(seq![items[0]], seq![items[1]]);
        lemma_items_bytes_add(seq![items[0]] + seq![items[1]], seq![items[2]]);
        assert(seq![items[0]] + seq![items[1]] + seq![items[2]] =~= items);
        assert(stream@ =~= old(stream)@ + items_bytes(items));
    }
}

/// The id of the message that a process makes.
pub fn make_message_id(pid: u32) -> (id: String)
    ensures
        id@ == message_id(pid),
{
    let mut id = String::new();
    id.append("msg_");
    id.append(to_decimal(pid as u64).as_str());
    assert(id@ =~= message_id(pid));
    id
}

impl StreamingTurn {
    /// A turn of which nothing has been streamed.
    pub fn new() -> (turn: StreamingTurn)
        ensures
            turn@ == fresh_turn(),
    {
        StreamingTurn {
            content_index: 0,
            result_received: false,
            text_block_open: false,
            texts: TextStream::new(),
            chat_id: String::new(),
            seen_tool_ids: ToolIds::new(),
        }
    }

    /// Sends the text that is ready.
    fn say(&mut self, ready: Option<String>, stream: &mut Vec<u8>)
        ensures
            final(self)@ == say(old(self)@, text_view(ready)).state,
            final(stream)@ == old(stream)@ + items_bytes(
                say(old(self)@, text_view(ready)).items,
            ),
    {
        assert(stream@ + items_bytes(seq![]) =~= stream@);
        match ready {
            Some(text) => {
                emit_text(stream, text.as_str(), self.content_index, &mut self.text_block_open);
            },
            None => {},
        }
    }

    /// Ends the segment and its text block, and says whether a block was open.
    fn end_text(&mut self, stream: &mut Vec<u8>) -> (closed: bool)
        ensures
            final(self)@ == end_text(old(self)@).state,
            closed == end_segment(old(self)@).state.open,
            final(stream)@ == old(stream)@ + items_bytes(end_text(old(self)@).items),
    {
        let ready = self.texts.flush();
        self.say(ready, stream);
        let ghost said = end_segment(old(self)@);
        let closed = close_text_block(stream, self.content_index, &mut self.text_block_open);
        proof {
            lemma_items_bytes_add(said.items, close_items(said.state.index, said.state.open));
            assert(stream@ =~= old(stream)@ + items_bytes(end_text(old(self)@).items));
        }
        closed
    }

    /// Moves on to the next index, where there is one.
    fn next_index(&mut self) -> (moved: bool)
        ensures
            moved == (old(self)@.index + 1 <= i32::MAX),
            moved ==> final(self)@ == (StreamState { index: old(self)@.index + 1, ..old(self)@ }),
    {
        if self.content_index == i32::MAX {
            return false;
        }
        self.content_index = self.content_index + 1;
        true
    }

    /// Ends the segment and its text block, and moves on to the next index where one was open.
    fn settle(&mut self, stream: &mut Vec<u8>) -> (taken: bool)
        ensures
            taken == (settle(old(self)@).state.index <= i32::MAX),
            taken ==> final(self)@ == settle(old(self)@).state,
            taken ==> final(stream)@ == old(stream)@ + items_bytes(settle(old(self)@).items),
    {
        if self.end_text(stream) {
            self.next_index()
        } else {
            true
        }
    }

    /// Takes one content block of an assistant event.
    fn on_block(&mut self, block: &Json, stream: &mut Vec<u8>) -> (taken: bool)
        ensures
            taken == (block_step(old(self)@, block@).state.index <= i32::MAX),
            taken ==> final(self)@ == block_step(old(self)@, block@).state,
            taken ==> final(stream)@ == old(stream)@ + items_bytes(
                block_step(old(self)@, block@).items,
            ),
    {
        proof {
            lemma_block_index(old(self)@, block@);
        }
        assert(stream@ + items_bytes(seq![]) =~= stream@);
        let kind = match block.str_at("type") {
            Some(kind) => kind,
            None => "text",
        };
        if same(kind, "text") {
            match block.str_at("text") {
                Some(text) => {
                    if !text.is_empty() {
                        let ready = self.texts.push(text);
                        self.say(ready, stream);
                    }
                },
                None => {},
            }
        } else if same(kind, "tool_use") {
            let ghost settled = settle(old(self)@);
            if !self.settle(stream) {
                return false;
            }
            let name = match block.str_at("name") {
                Some(name) => name,
                None => "unknown",
            };
            let input = match block.get("input") {
                Some(input) => input.clone(),
                None => Json::Null,
            };
            let made_up = fallback_id(self.content_index);
            let tool_id = match block.str_at("id") {
                Some(id) => id,
                None => made_up.as_str(),
            };
            let _ = self.seen_tool_ids.insert(tool_id);
            emit_tool_use(stream, self.content_index, tool_id, name, input);
            if !self.next_index() {
                return false;
            }
            proof {
                let all = block_step(old(self)@, block@).items;
                let last = tool_items(settled.state.index, tool_id@, name@, input@);
                lemma_items_bytes_add(settled.items, last);
                assert(all =~= settled.items + last);
                assert(stream@ =~= old(stream)@ + items_bytes(all));
            }
        } else if same(kind, "thinking") {
            match block.str_at("thinking") {
                Some(thinking) => {
                    let ghost settled = settle(old(self)@);
                    if !self.settle(stream) {
                        return false;
                    }
                    emit_thinking(stream, thinking, self.content_index);
                    if !self.next_index() {
                        return false;
                    }
                    proof {
                        let last = thinking_items(thinking@, settled.state.index);
                        lemma_items_bytes_add(settled.items, last);
                        assert(stream@ =~= old(stream)@ + items_bytes(settled.items + last));
                    }
                },
                None => {},
            }
        }
        true
    }

    /// Takes the content blocks of an assistant event.
    fn on_blocks(&mut self, blocks: &Vec<Json>, stream: &mut Vec<u8>) -> (taken: bool)
        ensures
            taken == (blocks_step(old(self)@, Json::Array(*blocks)@.items()).state.index
                <= i32::MAX),
            taken ==> final(self)@ == blocks_step(
                old(self)@,
                Json::Array(*blocks)@.items(),
            ).state,
            taken ==> final(stream)@ == old(stream)@ + items_bytes(
                blocks_step(old(self)@, Json::Array(*blocks)@.items()).items,
            ),
    {
        let ghost all = Json::Array(*blocks)@.items();
        let ghost start = self@;
        let mut i: usize = 0;
        assert(all.take(0) =~= seq![]);
        assert(stream@ + items_bytes(seq![]) =~= stream@);
        while i < blocks.len()
            invariant
                i <= blocks@.len(),
                all == Json::Array(*blocks)@.items(),
                start == old(self)@,
                self@ == blocks_step(start, all.take(i as int)).state,
                stream@ == old(stream)@ + items_bytes(
                    blocks_step(start, all.take(i as int)).items,
                ),
            decreases blocks@.len() - i,
        {
            proof {
                lemma_blocks_index(start, all, i + 1);
                assert(all.take(i + 1).drop_last() =~= all.take(i as int));
                assert(all[i as int] == blocks@[i as int]@);
                let before = blocks_step(start, all.take(i as int));
                lemma_items_bytes_add(before.items, block_step(before.state, all[i as int]).items);
            }
            if !self.on_block(&blocks[i], stream) {
                return false;
            }
            assert(stream@ =~= old(stream)@ + items_bytes(
                blocks_step(start, all.take(i + 1)).items,
            ));
            i = i + 1;
        }
        assert(all.take(i as int) =~= all);
        true
    }

    /// Takes one event of the agent: appends to `stream` what the client is sent, and records
    /// the session where the turn has succeeded. Where the index of a content block would run
    /// out of range, the turn breaks off there and the event is not taken.
    pub fn on_event(
        &mut self,
        event: &Json,
        store: &mut HashMap<u64, SessionEntry>,
        messages: &[Message],
        model: &str,
        stream: &mut Vec<u8>,
    ) -> (taken: bool)
        requires
            messages@.len() < usize::MAX,
        ensures
            taken == (event_step(old(self)@, event@).state.index <= i32::MAX),
            taken ==> final(self)@ == event_step(old(self)@, event@).state,
            taken ==> final(stream)@ == old(stream)@ + items_bytes(
                event_step(old(self)@, event@).items,
            ),
            store_view(final(store)@) == event_store(
                store_view(old(store)@),
                old(self)@,
                event@,
                views(messages@),
                model@,
            ),
            store_valid(store_view(old(store)@)) ==> store_valid(store_view(final(store)@)),
            store_usable(store_view(old(store)@)) ==> store_usable(store_view(final(store)@)),
            old(store)@.len() <= MAX_SESSIONS ==> final(store)@.len() <= MAX_SESSIONS,
    {
        proof {
            lemma_type_words();
        }
        assert(stream@ + items_bytes(seq![]) =~= stream@);
        if event.says("type", "assistant") {
            match event.get("message") {
                Some(message) => match message.get("content") {
                    Some(Json::Array(blocks)) => {
                        return self.on_blocks(blocks, stream);
                    },
                    _ => {},
                },
                None => {},
            }
        } else if event.says("type", "system") {
            if event.says("subtype", "init") {
                match event.str_at("session_id") {
                    Some(id) => {
                        self.chat_id = id.to_owned();
                    },
                    None => {},
                }
            }
        } else if event.says("type", "tool_call") {
            let ghost settled = settle(self@);
            if !self.settle(stream) {
                return false;
            }
            let ghost last = call_items(event@, settled.state.index, settled.state.seen);
            if emit_tool_call(stream, event, self.content_index, &mut self.seen_tool_ids) {
                if !self.next_index() {
                    return false;
                }
            }
            proof {
                lemma_items_bytes_add(settled.items, last);
                assert(stream@ =~= old(stream)@ + items_bytes(settled.items + last));
            }
        } else if event.says("type", "result") {
            self.result_received = true;
            if event_succeeds(event) {
                commit_session(store, messages, model, self.chat_id.as_str());
            }
            let ghost ended = end_text(self@);
            let _ = self.end_text(stream);
            let (input, output): (u64, u64) = match event.get("usage") {
                Some(usage) => (usage.count_at("inputTokens"), usage.count_at("outputTokens")),
                None => (0, 0),
            };
            write_message_end(stream, input, output);
            proof {
                lemma_items_bytes_add(ended.items, message_end(input, output));
                assert(stream@ =~= old(stream)@ + items_bytes(
                    ended.items + message_end(input, output),
                ));
            }
        }
        true
    }

    /// Takes one line of the agent's output; a line that is no event is skipped.
    pub fn on_line(
        &mut self,
        line: &str,
        store: &mut HashMap<u64, SessionEntry>,
        messages: &[Message],
        model: &str,
        stream: &mut Vec<u8>,
    ) -> (taken: bool)
        requires
            messages@.len() < usize::MAX,
        ensures
            taken == (line_step(old(self)@, line@).state.index <= i32::MAX),
            taken ==> final(self)@ == line_step(old(self)@, line@).state,
            taken ==> final(stream)@ == old(stream)@ + items_bytes(
                line_step(old(self)@, line@).items,
            ),
            store_view(final(store)@) == line_store(
                store_view(old(store)@),
                old(self)@,
                line@,
                views(messages@),
                model@,
            ),
            store_valid(store_view(old(store)@)) ==> store_valid(store_view(final(store)@)),
            store_usable(store_view(old(store)@)) ==> store_usable(store_view(final(store)@)),
            old(store)@.len() <= MAX_SESSIONS ==> final(store)@.len() <= MAX_SESSIONS,
    {
        assert(stream@ + items_bytes(seq![]) =~= stream@);
        match read_event(line) {
            None => true,
            Some(event) => self.on_event(&event, store, messages, model, stream),
        }
    }

    /// Takes the end of the agent's output.
    pub fn finish(&mut self, stream: &mut Vec<u8>)
        ensures
            final(self)@ == finish_step(old(self)@).state,
            final(stream)@ == old(stream)@ + items_bytes(finish_step(old(self)@).items),
    {
        let ghost ended = end_text(self@);
        let _ = self.end_text(stream);
        if !self.result_received {
            write_message_end(stream, 0, 0);
            proof {
                lemma_items_bytes_add(ended.items, message_end(0, 0));
                assert(stream@ =~= old(stream)@ + items_bytes(ended.items + message_end(0, 0)));
            }
        }
    }
}

/// The event that a line of the agent's output is, where it is one.
pub fn read_event(line: &str) -> (event: Option<Json>)
    ensures
        match event {
            Some(e) => line_event(line@) == Some(e@),
            None => line_event(line@) is None,
        },
{
    if trim(line).is_empty() {
        None
    } else {
        Json::parse(line)
    }
}

/// Whether the event is the result of a turn that succeeded.
pub fn event_succeeds(event: &Json) -> (yes: bool)
    ensures
        yes == is_success(event@),
{
    event.says("type", "result") && !event.is_true_at("is_error")
}

/// Appends the event that opens the client's stream.
pub fn write_message_start(stream: &mut Vec<u8>, pid: u32, model: &str)
    ensures
        final(stream)@ == old(stream)@ + items_bytes(
            seq![message_start(message_id(pid), model@)],
        ),
{
    let content: Vec<Json> = Vec::new();
    let array = Json::Array(content);
    assert(array@->Array_0 =~= seq![]);
    let message = Json::object().with("id", Json::Text(make_message_id(pid))).with(
        "type",
        Json::of_str("message"),
    ).with("role", Json::of_str("assistant")).with("content", array).with(
        "model",
        Json::of_str(model),
    ).with("stop_reason", Json::Null).with("usage", usage_json(0, 0));
    let data = Json::object().with("type", Json::of_str("message_start")).with("message", message);
    write_sse(stream, "message_start", &data);
}

} // verus!
