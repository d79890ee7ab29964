//! What holds of every streamed turn: the shape of the stream, the text that the client gathers
//! from it, and what is recorded of it.

use vstd::prelude::*;

use crate::json::JsonView;
use crate::prompt::{prompt_text, text_or, MessageView};
use crate::session::{
    law_recorded_session_is_resumed, plan, same_turns, turns_of, unseen, EntryView, PlanView,
};
use crate::sse::{close_items, text_items, thinking_items, tool_items, typed_text, SseItem};
use crate::streaming::{
    announced, block_step, blocks_step, end_segment, end_text, event_step, event_store, finish_step,
    fresh_turn, is_result, is_success, lemma_type_words, message_end, say, settle, stay, Step,
    StreamState,
};
use crate::text_stream::{after_events, handed_out, segment_shown, shown, TextState};
use crate::tool_call::{
    call_id, call_input, call_items, call_text, emits_call, made_up_id, name_keys,
};

verus! {

// The shape of the stream
/// Where a client stands in a stream: the lowest index that the next block may have, or, while
/// a block is open, the index of that block.
pub struct Cursor {
    pub next: int,
    pub open: bool,
}

/// Where the client stands after one more item, if the item has its place there: blocks do not
/// overlap and their indices grow, every piece belongs to the open block, and nothing else
/// comes while a block is open.
pub open spec fn advance(c: Cursor, item: SseItem) -> Option<Cursor> {
    match item {
        SseItem::BlockStart { index, .. } => if !c.open && index >= c.next {
            Some(Cursor { next: index, open: true })
        } else {
            None
        },
        SseItem::BlockDelta { index, .. } => if c.open && index == c.next {
            Some(c)
        } else {
            None
        },
        SseItem::BlockStop { index } => if c.open && index == c.next {
            Some(Cursor { next: index + 1, open: false })
        } else {
            None
        },
        _ => if !c.open {
            Some(c)
        } else {
            None
        },
    }
}

/// Where the client stands after these items, if each has its place.
pub open spec fn follow(c: Cursor, items: Seq<SseItem>) -> Option<Cursor>
    decreases items.len(),
{
    if items.len() == 0 {
        Some(c)
    } else {
        match follow(c, items.drop_last()) {
            Some(d) => advance(d, items.last()),
            None => None,
        }
    }
}

/// The client stands where the turn supposes it.
pub open spec fn in_step(s: StreamState, c: Cursor) -> bool {
    &&& c.open == s.open
    &&& if s.open {
        c.next == s.index
    } else {
        c.next <= s.index
    }
}

proof fn lemma_follow_add(c: Cursor, a: Seq<SseItem>, b: Seq<SseItem>)
    ensures
        follow(c, a + b) == (match follow(c, a) {
            Some(d) => follow(d, b),
            None => None,
        }),
    decreases b.len(),
{
    if b.len() == 0 {
        assert(a + b =~= a);
    } else {
        lemma_follow_add(c, a, b.drop_last());
        assert((a + b).drop_last() =~= a + b.drop_last());
    }
}

proof fn lemma_follow_two(c: Cursor, a: SseItem, b: SseItem)
    ensures
        follow(c, seq![a]) == advance(c, a),
        follow(c, seq![a, b]) == (match advance(c, a) {
            Some(d) => advance(d, b),
            None => None,
        }),
{
    assert(seq![a].drop_last() =~= seq![]);
    assert(follow(c, seq![a].drop_last()) == Some(c));
    assert(seq![a, b].drop_last() =~= seq![a]);
}

proof fn lemma_follow_three(c: Cursor, a: SseItem, b: SseItem, d: SseItem)
    ensures
        follow(c, seq![a, b, d]) == (match follow(c, seq![a, b]) {
            Some(e) => advance(e, d),
            None => None,
        }),
{
    assert(seq![a, b, d].drop_last() =~= seq![a, b]);
}

proof fn lemma_say_in_step(s: StreamState, ready: Option<Seq<char>>, c: Cursor)
    requires
        in_step(s, c),
    ensures
        follow(c, say(s, ready).items) matches Some(d) && in_step(say(s, ready).state, d),
{
    if let Some(t) = ready {
        let items = text_items(t, s.index, s.open);
        if t.len() > 0 {
            if s.open {
                lemma_follow_two(c, items[0], items[0]);
            } else {
                lemma_follow_two(c, items[0], items[1]);
            }
        }
    }
}

/// After the text has ended no block is open, and the next index is the one after the block
/// that was closed.
proof fn lemma_end_text_in_step(s: StreamState, c: Cursor)
    requires
        in_step(s, c),
    ensures
        follow(c, end_text(s).items) matches Some(d) && !d.open && d.next <= settle(
            s,
        ).state.index && in_step(settle(s).state, d),
{
    let quiet = StreamState { texts: TextState::fresh(), ..s };
    lemma_say_in_step(quiet, s.texts.closing(), c);
    let said = end_segment(s);
    let closing = close_items(said.state.index, said.state.open);
    lemma_follow_add(c, said.items, closing);
    let d = follow(c, said.items).unwrap();
    if said.state.open {
        lemma_follow_two(d, closing[0], closing[0]);
    }
}

proof fn lemma_tool_in_step(
    c: Cursor,
    index: int,
    id: Seq<char>,
    name: Seq<char>,
    input: JsonView,
)
    requires
        !c.open,
        c.next <= index,
    ensures
        follow(c, tool_items(index, id, name, input)) == Some(
            Cursor { next: index + 1, open: false },
        ),
{
    let items = tool_items(index, id, name, input);
    lemma_follow_two(c, items[0], items[1]);
}

proof fn lemma_block_in_step(s: StreamState, block: JsonView, c: Cursor)
    requires
        in_step(s, c),
    ensures
        follow(c, block_step(s, block).items) matches Some(d) && in_step(
            block_step(s, block).state,
            d,
        ),
{
    let kind = text_or(block.text_at("type"@), "text"@);
    if kind == "text"@ {
        if let Some(t) = block.text_at("text"@) {
            if t.len() > 0 {
                lemma_say_in_step(
                    StreamState { texts: s.texts.pushed(t), ..s },
                    s.texts.pending,
                    c,
                );
            }
        }
    } else if kind == "tool_use"@ {
        lemma_end_text_in_step(s, c);
        let settled = settle(s);
        let d = follow(c, settled.items).unwrap();
        let index = settled.state.index;
        let id = text_or(block.text_at("id"@), made_up_id(index));
        let name = text_or(block.text_at("name"@), "unknown"@);
        let last = tool_items(index, id, name, block.at("input"@));
        lemma_follow_add(c, settled.items, last);
        lemma_tool_in_step(d, index, id, name, block.at("input"@));
    } else if kind == "thinking"@ {
        if let Some(thinking) = block.text_at("thinking"@) {
            lemma_end_text_in_step(s, c);
            let settled = settle(s);
            let d = follow(c, settled.items).unwrap();
            let last = thinking_items(thinking, settled.state.index);
            lemma_follow_add(c, settled.items, last);
            if thinking.len() > 0 {
                lemma_follow_two(d, last[0], last[1]);
                lemma_follow_three(d, last[0], last[1], last[2]);
            }
        }
    }
}

proof fn lemma_blocks_in_step(s: StreamState, blocks: Seq<JsonView>, c: Cursor)
    requires
        in_step(s, c),
    ensures
        follow(c, blocks_step(s, blocks).items) matches Some(d) && in_step(
            blocks_step(s, blocks).state,
            d,
        ),
    decreases blocks.len(),
{
    if blocks.len() > 0 {
        lemma_blocks_in_step(s, blocks.drop_last(), c);
        let before = blocks_step(s, blocks.drop_last());
        let d = follow(c, before.items).unwrap();
        lemma_block_in_step(before.state, blocks.last(), d);
        lemma_follow_add(c, before.items, block_step(before.state, blocks.last()).items);
    }
}

proof fn lemma_message_end(c: Cursor, input: u64, output: u64)
    requires
        !c.open,
    ensures
        follow(c, message_end(input, output)) == Some(c),
{
    let items = message_end(input, output);
    lemma_follow_two(c, items[0], items[1]);
    lemma_follow_three(c, items[0], items[1], items[2]);
}

/// Whatever the agent sends, what the client is sent has its place in the stream. Until the
/// result the turn and the client stay in step; after it no block is open.
pub proof fn law_event_keeps_the_shape(s: StreamState, event: JsonView, c: Cursor)
    requires
        in_step(s, c),
        !s.result,
    ensures
        follow(c, event_step(s, event).items) matches Some(d) && if event_step(
            s,
            event,
        ).state.result {
            !d.open && !event_step(s, event).state.open
        } else {
            in_step(event_step(s, event).state, d)
        },
{
    if event.says("type"@, "assistant"@) {
        lemma_blocks_in_step(s, event.at("message"@).at("content"@).items(), c);
        lemma_blocks_keep(s, event.at("message"@).at("content"@).items());
    } else if event.says("type"@, "system"@) {
    } else if event.says("type"@, "tool_call"@) {
        lemma_end_text_in_step(s, c);
        let settled = settle(s);
        let d = follow(c, settled.items).unwrap();
        let (index, seen) = (settled.state.index, settled.state.seen);
        lemma_follow_add(c, settled.items, call_items(event, index, seen));
        if emits_call(event, index, seen) {
            lemma_tool_in_step(
                d,
                index,
                call_id(event, index),
                call_text(event, name_keys())->0,
                call_input(event),
            );
        }
    } else if is_result(event) {
        let t = StreamState { result: true, ..s };
        lemma_end_text_in_step(t, c);
        let d = follow(c, end_text(t).items).unwrap();
        let usage = event.at("usage"@);
        let (input, output) = (usage.count_at("inputTokens"@), usage.count_at("outputTokens"@));
        lemma_follow_add(c, end_text(t).items, message_end(input, output));
        lemma_message_end(d, input, output);
    }
}

/// Content blocks touch neither the result nor the session.
proof fn lemma_blocks_keep(s: StreamState, blocks: Seq<JsonView>)
    ensures
        blocks_step(s, blocks).state.result == s.result,
        blocks_step(s, blocks).state.chat_id == s.chat_id,
    decreases blocks.len(),
{
    if blocks.len() > 0 {
        lemma_blocks_keep(s, blocks.drop_last());
    }
}

/// Events, one after the other.
pub open spec fn events_step(s: StreamState, events: Seq<JsonView>) -> Step
    decreases events.len(),
{
    if events.len() == 0 {
        stay(s)
    } else {
        let before = events_step(s, events.drop_last());
        before.and(event_step(before.state, events.last()))
    }
}

proof fn lemma_events_in_step(events: Seq<JsonView>)
    requires
        forall|i: int| 0 <= i < events.len() ==> !is_result(#[trigger] events[i]),
    ensures
        !events_step(fresh_turn(), events).state.result,
        ({
            let sent = events_step(fresh_turn(), events);
            follow(Cursor { next: 0, open: false }, sent.items) matches Some(d) && in_step(
                sent.state,
                d,
            )
        }),
    decreases events.len(),
{
    let c = Cursor { next: 0, open: false };
    if events.len() > 0 {
        let earlier = events.drop_last();
        assert forall|i: int| 0 <= i < earlier.len() implies !is_result(#[trigger] earlier[i]) by {
            assert(earlier[i] == events[i]);
        }
        lemma_events_in_step(earlier);
        let before = events_step(fresh_turn(), earlier);
        let d = follow(c, before.items).unwrap();
        assert(!is_result(events[events.len() - 1]));
        law_event_keeps_the_shape(before.state, events.last(), d);
        lemma_follow_add(c, before.items, event_step(before.state, events.last()).items);
        lemma_blocks_keep(before.state, events.last().at("message"@).at("content"@).items());
    }
}

/// A whole turn, up to its result or to an output that breaks off without one, is a stream of
/// blocks that do not overlap and whose indices grow, and it ends with every block closed.
pub proof fn law_turn_is_well_formed(events: Seq<JsonView>)
    requires
        forall|i: int| 0 <= i < events.len() - 1 ==> !is_result(#[trigger] events[i]),
    ensures
        ({
            let sent = events_step(fresh_turn(), events);
            follow(
                Cursor { next: 0, open: false },
                sent.and(finish_step(sent.state)).items,
            ) matches Some(d) && !d.open
        }),
{
    let c = Cursor { next: 0, open: false };
    let sent = events_step(fresh_turn(), events);
    let ending = finish_step(sent.state);
    lemma_follow_add(c, sent.items, ending.items);
    if events.len() == 0 || !is_result(events.last()) {
        assert(forall|i: int| 0 <= i < events.len() ==> !is_result(#[trigger] events[i]));
        lemma_events_in_step(events);
        let d = follow(c, sent.items).unwrap();
        lemma_end_text_in_step(sent.state, d);
        let ended = end_text(sent.state);
        let e = follow(d, ended.items).unwrap();
        lemma_follow_add(d, ended.items, message_end(0, 0));
        lemma_message_end(e, 0, 0);
    } else {
        let earlier = events.drop_last();
        assert forall|i: int| 0 <= i < earlier.len() implies !is_result(#[trigger] earlier[i]) by {
            assert(earlier[i] == events[i]);
        }
        lemma_events_in_step(earlier);
        let before = events_step(fresh_turn(), earlier);
        let d = follow(c, before.items).unwrap();
        lemma_type_words();
        law_event_keeps_the_shape(before.state, events.last(), d);
        lemma_follow_add(c, before.items, event_step(before.state, events.last()).items);
        assert(sent.state.texts.closing() is None);
        assert(ending.items =~= seq![]);
    }
}

// The text of the stream
/// The text that an item adds to the reply.
pub open spec fn item_reply(item: SseItem) -> Seq<char> {
    match item {
        SseItem::BlockDelta { delta, .. } => if delta.says("type"@, "text_delta"@) {
            text_or(delta.text_at("text"@), seq![])
        } else {
            seq![]
        },
        _ => seq![],
    }
}

/// The reply that a client gathers from these items.
pub open spec fn reply(items: Seq<SseItem>) -> Seq<char>
    decreases items.len(),
{
    if items.len() == 0 {
        seq![]
    } else {
        reply(items.drop_last()) + item_reply(items.last())
    }
}

proof fn lemma_reply_add(a: Seq<SseItem>, b: Seq<SseItem>)
    ensures
        reply(a + b) == reply(a) + reply(b),
    decreases b.len(),
{
    if b.len() == 0 {
        assert(a + b =~= a);
        assert(reply(a) + reply(b) =~= reply(a));
    } else {
        lemma_reply_add(a, b.drop_last());
        assert((a + b).drop_last() =~= a + b.drop_last());
        assert(reply(a + b) =~= reply(a) + reply(b));
    }
}

proof fn lemma_reply_silent(items: Seq<SseItem>)
    requires
        forall|i: int| 0 <= i < items.len() ==> item_reply(#[trigger] items[i]).len() == 0,
    ensures
        reply(items) == Seq::<char>::empty(),
    decreases items.len(),
{
    if items.len() > 0 {
        let earlier = items.drop_last();
        assert forall|i: int| 0 <= i < earlier.len() implies item_reply(
            #[trigger] earlier[i],
        ).len() == 0 by {
            assert(earlier[i] == items[i]);
        }
        lemma_reply_silent(earlier);
        assert(item_reply(items[items.len() - 1]).len() == 0);
        assert(reply(items) =~= seq![]);
    }
}

proof fn lemma_reply_words()
    ensures
        "type"@ != "text"@,
        "type"@ != "thinking"@,
        "text_delta"@ != "thinking_delta"@,
{
    reveal_strlit("type");
    reveal_strlit("text");
    reveal_strlit("thinking");
    reveal_strlit("text_delta");
    reveal_strlit("thinking_delta");
    assert("type"@[1] != "text"@[1]);
    assert("text_delta"@.len() != "thinking_delta"@.len());
}

proof fn lemma_reply_text(t: Seq<char>, index: int, open: bool)
    ensures
        reply(text_items(t, index, open)) == t,
{
    lemma_reply_words();
    let items = text_items(t, index, open);
    if t.len() > 0 {
        let last = items.last();
        assert(last->delta.text_at("type"@) == Some("text_delta"@));
        assert(last->delta.text_at("text"@) == Some(t));
        assert(item_reply(last) == t);
        lemma_reply_silent(items.drop_last());
        assert(reply(items) =~= t);
    } else {
        assert(items =~= seq![]);
        assert(t =~= seq![]);
    }
}

proof fn lemma_reply_say(s: StreamState, ready: Option<Seq<char>>)
    ensures
        reply(say(s, ready).items) == shown(ready),
{
    if let Some(t) = ready {
        lemma_reply_text(t, s.index, s.open);
    }
}

proof fn lemma_reply_end_text(s: StreamState)
    ensures
        reply(end_text(s).items) == shown(s.texts.closing()),
{
    let quiet = StreamState { texts: TextState::fresh(), ..s };
    lemma_reply_say(quiet, s.texts.closing());
    let said = end_segment(s);
    let closing = close_items(said.state.index, said.state.open);
    lemma_reply_add(said.items, closing);
    lemma_reply_silent(closing);
    assert(reply(end_text(s).items) =~= shown(s.texts.closing()));
}

/// A content block adds to the client's reply exactly the text that the text stream hands out
/// for it: text releases the text held back, a tool call or reasoning closes the segment, and
/// neither calls nor reasoning are part of the reply.
pub proof fn law_block_reply(s: StreamState, block: JsonView)
    ensures
        reply(block_step(s, block).items) == ({
            let kind = text_or(block.text_at("type"@), "text"@);
            if kind == "text"@ {
                match block.text_at("text"@) {
                    Some(t) if t.len() > 0 => shown(s.texts.pending),
                    _ => seq![],
                }
            } else if kind == "tool_use"@ || (kind == "thinking"@ && block.text_at(
                "thinking"@,
            ) is Some) {
                shown(s.texts.closing())
            } else {
                seq![]
            }
        }),
{
    let kind = text_or(block.text_at("type"@), "text"@);
    lemma_reply_words();
    if kind == "text"@ {
        if let Some(t) = block.text_at("text"@) {
            if t.len() > 0 {
                lemma_reply_say(StreamState { texts: s.texts.pushed(t), ..s }, s.texts.pending);
            }
        }
    } else if kind == "tool_use"@ {
        lemma_reply_end_text(s);
        let index = settle(s).state.index;
        let last = tool_items(
            index,
            text_or(block.text_at("id"@), made_up_id(index)),
            text_or(block.text_at("name"@), "unknown"@),
            block.at("input"@),
        );
        lemma_reply_add(settle(s).items, last);
        lemma_reply_silent(last);
        assert(reply(block_step(s, block).items) =~= shown(s.texts.closing()));
    } else if kind == "thinking"@ {
        if let Some(thinking) = block.text_at("thinking"@) {
            lemma_reply_end_text(s);
            let last = thinking_items(thinking, settle(s).state.index);
            lemma_reply_add(settle(s).items, last);
            if thinking.len() > 0 {
                assert(last[1]->delta.text_at("type"@) == Some("thinking_delta"@));
            }
            lemma_reply_silent(last);
            assert(reply(block_step(s, block).items) =~= shown(s.texts.closing()));
        }
    }
}

/// An event that brings one piece of text.
pub open spec fn text_event(text: Seq<char>) -> JsonView {
    JsonView::Object(
        map![
            "type"@ => JsonView::Text("assistant"@),
            "message"@ => JsonView::Object(
                map!["content"@ => JsonView::Array(seq![typed_text("text"@, "text"@, text)])],
            ),
        ],
    )
}

/// Events that bring these pieces of text, one each.
pub open spec fn text_events(texts: Seq<Seq<char>>) -> Seq<JsonView> {
    texts.map_values(|t: Seq<char>| text_event(t))
}

/// The event closes a segment of text: a tool call or the result.
pub open spec fn ends_segment(event: JsonView) -> bool {
    event.says("type"@, "tool_call"@) || is_result(event)
}

/// A segment of a turn: pieces of text, and the event that closes it.
pub struct Segment {
    pub texts: Seq<Seq<char>>,
    pub end: JsonView,
}

impl Segment {
    /// No piece is empty, and the end closes a segment.
    pub open spec fn valid(self) -> bool {
        &&& forall|i: int| 0 <= i < self.texts.len() ==> (#[trigger] self.texts[i]).len() > 0
        &&& ends_segment(self.end)
    }

    /// The events of the segment.
    pub open spec fn events(self) -> Seq<JsonView> {
        text_events(self.texts).push(self.end)
    }
}

/// The events of segments, one after the other.
pub open spec fn segments_events(segments: Seq<Segment>) -> Seq<JsonView>
    decreases segments.len(),
{
    if segments.len() == 0 {
        seq![]
    } else {
        segments_events(segments.drop_last()) + segments.last().events()
    }
}

/// What the user sees of segments, one after the other.
pub open spec fn segments_shown(segments: Seq<Segment>) -> Seq<char>
    decreases segments.len(),
{
    if segments.len() == 0 {
        seq![]
    } else {
        segments_shown(segments.drop_last()) + segment_shown(segments.last().texts)
    }
}

proof fn lemma_text_event(s: StreamState, text: Seq<char>)
    requires
        text.len() > 0,
    ensures
        event_step(s, text_event(text)).state.texts == s.texts.pushed(text),
        reply(event_step(s, text_event(text)).items) == shown(s.texts.pending),
{
    lemma_reply_words();
    reveal_strlit("type");
    reveal_strlit("message");
    assert("type"@.len() != "message"@.len());
    let event = text_event(text);
    let block = typed_text("text"@, "text"@, text);
    assert(event.text_at("type"@) == Some("assistant"@));
    assert(event.at("message"@).at("content"@).items() =~= seq![block]);
    assert(block.text_at("type"@) == Some("text"@));
    assert(block.text_at("text"@) == Some(text));
    assert(seq![block].drop_last() =~= seq![]);
    assert(blocks_step(s, seq![block].drop_last()) == stay(s));
    assert(blocks_step(s, seq![block]).items =~= block_step(s, block).items);
    law_block_reply(s, block);
}

proof fn lemma_text_events(s: StreamState, texts: Seq<Seq<char>>)
    requires
        s.texts == TextState::fresh(),
        forall|i: int| 0 <= i < texts.len() ==> (#[trigger] texts[i]).len() > 0,
    ensures
        events_step(s, text_events(texts)).state.texts == after_events(texts),
        reply(events_step(s, text_events(texts)).items) == handed_out(texts),
    decreases texts.len(),
{
    if texts.len() > 0 {
        let events = text_events(texts);
        let earlier = texts.drop_last();
        assert forall|i: int| 0 <= i < earlier.len() implies (#[trigger] earlier[i]).len() > 0 by {
            assert(earlier[i] == texts[i]);
        }
        lemma_text_events(s, earlier);
        assert(events.drop_last() =~= text_events(earlier));
        let before = events_step(s, events.drop_last());
        assert(texts[texts.len() - 1].len() > 0);
        lemma_text_event(before.state, texts.last());
        lemma_reply_add(before.items, event_step(before.state, events.last()).items);
    }
}

/// A tool call or the result closes the segment: it adds to the reply what is held back, unless
/// that is the recap, and a new segment begins.
pub proof fn law_closing_reply(s: StreamState, event: JsonView)
    requires
        ends_segment(event),
    ensures
        reply(event_step(s, event).items) == shown(s.texts.closing()),
        event_step(s, event).state.texts == TextState::fresh(),
{
    lemma_type_words();
    if is_result(event) {
        let t = StreamState { result: true, ..s };
        let usage = event.at("usage"@);
        let ending = message_end(usage.count_at("inputTokens"@), usage.count_at("outputTokens"@));
        lemma_reply_end_text(t);
        lemma_reply_add(end_text(t).items, ending);
        lemma_reply_silent(ending);
    } else {
        lemma_reply_end_text(s);
        let (index, seen) = (settle(s).state.index, settle(s).state.seen);
        lemma_reply_add(settle(s).items, call_items(event, index, seen));
        lemma_reply_silent(call_items(event, index, seen));
    }
    assert(reply(event_step(s, event).items) =~= shown(s.texts.closing()));
}

proof fn lemma_events_step_add(s: StreamState, a: Seq<JsonView>, b: Seq<JsonView>)
    ensures
        events_step(s, a + b) == events_step(s, a).and(events_step(events_step(s, a).state, b)),
    decreases b.len(),
{
    let first = events_step(s, a);
    if b.len() == 0 {
        assert(a + b =~= a);
        assert(first.and(stay(first.state)).items =~= first.items);
    } else {
        lemma_events_step_add(s, a, b.drop_last());
        assert((a + b).drop_last() =~= a + b.drop_last());
        assert(events_step(s, a + b).items =~= first.and(events_step(first.state, b)).items);
    }
}

proof fn lemma_segment_reply(s: StreamState, segment: Segment)
    requires
        s.texts == TextState::fresh(),
        segment.valid(),
    ensures
        reply(events_step(s, segment.events()).items) == segment_shown(segment.texts),
        events_step(s, segment.events()).state.texts == TextState::fresh(),
{
    let events = text_events(segment.texts);
    lemma_text_events(s, segment.texts);
    assert(segment.events().drop_last() =~= events);
    let before = events_step(s, events);
    law_closing_reply(before.state, segment.end);
    lemma_reply_add(before.items, event_step(before.state, segment.end).items);
}

/// Whatever tool calls break it up, a turn of text gives the client what its segments show: of
/// each the pieces once, in order, without the recap.
pub proof fn law_streamed_text(s: StreamState, segments: Seq<Segment>)
    requires
        s.texts == TextState::fresh(),
        forall|i: int| 0 <= i < segments.len() ==> (#[trigger] segments[i]).valid(),
    ensures
        reply(events_step(s, segments_events(segments)).items) == segments_shown(segments),
        events_step(s, segments_events(segments)).state.texts == TextState::fresh(),
    decreases segments.len(),
{
    if segments.len() > 0 {
        let earlier = segments.drop_last();
        assert forall|i: int| 0 <= i < earlier.len() implies (#[trigger] earlier[i]).valid() by {
            assert(earlier[i] == segments[i]);
        }
        assert(segments[segments.len() - 1].valid());
        law_streamed_text(s, earlier);
        let before = events_step(s, segments_events(earlier));
        lemma_segment_reply(before.state, segments.last());
        lemma_events_step_add(s, segments_events(earlier), segments.last().events());
        lemma_reply_add(
            before.items,
            events_step(before.state, segments.last().events()).items,
        );
    }
}

// The parts of the stream
/// The item belongs to a content block. One that starts a block carries no text of it, for a
/// client adds up the start and all the pieces.
pub open spec fn of_a_block(item: SseItem) -> bool {
    match item {
        SseItem::BlockStart { block, .. } => {
            &&& text_or(block.text_at("text"@), seq![]).len() == 0
            &&& text_or(block.text_at("thinking"@), seq![]).len() == 0
        },
        SseItem::BlockDelta { .. } => true,
        SseItem::BlockStop { .. } => true,
        _ => false,
    }
}

/// All the items belong to content blocks.
pub open spec fn of_blocks(items: Seq<SseItem>) -> bool {
    forall|i: int| 0 <= i < items.len() ==> of_a_block(#[trigger] items[i])
}

proof fn lemma_of_blocks_add(a: Seq<SseItem>, b: Seq<SseItem>)
    requires
        of_blocks(a),
        of_blocks(b),
    ensures
        of_blocks(a + b),
{
    assert forall|i: int| 0 <= i < (a + b).len() implies of_a_block(#[trigger] (a + b)[i]) by {
        if i < a.len() {
            assert(of_a_block(a[i]));
        } else {
            assert(of_a_block(b[i - a.len()]));
        }
    }
}

proof fn lemma_start_words()
    ensures
        ""@.len() == 0,
        "type"@ != "text"@,
        "type"@ != "thinking"@,
        "text"@ != "thinking"@,
        "id"@ != "text"@,
        "id"@ != "thinking"@,
        "name"@ != "text"@,
        "name"@ != "thinking"@,
        "input"@ != "text"@,
        "input"@ != "thinking"@,
{
    reveal_strlit("");
    reveal_strlit("type");
    reveal_strlit("text");
    reveal_strlit("thinking");
    reveal_strlit("id");
    reveal_strlit("name");
    reveal_strlit("input");
    assert("type"@[1] != "text"@[1]);
    assert("name"@[0] != "text"@[0]);
    assert("id"@.len() != "thinking"@.len());
    assert("input"@.len() != "thinking"@.len());
}

proof fn lemma_end_text_of_blocks(s: StreamState)
    ensures
        of_blocks(end_text(s).items),
{
    lemma_start_words();
    let said = end_segment(s);
    if let Some(t) = s.texts.closing() {
        let items = text_items(t, s.index, s.open);
        assert(of_blocks(items));
    }
    lemma_of_blocks_add(said.items, close_items(said.state.index, said.state.open));
}

proof fn lemma_tool_of_blocks(index: int, id: Seq<char>, name: Seq<char>, input: JsonView)
    ensures
        of_blocks(tool_items(index, id, name, input)),
{
    lemma_start_words();
    let items = tool_items(index, id, name, input);
    assert(of_a_block(items[0]));
    assert(of_a_block(items[1]));
}

proof fn lemma_block_of_blocks(s: StreamState, block: JsonView)
    ensures
        of_blocks(block_step(s, block).items),
{
    lemma_start_words();
    let kind = text_or(block.text_at("type"@), "text"@);
    if kind == "text"@ {
        if let (Some(t), Some(held)) = (block.text_at("text"@), s.texts.pending) {
            assert(of_blocks(text_items(held, s.index, s.open)));
        }
    } else if kind == "tool_use"@ {
        lemma_end_text_of_blocks(s);
        let index = settle(s).state.index;
        let id = text_or(block.text_at("id"@), made_up_id(index));
        let name = text_or(block.text_at("name"@), "unknown"@);
        lemma_tool_of_blocks(index, id, name, block.at("input"@));
        lemma_of_blocks_add(settle(s).items, tool_items(index, id, name, block.at("input"@)));
    } else if kind == "thinking"@ {
        if let Some(thinking) = block.text_at("thinking"@) {
            lemma_end_text_of_blocks(s);
            let items = thinking_items(thinking, settle(s).state.index);
            assert(of_blocks(items));
            lemma_of_blocks_add(settle(s).items, items);
        }
    }
}

proof fn lemma_blocks_of_blocks(s: StreamState, blocks: Seq<JsonView>)
    ensures
        of_blocks(blocks_step(s, blocks).items),
    decreases blocks.len(),
{
    if blocks.len() > 0 {
        lemma_blocks_of_blocks(s, blocks.drop_last());
        let before = blocks_step(s, blocks.drop_last());
        lemma_block_of_blocks(before.state, blocks.last());
        lemma_of_blocks_add(before.items, block_step(before.state, blocks.last()).items);
    }
}

/// Until the result the client is sent nothing but content blocks, and no block starts with
/// content: only pieces carry it.
pub proof fn law_starts_are_empty(s: StreamState, event: JsonView)
    requires
        !is_result(event),
    ensures
        of_blocks(event_step(s, event).items),
{
    if event.says("type"@, "assistant"@) {
        lemma_blocks_of_blocks(s, event.at("message"@).at("content"@).items());
    } else if event.says("type"@, "tool_call"@) {
        lemma_end_text_of_blocks(s);
        let (index, seen) = (settle(s).state.index, settle(s).state.seen);
        if emits_call(event, index, seen) {
            lemma_tool_of_blocks(
                index,
                call_id(event, index),
                call_text(event, name_keys())->0,
                call_input(event),
            );
        }
        lemma_of_blocks_add(settle(s).items, call_items(event, index, seen));
    }
}

proof fn lemma_events_of_blocks(events: Seq<JsonView>)
    requires
        forall|i: int| 0 <= i < events.len() ==> !is_result(#[trigger] events[i]),
    ensures
        of_blocks(events_step(fresh_turn(), events).items),
    decreases events.len(),
{
    if events.len() > 0 {
        let earlier = events.drop_last();
        assert forall|i: int| 0 <= i < earlier.len() implies !is_result(#[trigger] earlier[i]) by {
            assert(earlier[i] == events[i]);
        }
        lemma_events_of_blocks(earlier);
        let before = events_step(fresh_turn(), earlier);
        assert(!is_result(events[events.len() - 1]));
        law_starts_are_empty(before.state, events.last());
        lemma_of_blocks_add(before.items, event_step(before.state, events.last()).items);
    }
}

/// What closes the message of a turn: with the counts of its result, or with none where its
/// output breaks off.
pub open spec fn turn_end(events: Seq<JsonView>) -> Seq<SseItem> {
    if events.len() > 0 && is_result(events.last()) {
        let usage = events.last().at("usage"@);
        message_end(usage.count_at("inputTokens"@), usage.count_at("outputTokens"@))
    } else {
        message_end(0, 0)
    }
}

/// A whole turn, up to its result or to an output that breaks off without one, closes the
/// message exactly once, and it does so after all the content blocks.
pub proof fn law_message_is_closed_once(events: Seq<JsonView>)
    requires
        forall|i: int| 0 <= i < events.len() - 1 ==> !is_result(#[trigger] events[i]),
    ensures
        ({
            let sent = events_step(fresh_turn(), events);
            exists|blocks: Seq<SseItem>| #[trigger]
                of_blocks(blocks) && sent.and(finish_step(sent.state)).items == blocks + turn_end(
                    events,
                )
        }),
{
    let sent = events_step(fresh_turn(), events);
    let all = sent.and(finish_step(sent.state)).items;
    if events.len() == 0 || !is_result(events.last()) {
        assert(forall|i: int| 0 <= i < events.len() ==> !is_result(#[trigger] events[i]));
        lemma_events_of_blocks(events);
        lemma_events_in_step(events);
        lemma_end_text_of_blocks(sent.state);
        let blocks = sent.items + end_text(sent.state).items;
        lemma_of_blocks_add(sent.items, end_text(sent.state).items);
        assert(all =~= blocks + turn_end(events));
        assert(of_blocks(blocks));
    } else {
        let earlier = events.drop_last();
        assert forall|i: int| 0 <= i < earlier.len() implies !is_result(#[trigger] earlier[i]) by {
            assert(earlier[i] == events[i]);
        }
        lemma_events_of_blocks(earlier);
        lemma_type_words();
        let before = events_step(fresh_turn(), earlier);
        let ended = StreamState { result: true, ..before.state };
        lemma_end_text_of_blocks(ended);
        let blocks = before.items + end_text(ended).items;
        lemma_of_blocks_add(before.items, end_text(ended).items);
        assert(finish_step(sent.state).items =~= seq![]);
        assert(all =~= blocks + turn_end(events));
        assert(of_blocks(blocks));
    }
}

// What is recorded
/// The sessions after these events of a turn.
pub open spec fn events_store(
    store: Map<u64, EntryView>,
    events: Seq<JsonView>,
    messages: Seq<MessageView>,
    model: Seq<char>,
) -> Map<u64, EntryView>
    decreases events.len(),
{
    if events.len() == 0 {
        store
    } else {
        event_store(
            events_store(store, events.drop_last(), messages, model),
            events_step(fresh_turn(), events.drop_last()).state,
            events.last(),
            messages,
            model,
        )
    }
}

/// The session of a turn is the one that its events announced last.
pub proof fn law_session_is_announced(events: Seq<JsonView>)
    ensures
        events_step(fresh_turn(), events).state.chat_id == announced(events),
    decreases events.len(),
{
    if events.len() > 0 {
        let before = events_step(fresh_turn(), events.drop_last());
        law_session_is_announced(events.drop_last());
        lemma_type_words();
        lemma_blocks_keep(before.state, events.last().at("message"@).at("content"@).items());
    }
}

/// A turn without a result that succeeded records no session.
pub proof fn law_failed_turn_is_not_recorded(
    store: Map<u64, EntryView>,
    events: Seq<JsonView>,
    messages: Seq<MessageView>,
    model: Seq<char>,
)
    requires
        forall|i: int| 0 <= i < events.len() ==> !is_success(#[trigger] events[i]),
    ensures
        events_store(store, events, messages, model) == store,
    decreases events.len(),
{
    if events.len() > 0 {
        let earlier = events.drop_last();
        assert forall|i: int| 0 <= i < earlier.len() implies !is_success(#[trigger] earlier[i]) by {
            assert(earlier[i] == events[i]);
        }
        law_failed_turn_is_not_recorded(store, earlier, messages, model);
        assert(!is_success(events[events.len() - 1]));
    }
}

/// After a turn that succeeded, the next request of the conversation resumes the session that
/// the turn announced, and sends it only what comes after the echoed reply.
pub proof fn law_streamed_turn_is_resumed(
    store: Map<u64, EntryView>,
    events: Seq<JsonView>,
    result: JsonView,
    served: Seq<MessageView>,
    next: Seq<MessageView>,
    system: Option<JsonView>,
    model: Seq<char>,
)
    requires
        is_success(result),
        announced(events).len() > 0,
        turns_of(served).len() > 0,
        turns_of(next).len() > turns_of(served).len() + 1,
        same_turns(turns_of(served), turns_of(next), turns_of(served).len() as int),
        turns_of(next)[turns_of(served).len() as int].role == "assistant"@,
    ensures
        plan(events_store(store, events.push(result), served, model), next, system, model, false)
            == (PlanView::Resume {
            chat_id: announced(events),
            prompt: prompt_text(unseen(next, turns_of(served).len() as int + 1), None),
        }),
{
    assert(events.push(result).drop_last() =~= events);
    law_session_is_announced(events);
    law_recorded_session_is_resumed(
        events_store(store, events, served, model),
        served,
        next,
        system,
        model,
        announced(events),
    );
}

} // verus!
