//! A turn that is answered in one piece: the agent's events are gathered into one reply.

use std::collections::HashMap;

use vstd::prelude::*;
use vstd::string::*;

use crate::http::{json_response, respond_json};
use crate::json::{json_text, Json, JsonView};
use crate::prompt::{prompt_text, views, Message, MessageView};
use crate::session::{
    commit_session, committed, law_recorded_session_is_resumed, plan, same_turns, store_usable,
    store_valid, store_view, turns_of, unseen, EntryView, PlanView, SessionEntry, MAX_SESSIONS,
};
use crate::sse::{typed_text, typed_text_json};
use crate::stream_laws::{
    ends_segment, segments_events, segments_shown, text_event, text_events, Segment,
};
use crate::streaming::{
    announced, chat_after, is_result, is_success, lemma_type_words, line_event, make_message_id,
    message_id, read_event, usage_json, usage_view,
};
use crate::text_stream::{after_events, handed_out, shown, text_view, TextState, TextStream};

verus! {

/// A turn whose reply is being gathered.
#[derive(Debug)]
pub struct BlockingTurn {
    pub text: String,
    pub texts: TextStream,
    pub input_tokens: u64,
    pub output_tokens: u64,
    pub chat_id: String,
    pub succeeded: bool,
}

/// The state of a turn whose reply is being gathered.
pub struct BlockingState {
    pub text: Seq<char>,
    pub texts: TextState,
    pub input_tokens: u64,
    pub output_tokens: u64,
    pub chat_id: Seq<char>,
    pub succeeded: bool,
}

impl View for BlockingTurn {
    type V = BlockingState;

    open spec fn view(&self) -> BlockingState {
        BlockingState {
            text: self.text@,
            texts: self.texts@,
            input_tokens: self.input_tokens,
            output_tokens: self.output_tokens,
            chat_id: self.chat_id@,
            succeeded: self.succeeded,
        }
    }
}

/// The state in which a turn begins.
pub open spec fn fresh_reply() -> BlockingState {
    BlockingState {
        text: seq![],
        texts: TextState::fresh(),
        input_tokens: 0,
        output_tokens: 0,
        chat_id: seq![],
        succeeded: false,
    }
}

/// A content block: its text, where it has one, is held back and releases the text before.
pub open spec fn block_gathered(s: BlockingState, block: JsonView) -> BlockingState {
    match block.text_at("text"@) {
        Some(t) => BlockingState {
            text: s.text + shown(s.texts.pending),
            texts: s.texts.pushed(t),
            ..s
        },
        None => s,
    }
}

/// Content blocks, one after the other.
pub open spec fn blocks_gathered(s: BlockingState, blocks: Seq<JsonView>) -> BlockingState
    decreases blocks.len(),
{
    if blocks.len() == 0 {
        s
    } else {
        block_gathered(blocks_gathered(s, blocks.drop_last()), blocks.last())
    }
}

/// The segment ends: what is held back is added, unless it is the recap.
pub open spec fn segment_gathered(s: BlockingState) -> BlockingState {
    BlockingState {
        text: s.text + shown(s.texts.closing()),
        texts: TextState::fresh(),
        ..s
    }
}

/// One event of the agent: an assistant event brings text, an opening event the session id, a
/// tool call or the result ends a segment, and the result tells cost and success.
pub open spec fn event_gathered(s: BlockingState, event: JsonView) -> BlockingState {
    if event.says("type"@, "assistant"@) {
        blocks_gathered(s, event.at("message"@).at("content"@).items())
    } else if event.says("type"@, "system"@) {
        BlockingState { chat_id: chat_after(s.chat_id, event), ..s }
    } else if event.says("type"@, "tool_call"@) {
        segment_gathered(s)
    } else if is_result(event) {
        let usage = event.at("usage"@);
        BlockingState {
            input_tokens: usage.count_at("inputTokens"@),
            output_tokens: usage.count_at("outputTokens"@),
            succeeded: is_success(event),
            ..segment_gathered(s)
        }
    } else {
        s
    }
}

/// One line of the agent's output: a line that is no event is skipped.
pub open spec fn line_gathered(s: BlockingState, line: Seq<char>) -> BlockingState {
    match line_event(line) {
        Some(event) => event_gathered(s, event),
        None => s,
    }
}

/// The sessions after a turn has ended: only one that succeeded is recorded.
pub open spec fn turn_store(
    store: Map<u64, EntryView>,
    s: BlockingState,
    messages: Seq<MessageView>,
    model: Seq<char>,
) -> Map<u64, EntryView> {
    if s.succeeded {
        committed(store, messages, model, s.chat_id)
    } else {
        store
    }
}

/// The message that answers the request.
pub open spec fn reply_json(s: BlockingState, model: Seq<char>, pid: u32) -> JsonView {
    JsonView::Object(
        map![
            "id"@ => JsonView::Text(message_id(pid)),
            "type"@ => JsonView::Text("message"@),
            "role"@ => JsonView::Text("assistant"@),
            "content"@ => JsonView::Array(seq![typed_text("text"@, "text"@, s.text)]),
            "model"@ => JsonView::Text(model),
            "stop_reason"@ => JsonView::Text("end_turn"@),
            "usage"@ => usage_view(s.input_tokens, s.output_tokens),
        ],
    )
}

impl BlockingTurn {
    /// A turn of which nothing has been gathered.
    pub fn new() -> (turn: BlockingTurn)
        ensures
            turn@ == fresh_reply(),
    {
        BlockingTurn {
            text: String::new(),
            texts: TextStream::new(),
            input_tokens: 0,
            output_tokens: 0,
            chat_id: String::new(),
            succeeded: false,
        }
    }

    /// Adds the text that is ready.
    fn gather(&mut self, ready: Option<String>)
        ensures
            final(self)@ == (BlockingState {
                text: old(self)@.text + shown(text_view(ready)),
                ..old(self)@
            }),
    {
        match ready {
            Some(text) => {
                self.text.append(text.as_str());
            },
            None => {
                assert(self@.text + Seq::<char>::empty() =~= self@.text);
            },
        }
    }

    /// Ends the segment.
    fn end_segment(&mut self)
        ensures
            final(self)@ == segment_gathered(old(self)@),
    {
        let ready = self.texts.flush();
        self.gather(ready);
    }

    /// Takes the content blocks of an assistant event.
    fn on_blocks(&mut self, blocks: &Vec<Json>)
        ensures
            final(self)@ == blocks_gathered(old(self)@, Json::Array(*blocks)@.items()),
    {
        let ghost all = Json::Array(*blocks)@.items();
        let mut i: usize = 0;
        assert(all.take(0) =~= seq![]);
        while i < blocks.len()
            invariant
                i <= blocks@.len(),
                all == Json::Array(*blocks)@.items(),
                self@ == blocks_gathered(old(self)@, all.take(i as int)),
            decreases blocks@.len() - i,
        {
            assert(all.take(i + 1).drop_last() =~= all.take(i as int));
            assert(all[i as int] == blocks@[i as int]@);
            match blocks[i].str_at("text") {
                Some(text) => {
                    let ready = self.texts.push(text);
                    self.gather(ready);
                },
                None => {},
            }
            i = i + 1;
        }
        assert(all.take(i as int) =~= all);
    }

    /// Takes one event of the agent.
    pub fn on_event(&mut self, event: &Json)
        ensures
            final(self)@ == event_gathered(old(self)@, event@),
    {
        if event.says("type", "assistant") {
            match event.get("message") {
                Some(message) => match message.get("content") {
                    Some(Json::Array(blocks)) => {
                        self.on_blocks(blocks);
                    },
                    _ => {},
                },
                None => {},
            }
        } else if event.says("type", "system") {
            if event.says("subtype", "init") {
                match event.str_at("session_id") {
                    Some(id) => {
                        self.chat_id = id.to_owned();
                    },
                    None => {},
                }
            }
        } else if event.says("type", "tool_call") {
            self.end_segment();
        } else if event.says("type", "result") {
            self.end_segment();
            match event.get("usage") {
                Some(usage) => {
                    self.input_tokens = usage.count_at("inputTokens");
                    self.output_tokens = usage.count_at("outputTokens");
                },
                None => {
                    self.input_tokens = 0;
                    self.output_tokens = 0;
                },
            }
            self.succeeded = !event.is_true_at("is_error");
        }
    }

    /// Takes one line of the agent's output; a line that is no event is skipped.
    pub fn on_line(&mut self, line: &str)
        ensures
            final(self)@ == line_gathered(old(self)@, line@),
    {
        match read_event(line) {
            Some(event) => {
                self.on_event(&event);
            },
            None => {},
        }
    }

    /// Takes the end of the agent's output, and records the session where the turn has
    /// succeeded: one that failed leaves it in a state that the counting of turns does not
    /// describe.
    pub fn finish(
        &mut self,
        store: &mut HashMap<u64, SessionEntry>,
        messages: &[Message],
        model: &str,
    )
        requires
            messages@.len() < usize::MAX,
        ensures
            final(self)@ == segment_gathered(old(self)@),
            store_view(final(store)@) == turn_store(
                store_view(old(store)@),
                old(self)@,
                views(messages@),
                model@,
            ),
            store_valid(store_view(old(store)@)) ==> store_valid(store_view(final(store)@)),
            store_usable(store_view(old(store)@)) ==> store_usable(store_view(final(store)@)),
            old(store)@.len() <= MAX_SESSIONS ==> final(store)@.len() <= MAX_SESSIONS,
    {
        self.end_segment();
        if self.succeeded {
            commit_session(store, messages, model, self.chat_id.as_str());
        }
    }

    /// The message that answers the request.
    pub fn reply(&self, model: &str, pid: u32) -> (json: Json)
        ensures
            json@ == reply_json(self@, model@, pid),
    {
        let mut content: Vec<Json> = Vec::new();
        content.push(typed_text_json("text", "text", self.text.as_str()));
        let array = Json::Array(content);
        assert(array@->Array_0 =~= seq![typed_text("text"@, "text"@, self.text@)]);
        Json::object().with("id", Json::Text(make_message_id(pid))).with(
            "type",
            Json::of_str("message"),
        ).with("role", Json::of_str("assistant")).with("content", array).with(
            "model",
            Json::of_str(model),
        ).with("stop_reason", Json::of_str("end_turn")).with(
            "usage",
            usage_json(self.input_tokens, self.output_tokens),
        )
    }

    /// The response that answers the request.
    pub fn response(&self, model: &str, pid: u32) -> (response: String)
        ensures
            response@ == json_response("200 OK"@, json_text(reply_json(self@, model@, pid))),
    {
        respond_json("200 OK", self.reply(model, pid).to_text().as_str())
    }
}

// Laws
/// Events, one after the other.
pub open spec fn events_gathered(s: BlockingState, events: Seq<JsonView>) -> BlockingState
    decreases events.len(),
{
    if events.len() == 0 {
        s
    } else {
        event_gathered(events_gathered(s, events.drop_last()), events.last())
    }
}

proof fn lemma_text_event_gathered(s: BlockingState, text: Seq<char>)
    ensures
        event_gathered(s, text_event(text)).text == s.text + shown(s.texts.pending),
        event_gathered(s, text_event(text)).texts == s.texts.pushed(text),
{
    reveal_strlit("type");
    reveal_strlit("text");
    reveal_strlit("message");
    assert("type"@.len() != "message"@.len());
    assert("type"@[1] != "text"@[1]);
    let event = text_event(text);
    let block = typed_text("text"@, "text"@, text);
    assert(event.text_at("type"@) == Some("assistant"@));
    assert(event.at("message"@).at("content"@).items() =~= seq![block]);
    assert(block.text_at("text"@) == Some(text));
    assert(seq![block].drop_last() =~= seq![]);
    assert(blocks_gathered(s, seq![block].drop_last()) == s);
}

proof fn lemma_text_events_gathered(s: BlockingState, texts: Seq<Seq<char>>)
    requires
        s.texts == TextState::fresh(),
    ensures
        events_gathered(s, text_events(texts)).texts == after_events(texts),
        events_gathered(s, text_events(texts)).text == s.text + handed_out(texts),
    decreases texts.len(),
{
    if texts.len() > 0 {
        let events = text_events(texts);
        lemma_text_events_gathered(s, texts.drop_last());
        assert(events.drop_last() =~= text_events(texts.drop_last()));
        lemma_text_event_gathered(events_gathered(s, events.drop_last()), texts.last());
        assert(events_gathered(s, events).text =~= s.text + handed_out(texts));
    } else {
        assert(s.text + handed_out(texts) =~= s.text);
    }
}

proof fn lemma_events_gathered_add(s: BlockingState, a: Seq<JsonView>, b: Seq<JsonView>)
    ensures
        events_gathered(s, a + b) == events_gathered(events_gathered(s, a), b),
    decreases b.len(),
{
    if b.len() == 0 {
        assert(a + b =~= a);
    } else {
        lemma_events_gathered_add(s, a, b.drop_last());
        assert((a + b).drop_last() =~= a + b.drop_last());
    }
}

/// Whatever tool calls break it up, a turn of text replies with what its segments show: of each
/// the pieces once, in order, without the recap.
pub proof fn law_gathered_text(s: BlockingState, segments: Seq<Segment>)
    requires
        s.texts == TextState::fresh(),
        forall|i: int| 0 <= i < segments.len() ==> ends_segment((#[trigger] segments[i]).end),
    ensures
        events_gathered(s, segments_events(segments)).text == s.text + segments_shown(segments),
        events_gathered(s, segments_events(segments)).texts == TextState::fresh(),
    decreases segments.len(),
{
    if segments.len() == 0 {
        assert(s.text + segments_shown(segments) =~= s.text);
    } else {
        let earlier = segments.drop_last();
        let last = segments[segments.len() - 1];
        assert forall|i: int| 0 <= i < earlier.len() implies ends_segment(
            (#[trigger] earlier[i]).end,
        ) by {
            assert(earlier[i] == segments[i]);
        }
        assert(ends_segment(last.end));
        law_gathered_text(s, earlier);
        let before = events_gathered(s, segments_events(earlier));
        lemma_events_gathered_add(s, segments_events(earlier), last.events());
        lemma_text_events_gathered(before, last.texts);
        assert(last.events().drop_last() =~= text_events(last.texts));
        lemma_type_words();
        assert(events_gathered(s, segments_events(segments)).text =~= s.text + segments_shown(
            segments,
        ));
    }
}

/// The session of a turn is the one that its events announced last.
pub proof fn law_gathered_session_is_announced(events: Seq<JsonView>)
    ensures
        events_gathered(fresh_reply(), events).chat_id == announced(events),
    decreases events.len(),
{
    if events.len() > 0 {
        let before = events_gathered(fresh_reply(), events.drop_last());
        law_gathered_session_is_announced(events.drop_last());
        lemma_type_words();
        lemma_blocks_keep(before, events.last().at("message"@).at("content"@).items());
    }
}

/// Content blocks touch neither the session nor whether the turn succeeded.
proof fn lemma_blocks_keep(s: BlockingState, blocks: Seq<JsonView>)
    ensures
        blocks_gathered(s, blocks).chat_id == s.chat_id,
        blocks_gathered(s, blocks).succeeded == s.succeeded,
    decreases blocks.len(),
{
    if blocks.len() > 0 {
        lemma_blocks_keep(s, blocks.drop_last());
    }
}

/// A turn without a result that succeeded records no session.
pub proof fn law_only_success_is_recorded(
    store: Map<u64, EntryView>,
    events: Seq<JsonView>,
    messages: Seq<MessageView>,
    model: Seq<char>,
)
    requires
        forall|i: int| 0 <= i < events.len() ==> !is_success(#[trigger] events[i]),
    ensures
        !events_gathered(fresh_reply(), events).succeeded,
        turn_store(store, events_gathered(fresh_reply(), events), messages, model) == store,
    decreases events.len(),
{
    if events.len() > 0 {
        let earlier = events.drop_last();
        assert forall|i: int| 0 <= i < earlier.len() implies !is_success(#[trigger] earlier[i]) by {
            assert(earlier[i] == events[i]);
        }
        law_only_success_is_recorded(store, earlier, messages, model);
        assert(!is_success(events[events.len() - 1]));
        let before = events_gathered(fresh_reply(), earlier);
        lemma_blocks_keep(before, events.last().at("message"@).at("content"@).items());
    }
}

/// After a turn that succeeded, the next request of the conversation resumes the session that
/// the turn announced, and sends it only what comes after the echoed reply.
pub proof fn law_gathered_turn_is_resumed(
    store: Map<u64, EntryView>,
    events: Seq<JsonView>,
    result: JsonView,
    served: Seq<MessageView>,
    next: Seq<MessageView>,
    system: Option<JsonView>,
    model: Seq<char>,
)
    requires
        is_success(result),
        announced(events).len() > 0,
        turns_of(served).len() > 0,
        turns_of(next).len() > turns_of(served).len() + 1,
        same_turns(turns_of(served), turns_of(next), turns_of(served).len() as int),
        turns_of(next)[turns_of(served).len() as int].role == "assistant"@,
    ensures
        plan(
            turn_store(store, events_gathered(fresh_reply(), events.push(result)), served, model),
            next,
            system,
            model,
            false,
        ) == (PlanView::Resume {
            chat_id: announced(events),
            prompt: prompt_text(unseen(next, turns_of(served).len() as int + 1), None),
        }),
{
    assert(events.push(result).drop_last() =~= events);
    law_gathered_session_is_announced(events);
    lemma_type_words();
    law_recorded_session_is_resumed(store, served, next, system, model, announced(events));
}

} // verus!
