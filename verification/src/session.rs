//! Sessions: recognising a conversation that has been served before, so that a request has to
//! carry only what is new.
//!
//! A request repeats the whole transcript. Conversations are looked up by their opening turn,
//! and the match is confirmed by a hash of the turns that were last served and by the echo of the
//! reply, so that a forked or edited transcript starts a new session instead of going on from the
//! wrong history.

use std::collections::hash_map::DefaultHasher;
use std::collections::HashMap;
use std::hash::Hasher;

use vstd::bytes::{spec_u64_to_le_bytes, u64_to_le_bytes};
use vstd::prelude::*;
use vstd::std_specs::hash::*;
use vstd::string::*;
use vstd::utf8::encode_utf8;

use crate::agent::opt_view;
use crate::json::{Json, JsonView};
use crate::prompt::{
    build_prompt, content_text, extract_text, messages_text, prompt_text, system_view, views,
    Message, MessageView,
};
use crate::text::{
    chars_of, find_chars, find_from, lemma_find_from, lemma_find_from_is, lemma_find_from_skip,
    occurs_at, same, trim, trimmed,
};

verus! {

broadcast use group_hash_axioms;

// Turns
/// A user or assistant message, as far as it identifies a conversation. Messages of other
/// roles, and the reminder blocks in a text, are rebuilt by the client for every request.
#[derive(Debug)]
pub struct Turn {
    /// The position of the message in the request.
    pub raw_index: usize,
    pub role: String,
    pub text: String,
}

/// A turn as the contracts speak of it.
pub struct TurnView {
    pub raw_index: int,
    pub role: Seq<char>,
    pub text: Seq<char>,
}

impl View for Turn {
    type V = TurnView;

    open spec fn view(&self) -> TurnView {
        TurnView { raw_index: self.raw_index as int, role: self.role@, text: self.text@ }
    }
}

/// The turns of a list, as the contracts speak of them.
pub open spec fn turn_views(turns: Seq<Turn>) -> Seq<TurnView> {
    turns.map_values(|t: Turn| t@)
}

/// What opens a reminder block.
pub open spec fn reminder_open() -> Seq<char> {
    "<system-reminder>"@
}

/// What closes a reminder block.
pub open spec fn reminder_close() -> Seq<char> {
    "</system-reminder>"@
}

/// `s` without its reminder blocks; one that is not closed takes the rest with it.
pub open spec fn without_reminders(s: Seq<char>) -> Seq<char>
    decreases s.len(),
{
    match find_from(s, reminder_open(), 0) {
        None => s,
        Some(start) => match find_from(s, reminder_close(), start) {
            None => s.take(start),
            Some(end) => {
                proof {
                    reveal_strlit("</system-reminder>");
                    lemma_find_from(s, reminder_open(), 0);
                    lemma_find_from(s, reminder_close(), start);
                }
                s.take(start) + without_reminders(s.skip(end + reminder_close().len()))
            },
        },
    }
}

/// The text that identifies a turn: without reminder blocks and outer whitespace.
pub open spec fn stable_text(s: Seq<char>) -> Seq<char> {
    trimmed(without_reminders(s))
}

/// Removes the reminder blocks, which the client writes anew for every request, and the
/// whitespace around what is left.
pub fn strip_reminders(text: &str) -> (stripped: String)
    ensures
        stripped@ == stable_text(text@),
{
    let open = chars_of("<system-reminder>");
    let close = chars_of("</system-reminder>");
    let chars = chars_of(text);
    let total: usize = chars.len();
    let mut out = String::new();
    let mut pos: usize = 0;
    assert(text@.skip(0) =~= text@);
    assert(out@ + without_reminders(text@) =~= without_reminders(text@));
    loop
        invariant_except_break
            pos <= total,
            out@ + without_reminders(text@.skip(pos as int)) == without_reminders(text@),
        invariant
            total == chars@.len(),
            chars@ == text@,
            open@ == reminder_open(),
            close@ == reminder_close(),
        ensures
            out@ == without_reminders(text@),
        decreases total - pos,
    {
        let ghost rest = text@.skip(pos as int);
        proof {
            lemma_find_from_skip(text@, reminder_open(), pos as int, 0);
            lemma_find_from(rest, reminder_open(), 0);
        }
        match find_chars(&chars, &open, pos) {
            None => {
                out.append(text.substring_char(pos, total));
                assert(text@.subrange(pos as int, total as int) =~= rest);
                break;
            },
            Some(start) => {
                proof {
                    lemma_find_from_skip(text@, reminder_close(), pos as int, start - pos);
                    lemma_find_from(rest, reminder_close(), start - pos);
                    reveal_strlit("</system-reminder>");
                    assert(text@.subrange(pos as int, start as int) =~= rest.take(start - pos));
                }
                let ghost sofar = out@;
                out.append(text.substring_char(pos, start));
                match find_chars(&chars, &close, start) {
                    None => {
                        break;
                    },
                    Some(end) => {
                        let next: usize = end + close.len();
                        assert(rest.skip(next - pos) =~= text@.skip(next as int));
                        assert(out@ + without_reminders(text@.skip(next as int)) =~= sofar
                            + without_reminders(rest));
                        pos = next;
                    },
                }
            },
        }
    }
    trim(out.as_str()).to_owned()
}

/// The message is a turn of the conversation.
pub open spec fn is_turn(message: MessageView) -> bool {
    message.role == "user"@ || message.role == "assistant"@
}

/// The turn that the message at `raw_index` is.
pub open spec fn turn_of(message: MessageView, raw_index: int) -> TurnView {
    TurnView {
        raw_index,
        role: message.role,
        text: stable_text(content_text(message.content)),
    }
}

/// The turns of a request: its user and assistant messages, with their positions.
pub open spec fn turns_of(messages: Seq<MessageView>) -> Seq<TurnView>
    decreases messages.len(),
{
    if messages.len() == 0 {
        seq![]
    } else {
        let earlier = turns_of(messages.drop_last());
        if is_turn(messages.last()) {
            earlier.push(turn_of(messages.last(), messages.len() - 1))
        } else {
            earlier
        }
    }
}

/// The turns of a request.
pub fn conversation(messages: &[Message]) -> (turns: Vec<Turn>)
    ensures
        turn_views(turns@) == turns_of(views(messages@)),
{
    let ghost all = views(messages@);
    let mut turns: Vec<Turn> = Vec::new();
    let mut i: usize = 0;
    assert(turn_views(turns@) =~= turns_of(all.take(0)));
    while i < messages.len()
        invariant
            i <= messages@.len(),
            all == views(messages@),
            turn_views(turns@) == turns_of(all.take(i as int)),
        decreases messages@.len() - i,
    {
        let message = &messages[i];
        assert(all.take(i + 1).drop_last() =~= all.take(i as int));
        assert(all.take(i + 1).last() == message@);
        if same(message.role.as_str(), "user") || same(message.role.as_str(), "assistant") {
            let content = extract_text(&message.content);
            let ghost earlier = turns@;
            let turn = Turn {
                raw_index: i,
                role: message.role.clone(),
                text: strip_reminders(content.as_str()),
            };
            turns.push(turn);
            assert(turn_views(turns@) =~= turn_views(earlier).push(turn@));
        }
        i = i + 1;
    }
    assert(all.take(i as int) =~= all);
    turns
}

// Hashing
/// The byte that is hashed after a text, which no text in UTF-8 holds.
pub const TEXT_END: u8 = 0xff;

/// What is hashed of a text.
pub open spec fn text_writes(s: Seq<char>) -> Seq<Seq<u8>> {
    seq![encode_utf8(s), seq![TEXT_END]]
}

/// What is hashed of the turn at `position`: its position, its role, and, unless it is the
/// assistant's, its text.
pub open spec fn turn_writes(position: int, turn: TurnView) -> Seq<Seq<u8>> {
    let head = seq![spec_u64_to_le_bytes(position as u64)] + text_writes(turn.role);
    if turn.role == "assistant"@ {
        head
    } else {
        head + text_writes(turn.text)
    }
}

/// What is hashed of the first `n` turns.
pub open spec fn hash_input(turns: Seq<TurnView>, n: int) -> Seq<Seq<u8>>
    decreases n,
{
    if n <= 0 {
        seq![]
    } else {
        hash_input(turns, n - 1) + turn_writes(n - 1, turns[n - 1])
    }
}

fn hash_text(s: &str, hasher: &mut DefaultHasher)
    ensures
        final(hasher)@ == old(hasher)@ + text_writes(s@),
{
    hasher.write(s.as_bytes());
    let end: [u8; 1] = [TEXT_END];
    assert(end@ =~= seq![TEXT_END]);
    hasher.write(&end);
    assert(hasher@ =~= old(hasher)@ + text_writes(s@));
}

fn hash_turn(position: usize, turn: &Turn, hasher: &mut DefaultHasher)
    ensures
        final(hasher)@ == old(hasher)@ + turn_writes(position as int, turn@),
{
    let place = u64_to_le_bytes(position as u64);
    hasher.write(place.as_slice());
    hash_text(turn.role.as_str(), hasher);
    if !same(turn.role.as_str(), "assistant") {
        hash_text(turn.text.as_str(), hasher);
    }
    assert(hasher@ =~= old(hasher)@ + turn_writes(position as int, turn@));
}

/// The hash of the first `upto` turns, or of all where there are fewer.
pub open spec fn turns_hash(turns: Seq<TurnView>, upto: int) -> u64 {
    DefaultHasher::spec_finish(
        hash_input(
            turns,
            if upto < turns.len() {
                upto
            } else {
                turns.len() as int
            },
        ),
    )
}

/// Hashes the first `upto` turns by position and role, and by text for what the client wrote.
///
/// The assistant's own text is left out: a reply is recorded before the client echoes it, and
/// its echoed form need not be the form in which it was sent.
pub fn prefix_hash(turns: &[Turn], upto: usize) -> (hash: u64)
    ensures
        hash == turns_hash(turn_views(turns@), upto as int),
{
    let ghost all = turn_views(turns@);
    let mut hasher = DefaultHasher::new();
    let mut i: usize = 0;
    while i < turns.len() && i < upto
        invariant
            i <= turns@.len(),
            i <= upto,
            all == turn_views(turns@),
            hasher@ == hash_input(all, i as int),
        decreases turns@.len() - i,
    {
        let turn = &turns[i];
        assert(turn@ == all[i as int]);
        hash_turn(i, turn, &mut hasher);
        i = i + 1;
    }
    hasher.finish()
}

/// Conversations are looked up by their opening turn.
pub fn conversation_key(turns: &[Turn]) -> (key: u64)
    ensures
        key == turns_hash(turn_views(turns@), 1),
{
    prefix_hash(turns, 1)
}

// The store
/// What is known of a session.
#[derive(Debug)]
pub struct SessionEntry {
    pub chat_id: String,
    /// Turns of the next request that the session already knows: all that it was given, and
    /// the reply that it made.
    pub consumed: usize,
    /// Length and hash of the turns as they stood in the request last served. `consumed` counts
    /// one further: the reply, which the client has not echoed yet.
    pub verify_len: usize,
    pub verify_hash: u64,
    pub model: String,
}

/// A session entry as the contracts speak of it.
pub struct EntryView {
    pub chat_id: Seq<char>,
    pub consumed: int,
    pub verify_len: int,
    pub verify_hash: u64,
    pub model: Seq<char>,
}

impl View for SessionEntry {
    type V = EntryView;

    open spec fn view(&self) -> EntryView {
        EntryView {
            chat_id: self.chat_id@,
            consumed: self.consumed as int,
            verify_len: self.verify_len as int,
            verify_hash: self.verify_hash,
            model: self.model@,
        }
    }
}

/// A store of sessions as the contracts speak of it.
pub open spec fn store_view(store: Map<u64, SessionEntry>) -> Map<u64, EntryView> {
    store.map_values(|e: SessionEntry| e@)
}

/// Every session of the store has an id, has served at least one turn, and knows its own reply to
/// it.
pub open spec fn store_valid(store: Map<u64, EntryView>) -> bool {
    forall|key: u64| #[trigger]
        store.contains_key(key) ==> {
            &&& store[key].chat_id.len() > 0
            &&& store[key].verify_len >= 1
            &&& store[key].consumed == store[key].verify_len + 1
        }
}

/// Every session of the store knows at least one turn. This is all that planning needs, and it
/// holds of a valid store.
pub open spec fn store_usable(store: Map<u64, EntryView>) -> bool {
    forall|key: u64| #[trigger] store.contains_key(key) ==> store[key].consumed >= 1
}

/// The most sessions that the store holds.
pub const MAX_SESSIONS: usize = 128;

/// A store without sessions.
pub fn sessions() -> (store: HashMap<u64, SessionEntry>)
    ensures
        store_view(store@) == Map::<u64, EntryView>::empty(),
        store_valid(store_view(store@)),
        store_usable(store_view(store@)),
{
    let store: HashMap<u64, SessionEntry> = HashMap::new();
    assert(store_view(store@) =~= Map::<u64, EntryView>::empty());
    store
}

// Planning
/// How to serve a request.
#[derive(Debug)]
pub enum TurnPlan {
    /// No session fits: the whole transcript goes into a new one.
    Fresh { prompt: String },
    /// A session fits: it is sent only what it has not seen.
    Resume { chat_id: String, prompt: String },
}

/// A plan as the contracts speak of it.
pub enum PlanView {
    Fresh { prompt: Seq<char> },
    Resume { chat_id: Seq<char>, prompt: Seq<char> },
}

impl View for TurnPlan {
    type V = PlanView;

    open spec fn view(&self) -> PlanView {
        match *self {
            TurnPlan::Fresh { prompt } => PlanView::Fresh { prompt: prompt@ },
            TurnPlan::Resume { chat_id, prompt } => PlanView::Resume {
                chat_id: chat_id@,
                prompt: prompt@,
            },
        }
    }
}

/// The session can go on with these turns: same model, turns that it has not seen, a prefix that
/// hashes to what it last served, and after that prefix the reply that it made. Where another
/// turn stands in the place of the reply, the session has not seen that turn.
pub open spec fn resumable(entry: EntryView, turns: Seq<TurnView>, model: Seq<char>) -> bool {
    &&& entry.model == model
    &&& entry.consumed < turns.len()
    &&& entry.verify_len <= turns.len()
    &&& turns_hash(turns, entry.verify_len) == entry.verify_hash
    &&& turns[entry.consumed - 1].role == "assistant"@
}

/// Why a request starts a new session.
#[derive(Debug, Clone, Copy, PartialEq, Eq, Structural)]
pub enum FreshReason {
    /// The request has no turns.
    NoTurns,
    /// Resuming is switched off.
    ResumeDisabled,
    /// No session is known under the opening turn.
    UnknownConversation,
    ModelChanged,
    /// The session has seen all the turns.
    NothingNew,
    /// There are fewer turns than the session has served.
    HistoryShorter,
    /// The turns served no longer hash to what they did.
    PrefixChanged,
    /// The turn in the place of the reply is not the assistant's.
    ReplyNotEchoed,
}

/// Why a session cannot go on with so many turns, whose served prefix hashes to `hash`, and in
/// which the reply is `echoed` in its place or not: the first reason that there is.
pub open spec fn entry_cause(
    entry: EntryView,
    turn_count: int,
    model: Seq<char>,
    hash: u64,
    echoed: bool,
) -> Option<FreshReason> {
    if entry.model != model {
        Some(FreshReason::ModelChanged)
    } else if entry.consumed >= turn_count {
        Some(FreshReason::NothingNew)
    } else if entry.verify_len > turn_count {
        Some(FreshReason::HistoryShorter)
    } else if hash != entry.verify_hash {
        Some(FreshReason::PrefixChanged)
    } else if !echoed {
        Some(FreshReason::ReplyNotEchoed)
    } else {
        None
    }
}

/// Why a request with these turns starts a new session: the first reason that there is, or none
/// where a session goes on.
pub open spec fn fresh_cause(
    store: Map<u64, EntryView>,
    turns: Seq<TurnView>,
    model: Seq<char>,
    no_resume: bool,
) -> Option<FreshReason> {
    let key = turns_hash(turns, 1);
    if turns.len() == 0 {
        Some(FreshReason::NoTurns)
    } else if no_resume {
        Some(FreshReason::ResumeDisabled)
    } else if !store.contains_key(key) {
        Some(FreshReason::UnknownConversation)
    } else {
        let entry = store[key];
        entry_cause(
            entry,
            turns.len() as int,
            model,
            turns_hash(turns, entry.verify_len),
            turns[entry.consumed - 1].role == "assistant"@,
        )
    }
}

/// The messages that a session has not seen, which has consumed so many of the turns: all that
/// stand after the last turn consumed, whatever their role.
pub open spec fn unseen(messages: Seq<MessageView>, consumed: int) -> Seq<MessageView> {
    messages.skip(turns_of(messages)[consumed - 1].raw_index + 1)
}

/// How a request is to be served.
pub open spec fn plan(
    store: Map<u64, EntryView>,
    messages: Seq<MessageView>,
    system: Option<JsonView>,
    model: Seq<char>,
    no_resume: bool,
) -> PlanView {
    let turns = turns_of(messages);
    let key = turns_hash(turns, 1);
    if turns.len() > 0 && !no_resume && store.contains_key(key) && resumable(
        store[key],
        turns,
        model,
    ) {
        PlanView::Resume {
            chat_id: store[key].chat_id,
            prompt: prompt_text(unseen(messages, store[key].consumed), None),
        }
    } else {
        PlanView::Fresh { prompt: prompt_text(messages, system) }
    }
}

/// The positions of turns grow and lie within the request.
pub proof fn lemma_turn_positions(messages: Seq<MessageView>)
    ensures
        turns_of(messages).len() <= messages.len(),
        forall|i: int|
            0 <= i < turns_of(messages).len() ==> 0 <= (
            #[trigger] turns_of(messages)[i]).raw_index < messages.len(),
        forall|i: int, j: int|
            0 <= i < j < turns_of(messages).len() ==> (#[trigger] turns_of(messages)[i]).raw_index
                < (#[trigger] turns_of(messages)[j]).raw_index,
    decreases messages.len(),
{
    if messages.len() > 0 {
        lemma_turn_positions(messages.drop_last());
    }
}

/// Resuming is switched off by this value of its environment variable.
pub open spec fn resume_off(value: Option<Seq<char>>) -> bool {
    value matches Some(v) && v.len() > 0 && v != "0"@
}

/// Whether resuming is switched off, by the value of its environment variable.
pub fn resume_disabled(value: Option<&str>) -> (disabled: bool)
    ensures
        disabled == resume_off(opt_view(value)),
        disabled == (value matches Some(v) && v@.len() > 0 && v@ != "0"@),
{
    match value {
        Some(v) => !v.is_empty() && !same(v, "0"),
        None => false,
    }
}

/// Why a session cannot go on with so many turns, whose served prefix hashes to `hash`, and in
/// which the reply is `echoed` in its place or not; none where it can.
pub fn entry_reason(
    entry: &SessionEntry,
    turn_count: usize,
    model: &str,
    hash: u64,
    echoed: bool,
) -> (reason: Option<FreshReason>)
    ensures
        reason == entry_cause(entry@, turn_count as int, model@, hash, echoed),
{
    if !same(entry.model.as_str(), model) {
        Some(FreshReason::ModelChanged)
    } else if entry.consumed >= turn_count {
        Some(FreshReason::NothingNew)
    } else if entry.verify_len > turn_count {
        Some(FreshReason::HistoryShorter)
    } else if hash != entry.verify_hash {
        Some(FreshReason::PrefixChanged)
    } else if !echoed {
        Some(FreshReason::ReplyNotEchoed)
    } else {
        None
    }
}

/// The session that goes on with these turns, or why there is none.
fn find_session<'a>(
    store: &'a HashMap<u64, SessionEntry>,
    turns: &[Turn],
    model: &str,
    no_resume: bool,
) -> (found: Result<&'a SessionEntry, FreshReason>)
    requires
        store_usable(store_view(store@)),
    ensures
        match found {
            Ok(entry) => {
                let key = turns_hash(turn_views(turns@), 1);
                &&& fresh_cause(store_view(store@), turn_views(turns@), model@, no_resume) is None
                &&& store_view(store@).contains_key(key)
                &&& store_view(store@)[key] == entry@
            },
            Err(reason) => fresh_cause(
                store_view(store@),
                turn_views(turns@),
                model@,
                no_resume,
            ) == Some(reason),
        },
{
    if turns.len() == 0 {
        return Err(FreshReason::NoTurns);
    }
    if no_resume {
        return Err(FreshReason::ResumeDisabled);
    }
    let key: u64 = conversation_key(turns);
    match store.get(&key) {
        None => Err(FreshReason::UnknownConversation),
        Some(entry) => {
            assert(store_view(store@).contains_key(key));
            assert(store_view(store@)[key] == entry@);
            let count: usize = turns.len();
            let hash: u64 = prefix_hash(turns, entry.verify_len);
            let echoed = entry.consumed <= count && same(
                turns[entry.consumed - 1].role.as_str(),
                "assistant",
            );
            assert(entry.consumed <= count ==> turn_views(turns@)[entry.consumed - 1]
                == turns@[entry.consumed - 1]@);
            match entry_reason(entry, count, model, hash, echoed) {
                Some(reason) => Err(reason),
                None => Ok(entry),
            }
        },
    }
}

/// Why a request starts a new session; none where one is resumed.
pub fn fresh_reason(
    store: &HashMap<u64, SessionEntry>,
    messages: &[Message],
    model: &str,
    no_resume: bool,
) -> (reason: Option<FreshReason>)
    requires
        store_usable(store_view(store@)),
    ensures
        reason == fresh_cause(
            store_view(store@),
            turns_of(views(messages@)),
            model@,
            no_resume,
        ),
{
    match find_session(store, conversation(messages).as_slice(), model, no_resume) {
        Ok(_) => None,
        Err(reason) => Some(reason),
    }
}

/// Decides how to serve a request.
pub fn plan_turn(
    store: &HashMap<u64, SessionEntry>,
    messages: &[Message],
    system: &Option<Json>,
    model: &str,
    no_resume: bool,
) -> (decided: TurnPlan)
    requires
        store_usable(store_view(store@)),
    ensures
        decided@ == plan(
            store_view(store@),
            views(messages@),
            system_view(*system),
            model@,
            no_resume,
        ),
{
    let turns = conversation(messages);
    match find_session(store, turns.as_slice(), model, no_resume) {
        Err(_) => TurnPlan::Fresh { prompt: build_prompt(messages, system) },
        Ok(entry) => {
            proof {
                lemma_turn_positions(views(messages@));
                assert(turn_views(turns@)[entry.consumed - 1] == turns@[entry.consumed - 1]@);
            }
            // Everything that the client added after the last turn consumed, taken from the
            // request as it came, so that what stands between the turns still travels.
            let total: usize = messages.len();
            let start: usize = turns[entry.consumed - 1].raw_index + 1;
            let rest = vstd::slice::slice_subrange(messages, start, total);
            assert(views(rest@) =~= unseen(views(messages@), entry.consumed as int));
            // The session carries the system prompt since it was opened.
            TurnPlan::Resume {
                chat_id: entry.chat_id.clone(),
                prompt: build_prompt(rest, &None),
            }
        },
    }
}

/// A session is recorded of these messages under this id: there are turns, and there is an id.
pub open spec fn is_recorded(messages: Seq<MessageView>, chat_id: Seq<char>) -> bool {
    turns_of(messages).len() > 0 && chat_id.len() > 0
}

/// Whether a session is recorded of messages under an id.
pub fn will_record(messages: &[Message], chat_id: &str) -> (yes: bool)
    ensures
        yes == is_recorded(views(messages@), chat_id@),
{
    !chat_id.is_empty() && conversation(messages).len() > 0
}

/// The store after a turn has been served: nothing changes without turns or without a session
/// id; otherwise the conversation's entry is replaced, in a store that is emptied first where
/// it is full.
pub open spec fn committed(
    store: Map<u64, EntryView>,
    messages: Seq<MessageView>,
    model: Seq<char>,
    chat_id: Seq<char>,
) -> Map<u64, EntryView> {
    let turns = turns_of(messages);
    if !is_recorded(messages, chat_id) {
        store
    } else {
        let room = if store.len() >= MAX_SESSIONS {
            Map::empty()
        } else {
            store
        };
        room.insert(
            turns_hash(turns, 1),
            EntryView {
                chat_id,
                consumed: turns.len() as int + 1,
                verify_len: turns.len() as int,
                verify_hash: turns_hash(turns, turns.len() as int),
                model,
            },
        )
    }
}

/// Records what a session knows after a turn, so that the next request can skip it.
pub fn commit_session(
    store: &mut HashMap<u64, SessionEntry>,
    messages: &[Message],
    model: &str,
    chat_id: &str,
)
    requires
        messages@.len() < usize::MAX,
    ensures
        store_view(final(store)@) == committed(
            store_view(old(store)@),
            views(messages@),
            model@,
            chat_id@,
        ),
        store_valid(store_view(old(store)@)) ==> store_valid(store_view(final(store)@)),
        store_usable(store_view(old(store)@)) ==> store_usable(store_view(final(store)@)),
        old(store)@.len() <= MAX_SESSIONS ==> final(store)@.len() <= MAX_SESSIONS,
{
    let turns = conversation(messages);
    if turns.len() == 0 || chat_id.is_empty() {
        return;
    }
    proof {
        lemma_turn_positions(views(messages@));
        assert(store_view(store@).dom() =~= store@.dom());
    }
    if store.len() >= MAX_SESSIONS {
        store.clear();
        assert(store_view(store@) =~= Map::<u64, EntryView>::empty());
    }
    let verify_len: usize = turns.len();
    let key: u64 = conversation_key(turns.as_slice());
    let ghost room = store@;
    let entry = SessionEntry {
        chat_id: chat_id.to_owned(),
        consumed: verify_len + 1,
        verify_len,
        verify_hash: prefix_hash(turns.as_slice(), verify_len),
        model: model.to_owned(),
    };
    store.insert(key, entry);
    assert(store_view(store@) =~= store_view(room).insert(key, entry@));
}

// Laws: what identifies a conversation
/// Two turns that count as the same: same role and, unless it is the assistant's, same text.
pub open spec fn same_turn(a: TurnView, b: TurnView) -> bool {
    a.role == b.role && (a.role == "assistant"@ || a.text == b.text)
}

/// The first `n` turns of both count as the same.
pub open spec fn same_turns(a: Seq<TurnView>, b: Seq<TurnView>, n: int) -> bool {
    &&& n <= a.len()
    &&& n <= b.len()
    &&& forall|i: int| 0 <= i < n ==> same_turn(#[trigger] a[i], #[trigger] b[i])
}

proof fn lemma_same_input(a: Seq<TurnView>, b: Seq<TurnView>, n: int)
    requires
        same_turns(a, b, n),
    ensures
        hash_input(a, n) == hash_input(b, n),
    decreases n,
{
    if n > 0 {
        lemma_same_input(a, b, n - 1);
        assert(same_turn(a[n - 1], b[n - 1]));
    }
}

/// Turns that count as the same hash to the same: neither the assistant's wording nor the
/// position of a message in the request matters.
pub proof fn law_same_turns_same_hash(a: Seq<TurnView>, b: Seq<TurnView>, n: int)
    requires
        0 <= n,
        same_turns(a, b, n),
    ensures
        turns_hash(a, n) == turns_hash(b, n),
{
    lemma_same_input(a, b, n);
}

/// What is hashed says what was served: only turns that count as the same, and as many of them,
/// are hashed from the same bytes. A turn that is edited, added, dropped or moved changes them.
pub proof fn law_hash_input_tells_turns_apart(a: Seq<TurnView>, b: Seq<TurnView>, n: int, m: int)
    requires
        0 <= n <= a.len(),
        0 <= m <= b.len(),
        hash_input(a, n) == hash_input(b, m),
    ensures
        n == m,
        same_turns(a, b, n),
    decreases n,
{
    if n > 0 && m > 0 {
        let (s, t) = (a[n - 1], b[m - 1]);
        let (x, y) = (turn_writes(n - 1, s), turn_writes(m - 1, t));
        let all = hash_input(a, n);
        vstd::bytes::lemma_auto_spec_u64_to_from_le_bytes();
        assert(all[all.len() - 3] == x[x.len() - 3]);
        assert(all[all.len() - 3] == y[y.len() - 3]);
        assert(x.len() == y.len());
        assert(hash_input(a, n - 1) =~= all.take(all.len() - x.len()));
        assert(hash_input(b, m - 1) =~= all.take(all.len() - y.len()));
        law_hash_input_tells_turns_apart(a, b, n - 1, m - 1);
        assert(x =~= all.skip(all.len() - x.len()));
        assert(y =~= all.skip(all.len() - y.len()));
        assert(x[1] == encode_utf8(s.role) && y[1] == encode_utf8(t.role));
        vstd::utf8::encode_utf8_decode_utf8(s.role);
        vstd::utf8::encode_utf8_decode_utf8(t.role);
        if s.role != "assistant"@ {
            assert(x[3] == encode_utf8(s.text) && y[3] == encode_utf8(t.text));
            vstd::utf8::encode_utf8_decode_utf8(s.text);
            vstd::utf8::encode_utf8_decode_utf8(t.text);
        }
        assert(same_turn(s, t));
    }
}

/// A message that is no turn, wherever it stands, does not change which conversation a request
/// belongs to.
pub proof fn law_other_messages_do_not_count(
    earlier: Seq<MessageView>,
    other: MessageView,
    later: Seq<MessageView>,
)
    requires
        !is_turn(other),
    ensures
        turns_of(earlier.push(other) + later).len() == turns_of(earlier + later).len(),
        same_turns(
            turns_of(earlier.push(other) + later),
            turns_of(earlier + later),
            turns_of(earlier + later).len() as int,
        ),
    decreases later.len(),
{
    if later.len() == 0 {
        assert(earlier.push(other) + later =~= earlier.push(other));
        assert(earlier + later =~= earlier);
        assert(earlier.push(other).drop_last() =~= earlier);
    } else {
        law_other_messages_do_not_count(earlier, other, later.drop_last());
        assert((earlier.push(other) + later).drop_last() =~= earlier.push(other)
            + later.drop_last());
        assert((earlier + later).drop_last() =~= earlier + later.drop_last());
    }
}

/// `pat` stands for the first time where `s` ends, in `s` followed by `pat`.
pub open spec fn first_at_end(s: Seq<char>, pat: Seq<char>) -> bool {
    forall|j: int| 0 <= j < s.len() ==> !occurs_at(s + pat, pat, j)
}

/// A reminder block leaves no trace, whatever it says: the text before it stays, and what comes
/// after it is read on.
pub proof fn law_reminder_is_removed(head: Seq<char>, said: Seq<char>, rest: Seq<char>)
    requires
        first_at_end(head, reminder_open()),
        first_at_end(said, reminder_close()),
    ensures
        without_reminders(head + reminder_open() + said + reminder_close() + rest) == head
            + without_reminders(rest),
{
    let open = reminder_open();
    let close = reminder_close();
    reveal_strlit("<system-reminder>");
    reveal_strlit("</system-reminder>");
    let s = head + open + said + close + rest;
    let start = head.len() as int;
    let end = start + open.len() + said.len();
    assert(s.subrange(start, start + open.len()) =~= open);
    assert forall|j: int| 0 <= j < start implies !occurs_at(s, open, j) by {
        if occurs_at(s, open, j) {
            assert((head + open).subrange(j, j + open.len()) =~= s.subrange(j, j + open.len()));
            assert(occurs_at(head + open, open, j));
        }
    }
    lemma_find_from_is(s, open, 0, start);
    assert(s.subrange(end, end + close.len()) =~= close);
    assert forall|j: int| start <= j < end implies !occurs_at(s, close, j) by {
        if occurs_at(s, close, j) {
            let found = s.subrange(j, j + close.len());
            assert(found[0] == s[j] && found[1] == s[j + 1]);
            if j < start + open.len() {
                assert(s[j] == open[j - start]);
                assert(s[start + 1] == open[1]);
            } else {
                let k = j - start - open.len();
                assert((said + close).subrange(k, k + close.len()) =~= found);
                assert(occurs_at(said + close, close, k));
            }
        }
    }
    lemma_find_from_is(s, close, start, end);
    assert(s.take(start) =~= head);
    assert(s.skip(end + close.len()) =~= rest);
}

/// The text of a turn does not depend on what a reminder block in it says.
pub proof fn law_reminders_do_not_count(
    head: Seq<char>,
    said: Seq<char>,
    instead: Seq<char>,
    rest: Seq<char>,
)
    requires
        first_at_end(head, reminder_open()),
        first_at_end(said, reminder_close()),
        first_at_end(instead, reminder_close()),
    ensures
        stable_text(head + reminder_open() + said + reminder_close() + rest) == stable_text(
            head + reminder_open() + instead + reminder_close() + rest,
        ),
{
    law_reminder_is_removed(head, said, rest);
    law_reminder_is_removed(head, instead, rest);
}

/// A reminder that is not closed takes everything after it along.
pub proof fn law_open_reminder_takes_the_rest(head: Seq<char>, rest: Seq<char>)
    requires
        first_at_end(head, reminder_open()),
        forall|j: int| !occurs_at(reminder_open() + rest, reminder_close(), j),
    ensures
        without_reminders(head + reminder_open() + rest) == head,
{
    let open = reminder_open();
    let close = reminder_close();
    let s = head + open + rest;
    let start = head.len() as int;
    assert(s.subrange(start, start + open.len()) =~= open);
    assert forall|j: int| 0 <= j < start implies !occurs_at(s, open, j) by {
        if occurs_at(s, open, j) {
            assert((head + open).subrange(j, j + open.len()) =~= s.subrange(j, j + open.len()));
            assert(occurs_at(head + open, open, j));
        }
    }
    lemma_find_from_is(s, open, 0, start);
    lemma_find_from(s, close, start);
    if let Some(j) = find_from(s, close, start) {
        assert((open + rest).subrange(j - start, j - start + close.len()) =~= s.subrange(
            j,
            j + close.len(),
        ));
        assert(occurs_at(open + rest, close, j - start));
    }
    assert(s.take(start) =~= head);
}

// Laws: sessions
/// The next request of a conversation that has just been recorded resumes its session: the
/// turns served count as the same, the model is the same, the reply is echoed, and after it there
/// is something new. The session is sent exactly the messages after that reply.
pub proof fn law_recorded_session_is_resumed(
    store: Map<u64, EntryView>,
    served: Seq<MessageView>,
    next: Seq<MessageView>,
    system: Option<JsonView>,
    model: Seq<char>,
    chat_id: Seq<char>,
)
    requires
        chat_id.len() > 0,
        turns_of(served).len() > 0,
        turns_of(next).len() > turns_of(served).len() + 1,
        same_turns(turns_of(served), turns_of(next), turns_of(served).len() as int),
        turns_of(next)[turns_of(served).len() as int].role == "assistant"@,
    ensures
        plan(committed(store, served, model, chat_id), next, system, model, false)
            == (PlanView::Resume {
            chat_id,
            prompt: prompt_text(unseen(next, turns_of(served).len() as int + 1), None),
        }),
{
    let (a, b) = (turns_of(served), turns_of(next));
    assert(same_turns(a, b, 1));
    law_same_turns_same_hash(a, b, 1);
    law_same_turns_same_hash(a, b, a.len() as int);
}

/// A request that repeats one that has been served is not resumed: there is nothing new.
pub proof fn law_repeated_request_is_fresh(
    store: Map<u64, EntryView>,
    served: Seq<MessageView>,
    system: Option<JsonView>,
    model: Seq<char>,
    chat_id: Seq<char>,
)
    requires
        chat_id.len() > 0,
    ensures
        plan(committed(store, served, model, chat_id), served, system, model, false)
            == (PlanView::Fresh { prompt: prompt_text(served, system) }),
{
}

/// A session is not resumed under another model.
pub proof fn law_other_model_is_fresh(
    store: Map<u64, EntryView>,
    served: Seq<MessageView>,
    next: Seq<MessageView>,
    system: Option<JsonView>,
    model: Seq<char>,
    other: Seq<char>,
    chat_id: Seq<char>,
)
    requires
        chat_id.len() > 0,
        turns_of(served).len() > 0,
        turns_hash(turns_of(next), 1) == turns_hash(turns_of(served), 1),
        other != model,
    ensures
        plan(committed(store, served, model, chat_id), next, system, other, false)
            == (PlanView::Fresh { prompt: prompt_text(next, system) }),
{
}

/// A transcript whose turns no longer hash to what was served is not resumed: it is replayed
/// as a whole.
pub proof fn law_changed_history_is_fresh(
    store: Map<u64, EntryView>,
    served: Seq<MessageView>,
    next: Seq<MessageView>,
    system: Option<JsonView>,
    model: Seq<char>,
    chat_id: Seq<char>,
)
    requires
        chat_id.len() > 0,
        turns_of(served).len() > 0,
        turns_hash(turns_of(next), 1) == turns_hash(turns_of(served), 1),
        turns_hash(turns_of(next), turns_of(served).len() as int) != turns_hash(
            turns_of(served),
            turns_of(served).len() as int,
        ),
    ensures
        plan(committed(store, served, model, chat_id), next, system, model, false)
            == (PlanView::Fresh { prompt: prompt_text(next, system) }),
{
}

/// A transcript in which a turn that was served has been edited, dropped or moved is not
/// resumed, unless the hash takes the two histories for one: it is replayed as a whole.
pub proof fn law_edited_history_is_fresh(
    store: Map<u64, EntryView>,
    served: Seq<MessageView>,
    next: Seq<MessageView>,
    system: Option<JsonView>,
    model: Seq<char>,
    chat_id: Seq<char>,
)
    requires
        chat_id.len() > 0,
        turns_of(served).len() > 0,
        turns_hash(turns_of(next), 1) == turns_hash(turns_of(served), 1),
        !same_turns(turns_of(served), turns_of(next), turns_of(served).len() as int),
        ({
            let n = turns_of(served).len() as int;
            let (x, y) = (hash_input(turns_of(served), n), hash_input(turns_of(next), n));
            x != y ==> DefaultHasher::spec_finish(x) != DefaultHasher::spec_finish(y)
        }),
    ensures
        plan(committed(store, served, model, chat_id), next, system, model, false)
            == (PlanView::Fresh { prompt: prompt_text(next, system) }),
{
    let (a, b) = (turns_of(served), turns_of(next));
    if a.len() <= b.len() && hash_input(a, a.len() as int) == hash_input(b, a.len() as int) {
        law_hash_input_tells_turns_apart(a, b, a.len() as int, a.len() as int);
    }
}

/// A transcript from which the reply has been dropped is not resumed: the turn in the place of the
/// reply is one that the session has not seen, so the transcript is replayed as a whole.
pub proof fn law_dropped_reply_is_fresh(
    store: Map<u64, EntryView>,
    served: Seq<MessageView>,
    next: Seq<MessageView>,
    system: Option<JsonView>,
    model: Seq<char>,
    chat_id: Seq<char>,
)
    requires
        chat_id.len() > 0,
        turns_of(served).len() > 0,
        turns_of(next).len() > turns_of(served).len(),
        turns_hash(turns_of(next), 1) == turns_hash(turns_of(served), 1),
        turns_of(next)[turns_of(served).len() as int].role != "assistant"@,
    ensures
        plan(committed(store, served, model, chat_id), next, system, model, false)
            == (PlanView::Fresh { prompt: prompt_text(next, system) }),
{
}

/// A conversation whose opening hashes to nothing in the store starts a new session.
pub proof fn law_unknown_opening_is_fresh(
    store: Map<u64, EntryView>,
    messages: Seq<MessageView>,
    system: Option<JsonView>,
    model: Seq<char>,
)
    requires
        !store.contains_key(turns_hash(turns_of(messages), 1)),
    ensures
        plan(store, messages, system, model, false) == (PlanView::Fresh {
            prompt: prompt_text(messages, system),
        }),
{
}

/// There is a reason for a new session exactly where the plan is to start one.
pub proof fn law_reason_explains_the_plan(
    store: Map<u64, EntryView>,
    messages: Seq<MessageView>,
    system: Option<JsonView>,
    model: Seq<char>,
    no_resume: bool,
)
    ensures
        fresh_cause(store, turns_of(messages), model, no_resume) is None <==> plan(
            store,
            messages,
            system,
            model,
            no_resume,
        ) is Resume,
{
}

/// A valid store is one that planning can use.
pub proof fn law_valid_store_is_usable(store: Map<u64, EntryView>)
    requires
        store_valid(store),
    ensures
        store_usable(store),
{
}

/// Without a session id nothing is recorded.
pub proof fn law_no_id_no_session(
    store: Map<u64, EntryView>,
    messages: Seq<MessageView>,
    model: Seq<char>,
)
    ensures
        committed(store, messages, model, seq![]) == store,
{
}

/// What is recorded of one turn.
pub struct Record {
    pub messages: Seq<MessageView>,
    pub model: Seq<char>,
    pub chat_id: Seq<char>,
}

/// The store after these turns have been recorded, one after the other, from none.
pub open spec fn recorded(records: Seq<Record>) -> Map<u64, EntryView>
    decreases records.len(),
{
    if records.len() == 0 {
        Map::empty()
    } else {
        let last = records.last();
        committed(recorded(records.drop_last()), last.messages, last.model, last.chat_id)
    }
}

/// Whatever has been recorded, the store holds no more sessions than it may, and each has an id,
/// has served at least one turn, and knows its own reply.
pub proof fn law_store_stays_valid(records: Seq<Record>)
    ensures
        recorded(records).dom().finite(),
        recorded(records).len() <= MAX_SESSIONS,
        store_valid(recorded(records)),
    decreases records.len(),
{
    if records.len() > 0 {
        law_store_stays_valid(records.drop_last());
    }
}

proof fn lemma_messages_text_split(messages: Seq<MessageView>, k: int)
    requires
        0 <= k <= messages.len(),
    ensures
        messages_text(messages) == messages_text(messages.take(k)) + messages_text(
            messages.skip(k),
        ),
    decreases messages.len(),
{
    if k == messages.len() {
        assert(messages.take(k) =~= messages);
        assert(messages.skip(k) =~= seq![]);
        assert(messages_text(messages.skip(k)) =~= seq![]);
        assert(messages_text(messages) + messages_text(messages.skip(k)) =~= messages_text(
            messages,
        ));
    } else {
        lemma_messages_text_split(messages.drop_last(), k);
        assert(messages.drop_last().take(k) =~= messages.take(k));
        assert(messages.drop_last().skip(k) =~= messages.skip(k).drop_last());
        assert(messages_text(messages) =~= messages_text(messages.take(k)) + messages_text(
            messages.skip(k),
        ));
    }
}

/// What a resumed session is sent is the end of what a new one would be sent: the rest is the
/// text of the messages that it has seen.
pub proof fn law_resumed_prompt_is_the_end(messages: Seq<MessageView>, consumed: int)
    requires
        1 <= consumed <= turns_of(messages).len(),
    ensures
        prompt_text(messages, None) == messages_text(
            messages.take(turns_of(messages)[consumed - 1].raw_index + 1),
        ) + prompt_text(unseen(messages, consumed), None),
{
    lemma_turn_positions(messages);
    let k = turns_of(messages)[consumed - 1].raw_index + 1;
    lemma_messages_text_split(messages, k);
    assert(prompt_text(messages, None) =~= messages_text(messages.take(k)) + prompt_text(
        unseen(messages, consumed),
        None,
    ));
}

} // verus!
