//! What identifies a conversation, said of the messages themselves: which of them are turns, what
//! of a turn counts, what is recorded, and what a session is sent.

use std::collections::hash_map::DefaultHasher;

use vstd::prelude::*;
use vstd::std_specs::hash::*;
use vstd::string::*;

use crate::facts::holds_text;
use crate::json::JsonView;
use crate::prompt::{content_text, prompt_text, MessageView};
use crate::prompt_laws::{law_string_is_its_text, law_text_block};
use crate::session::{
    committed, fresh_cause, hash_input, is_recorded, law_hash_input_tells_turns_apart,
    law_recorded_session_is_resumed, law_same_turns_same_hash, plan, resume_off, same_turn,
    same_turns, stable_text, turns_hash, turns_of, without_reminders, EntryView, FreshReason,
    PlanView, TurnView,
};
use crate::text::{contains, find_from, lemma_find_from, occurs_at, trimmed, white_space};
use crate::text_laws::{blank, law_outer_whitespace_does_not_count};

verus! {

// Turns
/// The messages of the user and of the assistant are the turns, in order, each with its place in
/// the request, its role, and the whole text of its content without reminders and outer
/// whitespace; a message of any other role is none.
pub proof fn law_turns_are_the_users_and_the_assistants(
    messages: Seq<MessageView>,
    message: MessageView,
)
    ensures
        turns_of(seq![]) == Seq::<TurnView>::empty(),
        message.role == "user"@ || message.role == "assistant"@ ==> turns_of(
            messages.push(message),
        ) == turns_of(messages).push(
            TurnView {
                raw_index: messages.len() as int,
                role: message.role,
                text: trimmed(without_reminders(content_text(message.content))),
            },
        ),
        message.role != "user"@ && message.role != "assistant"@ ==> turns_of(messages.push(message))
            == turns_of(messages),
{
    assert(messages.push(message).drop_last() =~= messages);
}

proof fn lemma_turns_prefix(a: Seq<MessageView>, b: Seq<MessageView>)
    ensures
        turns_of(a).len() <= turns_of(a + b).len(),
        turns_of(a + b).take(turns_of(a).len() as int) == turns_of(a),
    decreases b.len(),
{
    if b.len() == 0 {
        assert(a + b =~= a);
        assert(turns_of(a).take(turns_of(a).len() as int) =~= turns_of(a));
    } else {
        lemma_turns_prefix(a, b.drop_last());
        assert((a + b).drop_last() =~= a + b.drop_last());
        assert(turns_of(a + b).take(turns_of(a).len() as int) =~= turns_of(a + b.drop_last()).take(
            turns_of(a).len() as int,
        ));
    }
}

/// A message of the user or the assistant is a turn wherever it stands in a request, after the
/// turns before it and with its own text.
pub proof fn law_turn_in_a_request(
    earlier: Seq<MessageView>,
    message: MessageView,
    later: Seq<MessageView>,
)
    requires
        message.role == "user"@ || message.role == "assistant"@,
    ensures
        ({
            let k = turns_of(earlier).len() as int;
            let turns = turns_of(earlier.push(message) + later);
            &&& k < turns.len()
            &&& turns[k].raw_index == earlier.len()
            &&& turns[k].role == message.role
            &&& turns[k].text == trimmed(without_reminders(content_text(message.content)))
        }),
{
    law_turns_are_the_users_and_the_assistants(earlier, message);
    let upto = turns_of(earlier.push(message));
    lemma_turns_prefix(earlier.push(message), later);
    let turns = turns_of(earlier.push(message) + later);
    let k = turns_of(earlier).len() as int;
    assert(turns.take(upto.len() as int)[k] == upto[k]);
}

// Texts of turns
/// The marks of a reminder.
pub proof fn law_marks_of_a_reminder()
    ensures
        crate::session::reminder_open() == "<system-reminder>"@,
        crate::session::reminder_close() == "</system-reminder>"@,
{
}

/// A text in which no reminder begins keeps all its characters but the outer whitespace.
pub proof fn law_text_without_reminders_stays(s: Seq<char>)
    requires
        !contains(s, "<system-reminder>"@),
    ensures
        without_reminders(s) == s,
        stable_text(s) == trimmed(s),
{
    lemma_find_from(s, "<system-reminder>"@, 0);
    if let Some(i) = find_from(s, "<system-reminder>"@, 0) {
        assert(occurs_at(s, "<system-reminder>"@, i));
    }
}

proof fn lemma_line_break_begins_no_reminder(s: Seq<char>)
    requires
        !contains(s, "<system-reminder>"@),
    ensures
        !contains(s.push('\n'), "<system-reminder>"@),
{
    let open = "<system-reminder>"@;
    reveal_strlit("<system-reminder>");
    if contains(s.push('\n'), open) {
        let i = choose|i: int| occurs_at(s.push('\n'), open, i);
        let found = s.push('\n').subrange(i, i + open.len());
        if i + open.len() == s.len() + 1 {
            assert(found[open.len() - 1] == '\n');
            assert(open[open.len() - 1] == '>');
        } else {
            assert(s.subrange(i, i + open.len()) =~= found);
            assert(occurs_at(s, open, i));
        }
    }
}

/// The content says this text: as a string, or in a list with one block of text.
pub open spec fn says_text(content: JsonView, text: Seq<char>) -> bool {
    content == JsonView::Text(text) || exists|block: JsonView| #[trigger]
        holds_text(block, "type"@, "text"@) && holds_text(block, "text"@, text) && content
            == JsonView::Array(seq![block])
}

/// A turn that says a text without reminders, as a string or in a block, has that text, whole but
/// for the outer whitespace.
pub proof fn law_text_of_a_turn(
    earlier: Seq<MessageView>,
    message: MessageView,
    later: Seq<MessageView>,
    text: Seq<char>,
)
    requires
        message.role == "user"@ || message.role == "assistant"@,
        says_text(message.content, text),
        !contains(text, "<system-reminder>"@),
    ensures
        turns_of(earlier).len() < turns_of(earlier.push(message) + later).len(),
        turns_of(earlier.push(message) + later)[turns_of(earlier).len() as int].role
            == message.role,
        turns_of(earlier.push(message) + later)[turns_of(earlier).len() as int].text == trimmed(
            text,
        ),
{
    law_turn_in_a_request(earlier, message, later);
    if message.content == JsonView::Text(text) {
        law_string_is_its_text(text);
        law_text_without_reminders_stays(text);
    } else {
        let block = choose|block: JsonView| #[trigger]
            holds_text(block, "type"@, "text"@) && holds_text(block, "text"@, text)
                && message.content == JsonView::Array(seq![block]);
        law_text_block(block, text);
        lemma_line_break_begins_no_reminder(text);
        law_text_without_reminders_stays(text.push('\n'));
        let right = seq!['\n'];
        assert(blank(right)) by {
            assert(white_space('\n'));
        }
        assert(blank(Seq::<char>::empty()));
        law_outer_whitespace_does_not_count(seq![], text, right);
        assert(Seq::<char>::empty() + text + right =~= text.push('\n'));
    }
}

/// Two requests in which the user says different things at the same place in the conversation
/// are told apart: the turns there do not count as the same, and what is hashed of the
/// conversations, up to that turn or further, differs.
pub proof fn law_different_words_are_told_apart(
    a: (Seq<MessageView>, MessageView, Seq<MessageView>),
    b: (Seq<MessageView>, MessageView, Seq<MessageView>),
    s: Seq<char>,
    t: Seq<char>,
    n: int,
)
    requires
        a.1.role == "user"@,
        b.1.role == "user"@,
        says_text(a.1.content, s),
        says_text(b.1.content, t),
        !contains(s, "<system-reminder>"@),
        !contains(t, "<system-reminder>"@),
        trimmed(s) != trimmed(t),
        turns_of(a.0).len() == turns_of(b.0).len(),
        turns_of(a.0).len() < n,
        n <= turns_of(a.0.push(a.1) + a.2).len(),
        n <= turns_of(b.0.push(b.1) + b.2).len(),
    ensures
        ({
            let (x, y) = (turns_of(a.0.push(a.1) + a.2), turns_of(b.0.push(b.1) + b.2));
            let k = turns_of(a.0).len() as int;
            &&& x[k].text != y[k].text
            &&& !same_turn(x[k], y[k])
            &&& hash_input(x, n) != hash_input(y, n)
        }),
{
    law_text_of_a_turn(a.0, a.1, a.2, s);
    law_text_of_a_turn(b.0, b.1, b.2, t);
    let (x, y) = (turns_of(a.0.push(a.1) + a.2), turns_of(b.0.push(b.1) + b.2));
    let k = turns_of(a.0).len() as int;
    reveal_strlit("user");
    reveal_strlit("assistant");
    assert("user"@.len() != "assistant"@.len());
    law_changed_turn_changes_the_hash(x, y, n, k);
}

// Hashing
/// Two histories in which the turns at some place differ in role, or in text where the client
/// wrote it, are hashed from different bytes.
pub proof fn law_changed_turn_changes_the_hash(
    a: Seq<TurnView>,
    b: Seq<TurnView>,
    n: int,
    k: int,
)
    requires
        0 <= k < n,
        n <= a.len(),
        n <= b.len(),
        a[k].role != b[k].role || (a[k].role != "assistant"@ && a[k].text != b[k].text),
    ensures
        hash_input(a, n) != hash_input(b, n),
{
    if hash_input(a, n) == hash_input(b, n) {
        law_hash_input_tells_turns_apart(a, b, n, n);
        assert(same_turn(a[k], b[k]));
    }
}

/// Histories of different lengths are hashed from different bytes.
pub proof fn law_lengths_are_told_apart(a: Seq<TurnView>, b: Seq<TurnView>, n: int, m: int)
    requires
        0 <= n <= a.len(),
        0 <= m <= b.len(),
        n != m,
    ensures
        hash_input(a, n) != hash_input(b, m),
{
    if hash_input(a, n) == hash_input(b, m) {
        law_hash_input_tells_turns_apart(a, b, n, m);
    }
}

/// Histories that agree in the roles, and in the texts that the client wrote, hash to the same,
/// whatever the assistant's wording and the places of the messages.
pub proof fn law_agreeing_histories_hash_alike(a: Seq<TurnView>, b: Seq<TurnView>, n: int)
    requires
        0 <= n <= a.len(),
        n <= b.len(),
        forall|i: int|
            0 <= i < n ==> (#[trigger] a[i]).role == b[i].role && (a[i].role == "assistant"@
                || a[i].text == b[i].text),
    ensures
        hash_input(a, n) == hash_input(b, n),
        turns_hash(a, n) == turns_hash(b, n),
{
    assert(same_turns(a, b, n)) by {
        assert forall|i: int| 0 <= i < n implies same_turn(#[trigger] a[i], #[trigger] b[i]) by {
            assert(a[i].role == b[i].role);
        }
    }
    law_same_turns_same_hash(a, b, n);
    lemma_same_bytes(a, b, n);
}

proof fn lemma_same_bytes(a: Seq<TurnView>, b: Seq<TurnView>, n: int)
    requires
        same_turns(a, b, n),
    ensures
        hash_input(a, n) == hash_input(b, n),
    decreases n,
{
    if n > 0 {
        lemma_same_bytes(a, b, n - 1);
        assert(same_turn(a[n - 1], b[n - 1]));
    }
}

/// The hash of the first turns is the hasher's word on what is hashed of them; of more turns than
/// there are, it is that of all.
pub proof fn law_hash_of_the_first_turns(turns: Seq<TurnView>, n: int)
    ensures
        0 <= n <= turns.len() ==> turns_hash(turns, n) == DefaultHasher::spec_finish(
            hash_input(turns, n),
        ),
        n > turns.len() ==> turns_hash(turns, n) == DefaultHasher::spec_finish(
            hash_input(turns, turns.len() as int),
        ),
        hash_input(turns, 0) == Seq::<Seq<u8>>::empty(),
{
}

// Recording
/// What is recorded of a turn: under the hash of the opening turn, the session's id and the
/// model, the turns served, their hash, and that the session knows them and its reply.
pub proof fn law_what_is_recorded(
    store: Map<u64, EntryView>,
    messages: Seq<MessageView>,
    model: Seq<char>,
    chat_id: Seq<char>,
)
    requires
        chat_id.len() > 0,
        turns_of(messages).len() > 0,
    ensures
        ({
            let n = turns_of(messages).len() as int;
            let key = turns_hash(turns_of(messages), 1);
            let after = committed(store, messages, model, chat_id);
            &&& is_recorded(messages, chat_id)
            &&& after.contains_key(key)
            &&& after[key].chat_id == chat_id
            &&& after[key].model == model
            &&& after[key].verify_len == n
            &&& after[key].verify_hash == turns_hash(turns_of(messages), n)
            &&& after[key].consumed == n + 1
        }),
{
}

/// Recording one conversation leaves the others as they are, as long as there is room; a full
/// store is emptied first.
pub proof fn law_other_sessions_stay(
    store: Map<u64, EntryView>,
    messages: Seq<MessageView>,
    model: Seq<char>,
    chat_id: Seq<char>,
    key: u64,
)
    requires
        key != turns_hash(turns_of(messages), 1),
    ensures
        ({
            let after = committed(store, messages, model, chat_id);
            &&& store.len() < 128 ==> (after.contains_key(key) <==> store.contains_key(key))
            &&& store.len() < 128 && store.contains_key(key) ==> after[key] == store[key]
            &&& store.len() >= 128 && chat_id.len() > 0 && turns_of(messages).len() > 0
                ==> !after.contains_key(key)
        }),
{
}

/// Nothing is recorded without turns or without a session id.
pub proof fn law_what_is_not_recorded(
    store: Map<u64, EntryView>,
    messages: Seq<MessageView>,
    model: Seq<char>,
    chat_id: Seq<char>,
)
    requires
        chat_id.len() == 0 || turns_of(messages).len() == 0,
    ensures
        committed(store, messages, model, chat_id) == store,
        !is_recorded(messages, chat_id),
{
}

// Planning
/// Two histories agree in the roles of the first `n` turns, and in the texts that the client
/// wrote.
pub open spec fn agree(a: Seq<TurnView>, b: Seq<TurnView>, n: int) -> bool {
    n <= a.len() && n <= b.len() && forall|i: int|
        0 <= i < n ==> (#[trigger] a[i]).role == b[i].role && (a[i].role == "assistant"@
            || a[i].text == b[i].text)
}

/// The next request of a conversation that has been recorded resumes its session, which is sent
/// exactly the messages after the echoed reply, all of them, and no system prompt.
pub proof fn law_session_is_sent_what_is_new(
    store: Map<u64, EntryView>,
    served: Seq<MessageView>,
    echoed: Seq<MessageView>,
    new: Seq<MessageView>,
    system: Option<JsonView>,
    model: Seq<char>,
    chat_id: Seq<char>,
)
    requires
        chat_id.len() > 0,
        turns_of(served).len() > 0,
        echoed.len() > 0,
        echoed[echoed.len() - 1].role == "assistant"@,
        turns_of(echoed).len() == turns_of(served).len() + 1,
        agree(turns_of(served), turns_of(echoed), turns_of(served).len() as int),
        turns_of(echoed + new).len() > turns_of(echoed).len(),
    ensures
        plan(committed(store, served, model, chat_id), echoed + new, system, model, false)
            == (PlanView::Resume { chat_id, prompt: prompt_text(new, None) }),
{
    let n = turns_of(served).len() as int;
    let next = echoed + new;
    let (a, b, e) = (turns_of(served), turns_of(next), turns_of(echoed));
    lemma_turns_prefix(echoed, new);
    let reply = echoed[echoed.len() - 1];
    law_turns_are_the_users_and_the_assistants(echoed.drop_last(), reply);
    assert(echoed.drop_last().push(reply) =~= echoed);
    assert(e[n].raw_index == echoed.len() - 1);
    assert(b.take(e.len() as int)[n] == e[n]);
    assert(same_turns(a, b, n)) by {
        assert forall|i: int| 0 <= i < n implies same_turn(#[trigger] a[i], #[trigger] b[i]) by {
            assert(b.take(e.len() as int)[i] == e[i]);
            assert(a[i].role == e[i].role);
        }
    }
    law_recorded_session_is_resumed(store, served, next, system, model, chat_id);
    assert(next.skip(echoed.len() as int) =~= new);
}

/// Recording another conversation does not touch a session, as long as there is room: the next
/// request of the first conversation still resumes it.
pub proof fn law_conversations_keep_apart(
    store: Map<u64, EntryView>,
    served: Seq<MessageView>,
    next: Seq<MessageView>,
    other: Seq<MessageView>,
    system: Option<JsonView>,
    model: Seq<char>,
    other_model: Seq<char>,
    chat_id: Seq<char>,
    other_id: Seq<char>,
)
    requires
        chat_id.len() > 0,
        turns_of(served).len() > 0,
        turns_of(next).len() > turns_of(served).len() + 1,
        agree(turns_of(served), turns_of(next), turns_of(served).len() as int),
        turns_of(next)[turns_of(served).len() as int].role == "assistant"@,
        committed(store, served, model, chat_id).len() < 128,
        turns_hash(turns_of(other), 1) != turns_hash(turns_of(served), 1),
    ensures
        plan(
            committed(committed(store, served, model, chat_id), other, other_model, other_id),
            next,
            system,
            model,
            false,
        ) == plan(committed(store, served, model, chat_id), next, system, model, false),
        plan(committed(store, served, model, chat_id), next, system, model, false) matches
            PlanView::Resume { chat_id: resumed, .. } && resumed == chat_id,
{
    let (a, b) = (turns_of(served), turns_of(next));
    let n = a.len() as int;
    assert(same_turns(a, b, n)) by {
        assert forall|i: int| 0 <= i < n implies same_turn(#[trigger] a[i], #[trigger] b[i]) by {
            assert(a[i].role == b[i].role);
        }
    }
    law_recorded_session_is_resumed(store, served, next, system, model, chat_id);
    assert(same_turns(a, b, 1));
    law_same_turns_same_hash(a, b, 1);
    law_other_sessions_stay(
        committed(store, served, model, chat_id),
        other,
        other_model,
        other_id,
        turns_hash(a, 1),
    );
}

/// With resuming switched off, and without turns, every request is replayed as a whole.
pub proof fn law_switched_off_is_fresh(
    store: Map<u64, EntryView>,
    messages: Seq<MessageView>,
    system: Option<JsonView>,
    model: Seq<char>,
    no_resume: bool,
)
    requires
        no_resume || turns_of(messages).len() == 0,
    ensures
        plan(store, messages, system, model, no_resume) == (PlanView::Fresh {
            prompt: prompt_text(messages, system),
        }),
{
}

/// Whatever is recorded, a request is either replayed as a whole or sent to a session of the
/// store; nothing else is done with it.
pub proof fn law_plans(
    store: Map<u64, EntryView>,
    messages: Seq<MessageView>,
    system: Option<JsonView>,
    model: Seq<char>,
    no_resume: bool,
)
    ensures
        match plan(store, messages, system, model, no_resume) {
            PlanView::Fresh { prompt } => prompt == prompt_text(messages, system),
            PlanView::Resume { chat_id, prompt } => {
                let key = turns_hash(turns_of(messages), 1);
                &&& store.contains_key(key)
                &&& chat_id == store[key].chat_id
                &&& store[key].model == model
                &&& store[key].consumed < turns_of(messages).len()
                &&& turns_hash(turns_of(messages), store[key].verify_len) == store[key].verify_hash
                &&& turns_of(messages)[store[key].consumed - 1].role == "assistant"@
            },
        },
{
}

/// Each reason for a new session is true of the request and the store for which it is given.
pub proof fn law_reasons_are_true(
    store: Map<u64, EntryView>,
    turns: Seq<TurnView>,
    model: Seq<char>,
    no_resume: bool,
)
    ensures
        ({
            let key = turns_hash(turns, 1);
            let entry = store[key];
            match fresh_cause(store, turns, model, no_resume) {
                Some(FreshReason::NoTurns) => turns.len() == 0,
                Some(FreshReason::ResumeDisabled) => no_resume,
                Some(FreshReason::UnknownConversation) => !store.contains_key(key),
                Some(FreshReason::ModelChanged) => entry.model != model,
                Some(FreshReason::NothingNew) => entry.consumed >= turns.len(),
                Some(FreshReason::HistoryShorter) => entry.verify_len > turns.len(),
                Some(FreshReason::PrefixChanged) => turns_hash(turns, entry.verify_len)
                    != entry.verify_hash,
                Some(FreshReason::ReplyNotEchoed) => turns[entry.consumed - 1].role
                    != "assistant"@,
                None => store.contains_key(key) && !no_resume,
            }
        }),
{
}

/// Resuming is switched off by any value but the empty one and `0`, and not by the absence of
/// one.
pub proof fn law_switch(value: Seq<char>)
    ensures
        !resume_off(None),
        value.len() == 0 || value == "0"@ ==> !resume_off(Some(value)),
        value.len() > 0 && value != "0"@ ==> resume_off(Some(value)),
{
}

} // verus!
