use std::collections::hash_map::DefaultHasher;
use std::collections::HashMap;
use std::hash::{Hash, Hasher};

use cursor_bridge::json::Json;
use cursor_bridge::prompt::{build_prompt, Message};
use cursor_bridge::session::{
    commit_session, conversation, conversation_key, entry_reason, fresh_reason, plan_turn,
    prefix_hash, resume_disabled, sessions, strip_reminders, will_record, FreshReason,
    SessionEntry, Turn, TurnPlan, MAX_SESSIONS,
};

fn msg(role: &str, text: &str) -> Message {
    Message { role: role.into(), content: Json::Text(text.into()) }
}

/// Serve a turn and record its session, the way a handler does.
fn serve(store: &mut HashMap<u64, SessionEntry>, msgs: &[Message], model: &str) -> TurnPlan {
    let plan = plan_turn(store, msgs, &None, model, false);
    commit_session(store, msgs, model, "chat-1");
    plan
}

#[test]
fn test_reminders_are_stripped_from_identity() {
    assert_eq!(strip_reminders("<system-reminder>noise</system-reminder>\n\nhello"), "hello");
    assert_eq!(strip_reminders("a<system-reminder>x</system-reminder>b"), "ab");
    assert_eq!(strip_reminders("plain"), "plain");
    // An unterminated block means the remainder cannot be trusted as stable.
    assert_eq!(strip_reminders("keep<system-reminder>dangling"), "keep");
}

#[test]
fn test_interleaved_system_messages_are_not_part_of_the_conversation() {
    let msgs = vec![
        msg("user", "<system-reminder>varies</system-reminder>\n\nhello"),
        msg("system", "hook output, 24kb of it"),
        msg("assistant", "hi"),
        msg("user", "again"),
    ];
    let turns = conversation(&msgs);
    assert_eq!(turns.len(), 3, "system messages are not turns");
    assert_eq!(turns[0].text, "hello", "reminders are stripped");
    assert_eq!(turns[2].raw_index, 3, "raw positions are preserved");
}

/// A system message alongside the first turn whose content shifts by a byte between requests.
#[test]
fn test_session_survives_client_reinjected_context() {
    let mut store = HashMap::new();
    let turn1 = vec![
        msg("user", "<system-reminder>turn one</system-reminder>\n\nRemember 7."),
        msg("system", "hook context, ends with a newline\n"),
    ];
    serve(&mut store, &turn1, "sonnet-4.5");

    let turn2 = vec![
        msg("user", "<system-reminder>turn two, different</system-reminder>\n\nRemember 7."),
        msg("system", "hook context, ends with a newline"),
        msg("assistant", "OK"),
        msg("user", "What number?"),
        msg("system", "<total_tokens>14999</total_tokens>"),
    ];
    match plan_turn(&store, &turn2, &None, "sonnet-4.5", false) {
        TurnPlan::Resume { prompt, .. } => {
            assert!(prompt.contains("What number?"), "the new question is sent");
            assert!(!prompt.contains("Remember 7."), "history stays in the session");
            assert!(prompt.contains("14999"), "context after the new turn still travels");
        }
        TurnPlan::Fresh { .. } => panic!("re-injected context must not defeat the session"),
    }
}

#[test]
fn test_first_turn_has_no_session_to_resume() {
    let mut store = HashMap::new();
    let msgs = vec![msg("user", "u1")];
    match serve(&mut store, &msgs, "sonnet-4.5") {
        TurnPlan::Fresh { prompt } => assert!(prompt.contains("u1")),
        TurnPlan::Resume { .. } => panic!("nothing to resume on the first turn"),
    }
}

#[test]
fn test_second_turn_resumes_and_sends_only_the_new_message() {
    let mut store = HashMap::new();
    serve(&mut store, &[msg("user", "u1")], "sonnet-4.5");

    // The client echoes the reply back and appends the next question.
    let turn2 = vec![msg("user", "u1"), msg("assistant", "a1"), msg("user", "u2")];
    match plan_turn(&store, &turn2, &None, "sonnet-4.5", false) {
        TurnPlan::Resume { chat_id, prompt } => {
            assert_eq!(chat_id, "chat-1");
            assert!(prompt.contains("u2"), "new message must be sent");
            assert!(!prompt.contains("u1"), "history is already in the session");
            assert!(!prompt.contains("a1"), "the reply is already in the session");
        }
        TurnPlan::Fresh { .. } => panic!("second turn should resume"),
    }
}

#[test]
fn test_third_turn_keeps_sending_only_the_new_message() {
    let mut store = HashMap::new();
    serve(&mut store, &[msg("user", "u1")], "sonnet-4.5");
    let turn2 = vec![msg("user", "u1"), msg("assistant", "a1"), msg("user", "u2")];
    serve(&mut store, &turn2, "sonnet-4.5");

    let turn3 = vec![
        msg("user", "u1"),
        msg("assistant", "a1"),
        msg("user", "u2"),
        msg("assistant", "a2"),
        msg("user", "u3"),
    ];
    match plan_turn(&store, &turn3, &None, "sonnet-4.5", false) {
        TurnPlan::Resume { prompt, .. } => {
            assert!(prompt.contains("u3"));
            assert!(!prompt.contains("u2"), "u2 was consumed by the previous turn");
        }
        TurnPlan::Fresh { .. } => panic!("third turn should resume"),
    }
}

#[test]
fn test_edited_user_message_falls_back_to_a_fresh_session() {
    let mut store = HashMap::new();
    serve(&mut store, &[msg("user", "u1")], "sonnet-4.5");
    let turn2 = vec![msg("user", "u1"), msg("assistant", "a1"), msg("user", "u2")];
    serve(&mut store, &turn2, "sonnet-4.5");

    // The user edits u2 and resends; the session's history no longer applies.
    let forked = vec![
        msg("user", "u1"),
        msg("assistant", "a1"),
        msg("user", "EDITED"),
        msg("assistant", "a2"),
        msg("user", "u3"),
    ];
    match plan_turn(&store, &forked, &None, "sonnet-4.5", false) {
        TurnPlan::Fresh { prompt } => assert!(prompt.contains("u1"), "full history is replayed"),
        TurnPlan::Resume { .. } => panic!("a rewritten prefix must not reuse the session"),
    }
}

#[test]
fn test_dropped_message_falls_back_to_a_fresh_session() {
    let mut store = HashMap::new();
    serve(&mut store, &[msg("user", "u1")], "sonnet-4.5");
    let turn2 = vec![msg("user", "u1"), msg("assistant", "a1"), msg("user", "u2")];
    serve(&mut store, &turn2, "sonnet-4.5");

    // History compacted: a turn disappeared, so positions no longer line up.
    let compacted =
        vec![msg("user", "u1"), msg("user", "u2"), msg("assistant", "a2"), msg("user", "u3")];
    match plan_turn(&store, &compacted, &None, "sonnet-4.5", false) {
        TurnPlan::Fresh { .. } => {}
        TurnPlan::Resume { .. } => panic!("a reordered prefix must not reuse the session"),
    }
}

#[test]
fn test_switching_model_starts_a_fresh_session() {
    let mut store = HashMap::new();
    serve(&mut store, &[msg("user", "u1")], "sonnet-4.5");
    let turn2 = vec![msg("user", "u1"), msg("assistant", "a1"), msg("user", "u2")];
    match plan_turn(&store, &turn2, &None, "gpt-5", false) {
        TurnPlan::Fresh { .. } => {}
        TurnPlan::Resume { .. } => panic!("a different model needs its own session"),
    }
}

#[test]
fn test_a_replayed_turn_does_not_resume() {
    let mut store = HashMap::new();
    let turn1 = vec![msg("user", "u1")];
    serve(&mut store, &turn1, "sonnet-4.5");
    // Same request again: nothing new to send.
    match plan_turn(&store, &turn1, &None, "sonnet-4.5", false) {
        TurnPlan::Fresh { .. } => {}
        TurnPlan::Resume { .. } => panic!("no unseen messages means no resume"),
    }
}

#[test]
fn test_distinct_conversations_get_distinct_sessions() {
    let mut store = HashMap::new();
    serve(&mut store, &[msg("user", "u1")], "sonnet-4.5");
    let other = vec![msg("user", "different opening"), msg("assistant", "a"), msg("user", "b")];
    match plan_turn(&store, &other, &None, "sonnet-4.5", false) {
        TurnPlan::Fresh { .. } => {}
        TurnPlan::Resume { .. } => panic!("unrelated conversation must not reuse the session"),
    }
}

#[test]
fn test_failed_turn_is_not_committed() {
    let mut store = HashMap::new();
    // A handler only commits on success; an empty chat id must not register.
    commit_session(&mut store, &[msg("user", "u1")], "sonnet-4.5", "");
    assert!(store.is_empty());
}

#[test]
fn resuming_can_be_switched_off() {
    let mut store = sessions();
    serve(&mut store, &[msg("user", "u1")], "m");
    let turn2 = vec![msg("user", "u1"), msg("assistant", "a1"), msg("user", "u2")];
    assert!(matches!(plan_turn(&store, &turn2, &None, "m", true), TurnPlan::Fresh { .. }));
    assert!(matches!(plan_turn(&store, &turn2, &None, "m", false), TurnPlan::Resume { .. }));
    assert!(resume_disabled(Some("1")));
    assert!(!resume_disabled(Some("0")));
    assert!(!resume_disabled(Some("")));
    assert!(!resume_disabled(None));
}

#[test]
fn a_dropped_reply_falls_back_to_a_fresh_session() {
    let mut store = sessions();
    commit_session(&mut store, &[msg("user", "u1")], "sonnet-4.5", "chat-1");
    let dropped = vec![msg("user", "u1"), msg("user", "u2"), msg("user", "u3")];
    match plan_turn(&store, &dropped, &None, "sonnet-4.5", false) {
        TurnPlan::Fresh { prompt } => assert_eq!(prompt, build_prompt(&dropped, &None)),
        TurnPlan::Resume { .. } => panic!("the session has not seen u2"),
    }
    let echoed = vec![msg("user", "u1"), msg("assistant", "a1"), msg("user", "u3")];
    assert!(matches!(
        plan_turn(&store, &echoed, &None, "sonnet-4.5", false),
        TurnPlan::Resume { .. }
    ));
}

#[test]
fn the_first_reason_for_a_fresh_session_is_given() {
    let mut store = sessions();
    let first = [msg("user", "u1")];
    let reason = |store: &HashMap<u64, SessionEntry>, msgs: &[Message], model: &str, off: bool| {
        let reason = fresh_reason(store, msgs, model, off);
        let resumed =
            matches!(plan_turn(store, msgs, &None, model, off), TurnPlan::Resume { .. });
        assert_eq!(reason.is_none(), resumed);
        reason
    };
    assert_eq!(reason(&store, &[msg("system", "s")], "m", true), Some(FreshReason::NoTurns));
    assert_eq!(reason(&store, &first, "m", true), Some(FreshReason::ResumeDisabled));
    assert_eq!(reason(&store, &first, "m", false), Some(FreshReason::UnknownConversation));
    let served = [msg("user", "u1"), msg("assistant", "a1"), msg("user", "u2")];
    commit_session(&mut store, &served, "m", "chat-1");
    assert_eq!(reason(&store, &first, "other", false), Some(FreshReason::ModelChanged));
    assert_eq!(reason(&store, &served, "m", false), Some(FreshReason::NothingNew));
    let five = |third: &str, fourth: &str| {
        vec![
            msg("user", "u1"),
            msg("assistant", "a1"),
            msg("user", third),
            msg(fourth, "a2"),
            msg("user", "u3"),
        ]
    };
    let edited = five("EDITED", "assistant");
    assert_eq!(reason(&store, &edited, "m", false), Some(FreshReason::PrefixChanged));
    assert_eq!(reason(&store, &five("u2", "user"), "m", false), Some(FreshReason::ReplyNotEchoed));
    assert_eq!(reason(&store, &five("u2", "assistant"), "m", false), None);
}

#[test]
fn what_is_recorded() {
    let turns = [msg("user", "u1")];
    assert!(will_record(&turns, "chat-1"));
    assert!(!will_record(&turns, ""));
    assert!(!will_record(&[msg("system", "s")], "chat-1"));
    assert!(!will_record(&[], "chat-1"));
}

#[test]
fn every_entry_has_an_id_and_counts_its_reply() {
    let mut store = sessions();
    for i in 0..300 {
        let messages = vec![msg("user", &format!("opening {i}")), msg("system", "context")];
        let id = if i % 3 == 0 { String::new() } else { format!("chat-{i}") };
        commit_session(&mut store, &messages, "m", &id);
        assert!(store.len() <= MAX_SESSIONS);
    }
    assert!(!store.is_empty());
    for entry in store.values() {
        assert!(!entry.chat_id.is_empty());
        assert_eq!((entry.verify_len, entry.consumed), (1, 2));
    }
}

#[test]
fn a_request_without_turns_is_fresh_and_not_recorded() {
    let mut store = sessions();
    let msgs = vec![msg("system", "only context")];
    commit_session(&mut store, &msgs, "m", "chat-1");
    assert!(store.is_empty());
    match plan_turn(&store, &msgs, &Some(Json::Text("S".into())), "m", false) {
        TurnPlan::Fresh { prompt } => assert_eq!(
            prompt,
            "[SYSTEM]\nS\n[/SYSTEM]\n\n[User]\nonly context\n[/User]\n\n[Assistant]\n"
        ),
        TurnPlan::Resume { .. } => panic!("there is nothing to resume"),
    }
}

#[test]
fn the_resumed_prompt_is_exactly_the_end_of_the_fresh_one() {
    let mut store = sessions();
    serve(&mut store, &[msg("user", "u1")], "m");
    let turn2 = vec![
        msg("user", "u1"),
        msg("assistant", "a1"),
        msg("system", "context"),
        msg("user", "u2"),
    ];
    match plan_turn(&store, &turn2, &Some(Json::Text("S".into())), "m", false) {
        TurnPlan::Resume { prompt, .. } => assert_eq!(
            prompt,
            "[User]\ncontext\n[/User]\n\n[User]\nu2\n[/User]\n\n[Assistant]\n"
        ),
        TurnPlan::Fresh { .. } => panic!("the session should be resumed"),
    }
}

#[test]
fn an_entry_counts_the_reply_that_was_not_echoed_yet() {
    let mut store = sessions();
    let msgs = vec![msg("user", "u1"), msg("assistant", "a1"), msg("user", "u2")];
    commit_session(&mut store, &msgs, "m", "chat-9");
    let turns = conversation(&msgs);
    let entry = &store[&conversation_key(&turns)];
    assert_eq!(entry.chat_id, "chat-9");
    assert_eq!(entry.verify_len, 3);
    assert_eq!(entry.consumed, 4);
    assert_eq!(entry.verify_hash, prefix_hash(&turns, 3));
    assert_eq!(entry.model, "m");
    let hash = prefix_hash(&turns, 3);
    assert_eq!(entry_reason(entry, 5, "m", hash, true), None);
    assert_eq!(entry_reason(entry, 4, "m", hash, true), Some(FreshReason::NothingNew));
    assert_eq!(entry_reason(entry, 5, "other", hash, true), Some(FreshReason::ModelChanged));
    let other = hash.wrapping_add(1);
    assert_eq!(entry_reason(entry, 5, "m", other, false), Some(FreshReason::PrefixChanged));
    assert_eq!(entry_reason(entry, 5, "m", hash, false), Some(FreshReason::ReplyNotEchoed));
    let longer = SessionEntry {
        chat_id: "c".into(),
        consumed: 1,
        verify_len: 9,
        verify_hash: hash,
        model: "m".into(),
    };
    assert_eq!(entry_reason(&longer, 5, "m", hash, true), Some(FreshReason::HistoryShorter));
}

#[test]
fn the_assistants_wording_is_not_hashed() {
    let a = vec![
        Turn { raw_index: 0, role: "user".into(), text: "q".into() },
        Turn { raw_index: 1, role: "assistant".into(), text: "one".into() },
    ];
    let b = vec![
        Turn { raw_index: 3, role: "user".into(), text: "q".into() },
        Turn { raw_index: 7, role: "assistant".into(), text: "other words".into() },
    ];
    let c = vec![
        Turn { raw_index: 0, role: "user".into(), text: "q".into() },
        Turn { raw_index: 1, role: "user".into(), text: "one".into() },
    ];
    assert_eq!(prefix_hash(&a, 2), prefix_hash(&b, 2));
    assert_ne!(prefix_hash(&a, 2), prefix_hash(&c, 2));
    assert_ne!(prefix_hash(&a, 1), prefix_hash(&a, 2));
    assert_eq!(prefix_hash(&a, 2), prefix_hash(&a, 99), "there are no more turns to hash");
    assert_eq!(conversation_key(&a), prefix_hash(&a, 1));
}

#[test]
fn hashes_are_those_of_the_standard_hasher() {
    let turns = vec![
        Turn { raw_index: 0, role: "user".into(), text: "q".into() },
        Turn { raw_index: 1, role: "assistant".into(), text: "a".into() },
    ];
    let mut h = DefaultHasher::new();
    0usize.hash(&mut h);
    "user".to_string().hash(&mut h);
    "q".to_string().hash(&mut h);
    1usize.hash(&mut h);
    "assistant".to_string().hash(&mut h);
    assert_eq!(prefix_hash(&turns, 2), h.finish());
}

#[test]
fn the_store_is_emptied_when_it_is_full() {
    let mut store = sessions();
    for i in 0..MAX_SESSIONS {
        commit_session(&mut store, &[msg("user", &format!("opening {i}"))], "m", "chat");
    }
    assert_eq!(store.len(), 128);
    commit_session(&mut store, &[msg("user", "one more")], "m", "chat");
    assert_eq!(store.len(), 1);
}

#[test]
fn several_reminders_and_text_between_them() {
    assert_eq!(
        strip_reminders(" a<system-reminder>1</system-reminder>b<system-reminder>2</system-reminder>c\u{a0}"),
        "abc"
    );
    assert_eq!(strip_reminders("x</system-reminder>y"), "x</system-reminder>y");
    assert_eq!(
        strip_reminders("<system-<system-reminder>x</system-reminder>reminder>"),
        "<system-reminder>"
    );
    assert_eq!(strip_reminders("grüße<system-reminder>ß</system-reminder>→"), "grüße→");
}
