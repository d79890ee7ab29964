use std::collections::HashMap;

use cursor_bridge::blocking::BlockingTurn;
use cursor_bridge::json::Json;
use cursor_bridge::prompt::Message;
use cursor_bridge::session::{plan_turn, sessions, SessionEntry, TurnPlan};
use cursor_bridge::streaming::{
    event_succeeds, make_message_id, read_event, usage_json, write_message_start, StreamingTurn,
};

fn msg(role: &str, text: &str) -> Message {
    Message { role: role.into(), content: Json::Text(text.into()) }
}

fn served() -> Vec<Message> {
    vec![msg("user", "u1")]
}

/// Streams a turn and gives back what the client is sent: the name of each event and its data.
fn stream(
    lines: &[&str],
    store: &mut HashMap<u64, SessionEntry>,
) -> Vec<(String, serde_json::Value)> {
    let mut out = Vec::new();
    let mut turn = StreamingTurn::new();
    for line in lines {
        assert!(turn.on_line(line, store, &served(), "m", &mut out));
    }
    turn.finish(&mut out);
    let text = String::from_utf8(out).unwrap();
    assert!(text.is_empty() || text.ends_with("\n\n"));
    text.split("\n\n")
        .filter(|event| !event.is_empty())
        .map(|event| {
            if event == "data: [DONE]" {
                return ("done".to_string(), serde_json::Value::Null);
            }
            let (name, data) = event.split_once('\n').unwrap();
            (
                name.strip_prefix("event: ").unwrap().to_string(),
                serde_json::from_str(data.strip_prefix("data: ").unwrap()).unwrap(),
            )
        })
        .collect()
}

/// The kinds of events with their block indices.
fn shape(events: &[(String, serde_json::Value)]) -> Vec<String> {
    events
        .iter()
        .map(|(name, data)| match data["index"].as_u64() {
            Some(index) => format!("{}{index}", &name["content_block_".len()..]),
            None => name.clone(),
        })
        .collect()
}

/// The reply that a client gathers.
fn reply(events: &[(String, serde_json::Value)]) -> String {
    events
        .iter()
        .filter(|(_, data)| data["delta"]["type"] == "text_delta")
        .map(|(_, data)| data["delta"]["text"].as_str().unwrap())
        .collect()
}

fn said(text: &str) -> String {
    format!(
        "{{\"type\":\"assistant\",\"message\":{{\"content\":[{{\"type\":\"text\",\"text\":\"{text}\"}}]}}}}"
    )
}

const INIT: &str = r#"{"type":"system","subtype":"init","session_id":"chat-7"}"#;
const RESULT: &str = r#"{"type":"result","usage":{"inputTokens":11,"outputTokens":22}}"#;
const FAILURE: &str = r#"{"type":"result","is_error":true}"#;

#[test]
fn a_turn_of_text_is_one_block() {
    let mut store = sessions();
    let (a, b, recap) = (said("Hel"), said("lo"), said("Hello"));
    let events = stream(&[INIT, &a, &b, &recap, RESULT], &mut store);
    assert_eq!(
        shape(&events),
        vec!["start0", "delta0", "delta0", "stop0", "message_delta", "message_stop", "done"]
    );
    assert_eq!(reply(&events), "Hello");
    assert_eq!(events[4].1["delta"]["stop_reason"], "end_turn");
    assert_eq!(events[4].1["usage"]["input_tokens"], 11);
    assert_eq!(events[4].1["usage"]["output_tokens"], 22);
    assert_eq!(events[0].1["content_block"]["text"], "");
}

#[test]
fn a_turn_with_tools_and_reasoning() {
    let mut store = sessions();
    let lines = [
        r#"{"type":"assistant","message":{"content":[{"text":"untyped"},{"type":"text","text":""},{"type":"image"}]}}"#,
        r#"{"type":"assistant","message":{"content":[{"type":"thinking","thinking":"hm"},{"type":"thinking"}]}}"#,
        r#"{"type":"tool_call","id":"c1","name":"shell","input":{"x":1}}"#,
        r#"{"type":"tool_call","id":"c1","name":"shell","status":"completed"}"#,
        r#"{"type":"assistant","message":{"content":[{"type":"text","text":"A"},{"type":"text","text":"A"},{"type":"tool_use","input":[1]}]}}"#,
        r#"{"type":"tool_call","id":"toolu_4","name":"shell"}"#,
        r#"{"type":"assistant","message":{"content":[{"type":"thinking","thinking":""}]}}"#,
        r#"{"type":"assistant","message":{"content":"no list"}}"#,
        r#"{"type":"tool_call","name":"late"}"#,
    ];
    let events = stream(&lines, &mut store);
    assert_eq!(
        shape(&events),
        vec![
            "start0", "delta0", "stop0", // untyped text
            "start1", "delta1", "stop1", // reasoning
            "start2", "stop2", // the tool call event
            "start3", "delta3", "stop3", // text, its repetition taken for a recap
            "start4", "stop4", // the tool call block
            "start6", "stop6", // empty reasoning takes an index and shows nothing
            "message_delta", "message_stop", "done",
        ]
    );
    assert_eq!(reply(&events), "untypedA");
    assert_eq!(events[4].1["delta"]["thinking"], "hm");
    assert_eq!(events[6].1["content_block"]["id"], "c1");
    let block = &events[11].1["content_block"];
    assert_eq!(block["id"], "toolu_4");
    assert_eq!(block["name"], "unknown");
    assert_eq!(block["input"][0], 1);
    let late = &events[13].1["content_block"];
    assert_eq!(late["id"], "toolu_6");
    assert_eq!(late["name"], "late");
    assert_eq!(events[15].1["usage"]["input_tokens"], 0);
}

#[test]
fn an_output_that_breaks_off_still_closes_the_message() {
    let mut store = sessions();
    let events = stream(&[INIT, &said("half")], &mut store);
    assert_eq!(
        shape(&events),
        vec!["start0", "delta0", "stop0", "message_delta", "message_stop", "done"]
    );
    assert_eq!(reply(&events), "half");
    assert!(store.is_empty());
    let nothing = stream(&[], &mut store);
    assert_eq!(shape(&nothing), vec!["message_delta", "message_stop", "done"]);
}

#[test]
fn segments_are_shown_once_in_both_kinds_of_turn() {
    let lines = [
        said("I"),
        said("'ll check."),
        said("I'll check."),
        r#"{"type":"tool_call","name":"t","args":{}}"#.to_string(),
        said("The"),
        said(" answer is 4."),
        said("The answer is 4."),
        RESULT.to_string(),
    ];
    let lines: Vec<&str> = lines.iter().map(|s| s.as_str()).collect();
    assert_eq!(reply(&stream(&lines, &mut sessions())), "I'll check.The answer is 4.");
    let mut turn = BlockingTurn::new();
    for line in &lines {
        turn.on_line(line);
    }
    turn.finish(&mut sessions(), &served(), "m");
    assert_eq!(turn.text, "I'll check.The answer is 4.");
}

#[test]
fn lines_that_are_no_events_are_skipped() {
    let mut store = sessions();
    let events = stream(&["", "  \t", "not json", "{", "[]", "3", "{\"type\":\"other\"}"], &mut store);
    assert_eq!(shape(&events), vec!["message_delta", "message_stop", "done"]);
    assert_eq!(read_event(" \u{a0}"), None);
    assert_eq!(read_event("nope"), None);
    assert_eq!(read_event(" [] "), Some(Json::Array(vec![])));
}

#[test]
fn a_successful_turn_is_recorded_and_resumed() {
    let mut store = sessions();
    stream(&[INIT, &said("a1"), RESULT], &mut store);
    let next = vec![msg("user", "u1"), msg("assistant", "a1"), msg("user", "u2")];
    match plan_turn(&store, &next, &None, "m", false) {
        TurnPlan::Resume { chat_id, prompt } => {
            assert_eq!(chat_id, "chat-7");
            assert_eq!(prompt, "[User]\nu2\n[/User]\n\n[Assistant]\n");
        }
        TurnPlan::Fresh { .. } => panic!("the turn was recorded"),
    }
}

#[test]
fn only_a_result_without_an_error_succeeds() {
    let succeeds = |line: &str| event_succeeds(&read_event(line).unwrap());
    assert!(succeeds(RESULT));
    assert!(succeeds(r#"{"type":"result","is_error":"true"}"#));
    assert!(!succeeds(FAILURE));
    assert!(!succeeds(INIT));
    assert!(!succeeds("[]"));
}

#[test]
fn failed_turns_are_not_recorded() {
    let mut store = sessions();
    stream(&[INIT, FAILURE], &mut store);
    assert!(store.is_empty());
    stream(&[RESULT], &mut store);
    assert!(store.is_empty(), "no session was announced");
    stream(&[r#"{"type":"system","subtype":"other","session_id":"x"}"#, RESULT], &mut store);
    assert!(store.is_empty());
    for line in [FAILURE, INIT] {
        let mut turn = BlockingTurn::new();
        turn.on_line(INIT);
        turn.on_line(line);
        turn.finish(&mut store, &served(), "m");
        assert!(!turn.succeeded);
        assert!(store.is_empty());
    }
    let mut turn = BlockingTurn::new();
    turn.on_line(INIT);
    turn.on_line(RESULT);
    turn.on_line(FAILURE);
    turn.finish(&mut store, &served(), "m");
    assert!(store.is_empty(), "the last result decides");
}

#[test]
fn a_reply_in_one_piece() {
    let mut store = sessions();
    let mut turn = BlockingTurn::new();
    for line in [INIT, &said("Hel"), &said("lo"), "noise", &said("Hello"), RESULT, &said("!")] {
        turn.on_line(line);
    }
    turn.finish(&mut store, &served(), "m");
    assert_eq!(turn.text, "Hello!");
    assert_eq!(turn.chat_id, "chat-7");
    assert!(turn.succeeded);
    assert_eq!(store.len(), 1);
    let body = "{\"content\":[{\"text\":\"Hello!\",\"type\":\"text\"}],\"id\":\"msg_5\",\"model\":\"m\",\"role\":\"assistant\",\"stop_reason\":\"end_turn\",\"type\":\"message\",\"usage\":{\"input_tokens\":11,\"output_tokens\":22}}";
    assert_eq!(turn.reply("m", 5).to_text(), body);
    assert_eq!(
        turn.response("m", 5),
        format!(
            "HTTP/1.1 200 OK\r\nContent-Type: application/json\r\nContent-Length: {}\r\n\r\n{body}",
            body.len()
        )
    );
}

#[test]
fn the_counts_of_a_result_without_usage_are_zero() {
    let mut turn = BlockingTurn::new();
    turn.on_line(RESULT);
    assert_eq!((turn.input_tokens, turn.output_tokens), (11, 22));
    turn.on_line(r#"{"type":"result","usage":{"inputTokens":-1,"outputTokens":"3"}}"#);
    assert_eq!((turn.input_tokens, turn.output_tokens), (0, 0));
    turn.on_line(RESULT);
    turn.on_line(FAILURE);
    assert_eq!((turn.input_tokens, turn.output_tokens), (0, 0));
    assert_eq!(usage_json(1, u64::MAX).to_text(), "{\"input_tokens\":1,\"output_tokens\":18446744073709551615}");
}

#[test]
fn an_event_for_which_no_index_is_left_is_refused() {
    let mut store = sessions();
    let mut out = Vec::new();
    let mut turn = StreamingTurn::new();
    turn.content_index = i32::MAX;
    assert!(turn.on_line(&said("x"), &mut store, &served(), "m", &mut out));
    assert!(turn.on_line("{}", &mut store, &served(), "m", &mut out));
    assert!(turn.on_line(RESULT, &mut store, &served(), "m", &mut out));
    let call = r#"{"type":"tool_call","name":"t"}"#;
    assert!(!turn.on_line(call, &mut store, &served(), "m", &mut out));
    let mut turn = StreamingTurn::new();
    turn.content_index = i32::MAX - 1;
    assert!(turn.on_line(call, &mut store, &served(), "m", &mut out));
    assert!(turn.on_line(&said("x"), &mut store, &served(), "m", &mut out));
    assert!(!turn.on_line(call, &mut store, &served(), "m", &mut out));
}

#[test]
fn the_stream_opens_with_an_empty_message() {
    let mut out = Vec::new();
    write_message_start(&mut out, 12, "m");
    assert_eq!(
        String::from_utf8(out).unwrap(),
        "event: message_start\ndata: {\"message\":{\"content\":[],\"id\":\"msg_12\",\"model\":\"m\",\"role\":\"assistant\",\"stop_reason\":null,\"type\":\"message\",\"usage\":{\"input_tokens\":0,\"output_tokens\":0}},\"type\":\"message_start\"}\n\n"
    );
    assert_eq!(make_message_id(0), "msg_0");
}
