use cursor_bridge::json::Json;
use cursor_bridge::sse::{
    close_text_block, emit_text, emit_thinking, emit_tool_use, push_bytes, sse_frame, write_done,
    write_sse,
};
use cursor_bridge::tool_call::{
    emit_tool_call, fallback_id, input_of_parsed, member_field, nested_str_field,
    object_or_wrapped_input, str_field, tool_call_id, tool_call_input, tool_call_is_completion,
    tool_call_name, ToolIds,
};

fn obj(entries: Vec<(&str, Json)>) -> Json {
    Json::Object(entries.into_iter().map(|(k, v)| (k.to_string(), v)).collect())
}

fn text(s: &str) -> Json {
    Json::Text(s.to_string())
}

fn read(s: &str) -> Json {
    Json::parse(s).unwrap()
}

fn string(bytes: &[u8]) -> String {
    String::from_utf8(bytes.to_vec()).unwrap()
}

fn sse_payloads(bytes: &[u8]) -> Vec<serde_json::Value> {
    let stream = String::from_utf8(bytes.to_vec()).unwrap();
    stream
        .split("\n\n")
        .filter_map(|event| event.lines().find_map(|line| line.strip_prefix("data: ")))
        .filter_map(|data| serde_json::from_str::<serde_json::Value>(data).ok())
        .collect()
}

#[test]
fn test_top_level_tool_call_emits_anthropic_tool_block() {
    let event = obj(vec![
        ("type", text("tool_call")),
        ("id", text("call_1")),
        ("name", text("shell")),
        ("input", obj(vec![("command", text("pwd"))])),
    ]);
    let mut out = Vec::new();
    let mut seen = ToolIds::new();

    assert!(emit_tool_call(&mut out, &event, 2, &mut seen));

    let payloads = sse_payloads(&out);
    assert_eq!(payloads.len(), 2);
    assert_eq!(payloads[0]["type"], "content_block_start");
    assert_eq!(payloads[0]["index"], 2);
    assert_eq!(payloads[0]["content_block"]["type"], "tool_use");
    assert_eq!(payloads[0]["content_block"]["id"], "call_1");
    assert_eq!(payloads[0]["content_block"]["name"], "shell");
    assert_eq!(payloads[0]["content_block"]["input"]["command"], "pwd");
    assert_eq!(payloads[1]["type"], "content_block_stop");
}

#[test]
fn test_nested_tool_call_shape_is_supported() {
    let event = obj(vec![
        ("type", text("tool_call")),
        (
            "tool_call",
            obj(vec![
                ("call_id", text("call_2")),
                ("tool_name", text("read_file")),
                ("arguments", text("{\"path\":\"README.md\"}")),
            ]),
        ),
    ]);
    let mut out = Vec::new();
    let mut seen = ToolIds::new();

    assert!(emit_tool_call(&mut out, &event, 0, &mut seen));

    let payloads = sse_payloads(&out);
    assert_eq!(payloads[0]["content_block"]["id"], "call_2");
    assert_eq!(payloads[0]["content_block"]["name"], "read_file");
    assert_eq!(payloads[0]["content_block"]["input"]["path"], "README.md");
}

#[test]
fn test_tool_call_completion_and_duplicate_are_not_reemitted() {
    let start = obj(vec![
        ("type", text("tool_call")),
        ("id", text("call_1")),
        ("name", text("shell")),
        ("input", obj(vec![("command", text("pwd"))])),
    ]);
    let done = obj(vec![
        ("type", text("tool_call")),
        ("id", text("call_1")),
        ("name", text("shell")),
        ("status", text("completed")),
        ("output", text("/tmp")),
    ]);
    let mut out = Vec::new();
    let mut seen = ToolIds::new();

    assert!(emit_tool_call(&mut out, &start, 0, &mut seen));
    assert!(!emit_tool_call(&mut out, &start, 1, &mut seen));
    assert!(!emit_tool_call(&mut out, &done, 1, &mut seen));

    let payloads = sse_payloads(&out);
    assert_eq!(payloads.len(), 2);
}

#[test]
fn test_thinking_is_emitted_as_a_private_reasoning_block() {
    let mut out = Vec::new();

    emit_thinking(&mut out, "I should inspect the stream shape.", 3);

    let payloads = sse_payloads(&out);
    assert_eq!(payloads.len(), 3);
    assert_eq!(payloads[0]["type"], "content_block_start");
    assert_eq!(payloads[0]["index"], 3);
    assert_eq!(payloads[0]["content_block"]["type"], "thinking");
    assert_eq!(payloads[0]["content_block"]["thinking"], "");
    assert_eq!(payloads[1]["type"], "content_block_delta");
    assert_eq!(payloads[1]["delta"]["type"], "thinking_delta");
    assert_eq!(payloads[1]["delta"]["thinking"], "I should inspect the stream shape.");
    assert_eq!(payloads[2]["type"], "content_block_stop");
}

#[test]
fn an_event_is_framed_by_a_name_a_line_and_a_blank_line() {
    assert_eq!(sse_frame("ping", "{}"), "event: ping\ndata: {}\n\n");
    let mut out = b"before ".to_vec();
    write_sse(&mut out, "note", &obj(vec![("b", text("two\nlines")), ("a", Json::integer(-7))]));
    assert_eq!(
        string(&out),
        "before event: note\ndata: {\"a\":-7,\"b\":\"two\\nlines\"}\n\n"
    );
    write_done(&mut out);
    assert!(string(&out).ends_with("\n\ndata: [DONE]\n\n"));
    let mut bytes = vec![1u8];
    push_bytes(&mut bytes, "é");
    assert_eq!(bytes, vec![1u8, 0xc3, 0xa9]);
}

#[test]
fn text_opens_a_block_once_and_closing_it_is_reported() {
    let mut out = Vec::new();
    let mut open = false;
    emit_text(&mut out, "", 1, &mut open);
    assert!(out.is_empty() && !open);
    emit_text(&mut out, "hi", 1, &mut open);
    assert!(open);
    emit_text(&mut out, " there", 1, &mut open);
    assert!(close_text_block(&mut out, 1, &mut open));
    assert!(!open);
    assert!(!close_text_block(&mut out, 1, &mut open));
    assert_eq!(
        string(&out),
        "event: content_block_start\ndata: {\"content_block\":{\"text\":\"\",\"type\":\"text\"},\"index\":1,\"type\":\"content_block_start\"}\n\n\
         event: content_block_delta\ndata: {\"delta\":{\"text\":\"hi\",\"type\":\"text_delta\"},\"index\":1,\"type\":\"content_block_delta\"}\n\n\
         event: content_block_delta\ndata: {\"delta\":{\"text\":\" there\",\"type\":\"text_delta\"},\"index\":1,\"type\":\"content_block_delta\"}\n\n\
         event: content_block_stop\ndata: {\"index\":1,\"type\":\"content_block_stop\"}\n\n"
    );
    let mut none = Vec::new();
    emit_thinking(&mut none, "", 0);
    assert!(none.is_empty());
}

#[test]
fn a_tool_block_is_complete_at_once() {
    let mut out = Vec::new();
    emit_tool_use(&mut out, 4, "t1", "ls", read("{\"x\":[1,2.5,null]}"));
    assert_eq!(
        string(&out),
        "event: content_block_start\ndata: {\"content_block\":{\"id\":\"t1\",\"input\":{\"x\":[1,2.5,null]},\"name\":\"ls\",\"type\":\"tool_use\"},\"index\":4,\"type\":\"content_block_start\"}\n\n\
         event: content_block_stop\ndata: {\"index\":4,\"type\":\"content_block_stop\"}\n\n"
    );
}

#[test]
fn fields_are_taken_from_the_first_key_that_fits() {
    let event = read(r#"{"a":1,"b":"two","c":"three","p":{"b":5},"q":{"b":"inner"}}"#);
    assert_eq!(str_field(&event, &["a", "b", "c"]), Some("two"));
    assert_eq!(str_field(&event, &["a", "z"]), None);
    assert_eq!(str_field(&event, &[]), None);
    assert_eq!(nested_str_field(&event, &["z", "p", "q"], &["b"]), Some("inner"));
    assert_eq!(nested_str_field(&event, &["p"], &["b"]), None);
    assert_eq!(member_field(&event, &["z", "a", "b"]), Some(&Json::integer(1)));
    assert_eq!(member_field(&event, &["z"]), None);
    assert_eq!(member_field(&Json::Null, &["a"]), None);
}

#[test]
fn ids_and_names_stand_in_the_event_or_in_the_call() {
    assert_eq!(tool_call_id(&read(r#"{"call_id":"c","tool_call":{"id":"d"}}"#), 1), "c");
    assert_eq!(tool_call_id(&read(r#"{"toolCall":{"tool_call_id":"d"}}"#), 1), "d");
    assert_eq!(tool_call_id(&read(r#"{"id":7}"#), 12), "toolu_12");
    assert_eq!(tool_call_id(&read("{}"), -3), "toolu_-3");
    assert_eq!(fallback_id(0), "toolu_0");
    assert_eq!(fallback_id(i32::MIN), "toolu_-2147483648");
    assert_eq!(fallback_id(i32::MAX), "toolu_2147483647");
    assert_eq!(tool_call_name(&read(r#"{"tool_name":"n"}"#)), Some("n"));
    assert_eq!(tool_call_name(&read(r#"{"tool_call":{"x":1},"toolCall":{"name":"m"}}"#)), Some("m"));
    assert_eq!(tool_call_name(&read(r#"{"tool_call":"name"}"#)), None);
}

#[test]
fn inputs_become_objects() {
    assert_eq!(object_or_wrapped_input(&read(r#"{"a":1}"#)).to_text(), r#"{"a":1}"#);
    assert_eq!(object_or_wrapped_input(&text(r#"{"a":1}"#)).to_text(), r#"{"a":1}"#);
    assert_eq!(object_or_wrapped_input(&text("[1]")).to_text(), r#"{"input":"[1]"}"#);
    assert_eq!(object_or_wrapped_input(&text("ls -l")).to_text(), r#"{"input":"ls -l"}"#);
    assert_eq!(object_or_wrapped_input(&Json::Null).to_text(), "{}");
    assert_eq!(object_or_wrapped_input(&read("[1]")).to_text(), r#"{"input":[1]}"#);
    assert_eq!(object_or_wrapped_input(&Json::Bool(false)).to_text(), r#"{"input":false}"#);
    let parsed = Some(read(r#"{"z":1}"#));
    assert_eq!(input_of_parsed(&text("?"), parsed).to_text(), r#"{"z":1}"#);
    assert_eq!(input_of_parsed(&text("?"), None).to_text(), r#"{"input":"?"}"#);
    assert_eq!(tool_call_input(&read(r#"{"args":{"a":1},"arguments":2}"#)).to_text(), r#"{"a":1}"#);
    assert_eq!(
        tool_call_input(&read(r#"{"tool_call":{"name":"x"},"toolCall":{"input":null}}"#)).to_text(),
        "{}"
    );
    assert_eq!(
        tool_call_input(&read(r#"{"tool_call":{"arguments":"{\"p\":true}"}}"#)).to_text(),
        r#"{"p":true}"#
    );
    assert_eq!(tool_call_input(&read("{}")).to_text(), "{}");
}

#[test]
fn the_first_status_that_says_anything_decides() {
    assert!(tool_call_is_completion(&read(r#"{"subtype":"Completed"}"#)));
    assert!(tool_call_is_completion(&read(r#"{"status":"FINISHED"}"#)));
    assert!(tool_call_is_completion(&read(r#"{"phase":"success"}"#)));
    assert!(tool_call_is_completion(&read(r#"{"phase":"an ERROR"}"#)));
    assert!(tool_call_is_completion(&read(r#"{"phase":"failed"}"#)));
    assert!(tool_call_is_completion(&read(r#"{"subtype":"running","status":"result"}"#)));
    assert!(!tool_call_is_completion(&read(r#"{"subtype":"started","status":"completed"}"#)));
    assert!(!tool_call_is_completion(&read(r#"{"subtype":"restart-complete"}"#)));
    assert!(!tool_call_is_completion(&read(r#"{"status":"running","output":1,"args":2}"#)));
    assert!(tool_call_is_completion(&read(r#"{"status":"running","output":1}"#)));
    assert!(tool_call_is_completion(&read(r#"{"result":null}"#)));
    assert!(!tool_call_is_completion(&read(r#"{"result":1,"input":null}"#)));
    assert!(!tool_call_is_completion(&read(r#"{"output":1,"arguments":{}}"#)));
    assert!(!tool_call_is_completion(&read("{}")));
}

#[test]
fn a_call_without_a_name_is_neither_emitted_nor_remembered() {
    let mut out = Vec::new();
    let mut seen = ToolIds::new();
    assert!(!emit_tool_call(&mut out, &read(r#"{"id":"x","input":{}}"#), 0, &mut seen));
    assert!(out.is_empty());
    assert!(seen.insert("x"));
    assert!(!seen.insert("x"));
}
