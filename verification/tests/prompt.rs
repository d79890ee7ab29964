use cursor_bridge::json::Json;
use cursor_bridge::prompt::{
    build_prompt, extract_system_text, extract_text, tool_use_text, Message,
};

fn obj(entries: Vec<(&str, Json)>) -> Json {
    Json::Object(entries.into_iter().map(|(k, v)| (k.to_string(), v)).collect())
}

fn text(s: &str) -> Json {
    Json::Text(s.to_string())
}

#[test]
fn test_extract_system_text_string() {
    let v = Some(Json::Text("Be helpful.".into()));
    assert_eq!(extract_system_text(&v), "Be helpful.");
}

#[test]
fn test_extract_system_text_array() {
    let v = Some(Json::Array(vec![
        obj(vec![("type", text("text")), ("text", text("Be helpful."))]),
        obj(vec![("type", text("text")), ("text", text("Be concise."))]),
    ]));
    assert_eq!(extract_system_text(&v), "Be helpful.\nBe concise.");
}

#[test]
fn test_extract_system_text_none() {
    assert_eq!(extract_system_text(&None), "");
}

#[test]
fn test_extract_text_string_content() {
    let v = Json::Text("hello".into());
    assert_eq!(extract_text(&v), "hello");
}

#[test]
fn test_extract_text_text_block() {
    let v = Json::Array(vec![obj(vec![("type", text("text")), ("text", text("Hello there"))])]);
    assert_eq!(extract_text(&v), "Hello there\n");
}

#[test]
fn test_extract_text_tool_use() {
    let v = Json::Array(vec![obj(vec![
        ("type", text("tool_use")),
        ("name", text("bash")),
        ("id", text("tu_1")),
        ("input", obj(vec![("command", text("ls"))])),
    ])]);
    let out = extract_text(&v);
    assert!(out.contains("TOOL_USE: bash"));
    assert!(out.contains("ls"));
}

#[test]
fn test_extract_text_tool_result() {
    let v = Json::Array(vec![obj(vec![
        ("type", text("tool_result")),
        ("tool_use_id", text("tu_1")),
        ("content", text("file.txt")),
    ])]);
    let out = extract_text(&v);
    assert!(out.contains("TOOL_RESULT: tu_1"));
    assert!(out.contains("file.txt"));
}

#[test]
fn test_extract_text_tool_error() {
    let v = Json::Array(vec![obj(vec![
        ("type", text("tool_result")),
        ("tool_use_id", text("tu_1")),
        ("content", text("permission denied")),
        ("is_error", Json::Bool(true)),
    ])]);
    let out = extract_text(&v);
    assert!(out.contains("TOOL_ERROR"));
}

#[test]
fn test_build_prompt_simple() {
    let msgs = [Message { role: "user".into(), content: Json::Text("hi".into()) }];
    let prompt = build_prompt(&msgs, &None);
    assert!(prompt.contains("[User]"));
    assert!(prompt.contains("hi"));
    assert!(prompt.contains("[/User]"));
    assert!(prompt.contains("[Assistant]"));
}

#[test]
fn test_build_prompt_with_system() {
    let sys = Some(Json::Text("You are a bot.".into()));
    let msgs = [Message { role: "user".into(), content: Json::Text("hi".into()) }];
    let prompt = build_prompt(&msgs, &sys);
    assert!(prompt.contains("[SYSTEM]"));
    assert!(prompt.contains("You are a bot."));
}

#[test]
fn test_build_prompt_with_tool_context() {
    let msgs = [
        Message {
            role: "user".into(),
            content: Json::Array(vec![obj(vec![
                ("type", text("tool_result")),
                ("tool_use_id", text("tu_1")),
                ("content", text("file contents")),
            ])]),
        },
        Message {
            role: "assistant".into(),
            content: Json::Array(vec![obj(vec![
                ("type", text("tool_use")),
                ("name", text("read")),
                ("id", text("tu_1")),
                ("input", obj(vec![("path", text("file.txt"))])),
            ])]),
        },
    ];
    let prompt = build_prompt(&msgs, &None);
    assert!(prompt.contains("TOOL_RESULT"));
    assert!(prompt.contains("TOOL_USE: read"));
}

#[test]
fn blocks_in_full() {
    let v = Json::Array(vec![
        obj(vec![("type", text("tool_use")), ("input", obj(vec![("b", Json::Null), ("a", text("\""))]))]),
        obj(vec![("type", text("tool_use")), ("name", text("n"))]),
        obj(vec![("type", text("tool_result"))]),
        obj(vec![
            ("type", text("tool_result")),
            ("tool_use_id", text("t")),
            ("is_error", Json::Bool(true)),
            ("content", Json::Array(vec![obj(vec![("type", text("text")), ("text", text("no"))])])),
        ]),
        obj(vec![("type", text("thinking")), ("thinking", text("hm"))]),
        obj(vec![("type", text("image"))]),
        obj(vec![("text", text("a block without a type"))]),
        text("not a block"),
    ]);
    assert_eq!(
        extract_text(&v),
        "[TOOL_USE: unknown]\n{\"a\":\"\\\"\",\"b\":null}\n[/TOOL_USE]\n\
         [TOOL_USE: n]\nnull\n[/TOOL_USE]\n\
         [TOOL_RESULT: ]\n\n[/TOOL_RESULT]\n\
         [TOOL_ERROR: t]\nno\n\n[/TOOL_ERROR]\n\
         [thinking]\nhm\n[/thinking]\n"
    );
    assert_eq!(extract_text(&Json::Null), "");
    assert_eq!(extract_text(&Json::Bool(true)), "");
    assert_eq!(tool_use_text(None, "{}"), "[TOOL_USE: unknown]\n{}\n[/TOOL_USE]\n");
    assert_eq!(tool_use_text(Some("ls"), "1"), "[TOOL_USE: ls]\n1\n[/TOOL_USE]\n");
}

#[test]
fn system_prompts_of_other_shapes() {
    assert_eq!(extract_system_text(&Some(Json::Bool(true))), "");
    let v = Some(Json::Array(vec![
        text("skipped"),
        obj(vec![("text", text(""))]),
        obj(vec![("other", text("skipped"))]),
        obj(vec![("text", text("x"))]),
    ]));
    assert_eq!(extract_system_text(&v), "\nx");
    // A system prompt without text has no place in the prompt.
    assert_eq!(build_prompt(&[], &Some(Json::Text(String::new()))), "[Assistant]\n");
}

#[test]
fn a_whole_prompt() {
    let msgs = [
        Message { role: "system".into(), content: text("s") },
        Message { role: "assistant".into(), content: text("a") },
    ];
    assert_eq!(
        build_prompt(&msgs, &Some(text("S"))),
        "[SYSTEM]\nS\n[/SYSTEM]\n\n[User]\ns\n[/User]\n\n[Assistant]\na\n[/Assistant]\n\n[Assistant]\n"
    );
}
