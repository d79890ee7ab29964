use cursor_bridge::http::{
    announces_chunks, content_length_in, get_models_json, read_chunk_size, respond_404,
    respond_agent_error, respond_bad_request, respond_cors, respond_hello, respond_json,
    respond_models, respond_sse_head, route, Phase, RequestReader, Route, Want,
};
use cursor_bridge::text::replace;

/// Feeds the head of a request, line by line.
fn head(lines: &[&str]) -> RequestReader {
    let mut reader = RequestReader::new();
    for line in lines {
        assert_eq!(reader.want(), Want::Line);
        reader.on_line(Some(line));
    }
    reader
}

#[test]
fn test_models_response_valid_json() {
    // Verify the hardcoded models response is valid JSON
    let body = r#"{"data":[
            {"type":"model","id":"cursor-auto","display_name":"Cursor Auto"},
            {"type":"model","id":"cursor-smart","display_name":"Cursor Smart"},
            {"type":"model","id":"default","display_name":"Default"}
        ]}"#;
    let v: serde_json::Value = serde_json::from_str(body).unwrap();
    assert_eq!(v["data"].as_array().unwrap().len(), 3);
}

#[test]
fn the_models_on_offer() {
    let body = get_models_json();
    let v: serde_json::Value = serde_json::from_str(&body).unwrap();
    let models = v["data"].as_array().unwrap();
    let expected = [
        ("default", "Auto"),
        ("claude_sonnet_4_6_high", "Claude_Sonnet_4.6_High"),
        ("claude_sonnet_4_6_high_fast", "Claude_Sonnet_4.6_High_Fast"),
        ("claude_opus_5_high", "Claude_Opus_5_High"),
        ("claude_opus_5_high_fast", "Claude_Opus_5_High_Fast"),
        ("cursor_grok_4.5_high", "Cursor_Grok_4.5"),
        ("cursor_grok_4.5_high_fast", "Cursor_Grok_4.5_Fast"),
        ("composer_2.5", "Composer_2.5"),
        ("composer_2.5_fast", "Composer_2.5_Fast"),
    ];
    assert_eq!(models.len(), expected.len());
    let mut lines = vec!["{\"data\":[".to_string()];
    for (i, (id, name)) in expected.iter().enumerate() {
        let (id, name) = (id.replace('_', "-"), name.replace('_', " "));
        assert_eq!(models[i]["type"], "model");
        assert_eq!(models[i]["id"], id.as_str());
        assert_eq!(models[i]["display_name"], name.as_str());
        let comma = if i + 1 < expected.len() { "," } else { "" };
        lines.push(format!(
            "        {{\"type\":\"model\",\"id\":\"{id}\",\"display_name\":\"{name}\"}}{comma}"
        ));
    }
    lines.push("    ]}".to_string());
    assert_eq!(body, lines.join("\n"));
    assert_eq!(respond_models(), respond_json("200 OK", &body));
}

#[test]
fn replacing_a_character() {
    assert_eq!(replace("_a__é_", '_', "-"), "-a--é-");
    assert_eq!(replace("", '_', "-"), "");
    assert_eq!(replace("none", '_', "→"), "none");
}

#[test]
fn a_request_with_a_length() {
    let mut reader = head(&[
        "POST /v1/messages?beta=true HTTP/1.1\r\n",
        "Host: localhost\r\n",
        "CONTENT-Length:  5 \r\n",
        "\r\n",
    ]);
    assert_eq!(reader.want(), Want::Bytes(5));
    reader.on_bytes(b"hello");
    assert_eq!(reader.want(), Want::Nothing);
    assert_eq!(reader.method, "POST");
    assert_eq!(reader.path, "/v1/messages?beta=true");
    assert_eq!(reader.body, b"hello");
}

#[test]
fn the_last_length_counts_and_stands_before_chunks() {
    let mut reader = head(&[
        "POST /messages HTTP/1.1",
        "content-length: 9",
        "Transfer-Encoding: chunked",
        "content-length: 2",
        "",
    ]);
    assert_eq!(reader.want(), Want::Bytes(2));
    reader.on_bytes(b"ok");
    assert_eq!(reader.body, b"ok");
    let reader = head(&["POST / HTTP/1.1", "content-length: 9", "content-length: nine", ""]);
    assert_eq!(reader.want(), Want::Nothing);
}

#[test]
fn a_request_without_a_body() {
    let reader = head(&["GET /api/hello HTTP/1.1\r\n", "Accept: */*\r\n", "\r\n"]);
    assert_eq!(reader.want(), Want::Nothing);
    assert!(reader.body.is_empty());
    // The headers also end where the input does.
    let mut reader = head(&["GET / HTTP/1.1"]);
    reader.on_line(None);
    assert_eq!(reader.want(), Want::Nothing);
}

#[test]
fn a_request_in_chunks() {
    let mut reader = head(&["POST /messages HTTP/1.1", "transfer-encoding: Chunked", ""]);
    reader.on_line(Some("4;name=value\r\n"));
    assert_eq!(reader.want(), Want::Bytes(4));
    reader.on_bytes(b"Wiki");
    assert_eq!(reader.want(), Want::Line);
    assert_eq!(reader.phase, Phase::ChunkEnd);
    reader.on_line(Some("\r\n"));
    reader.on_line(Some(" 1A \r\n"));
    assert_eq!(reader.want(), Want::Bytes(26));
    reader.on_bytes(b"pedia in chunks and so on.");
    reader.on_line(None);
    reader.on_line(Some("0\r\n"));
    assert_eq!(reader.want(), Want::Nothing);
    assert_eq!(reader.body, b"Wikipedia in chunks and so on.");
}

#[test]
fn chunks_end_where_no_size_stands() {
    for end in [Some("zz"), Some(""), Some("-1"), Some("10000000000000000"), None] {
        let mut reader = head(&["POST /messages HTTP/1.1", "transfer-encoding: chunked", ""]);
        reader.on_line(end);
        assert_eq!(reader.want(), Want::Nothing);
        assert!(reader.body.is_empty());
    }
    assert_eq!(read_chunk_size("ff ; x\r\n"), 255);
    assert_eq!(read_chunk_size("+10"), 16);
    assert_eq!(read_chunk_size(";5"), 0);
}

#[test]
fn what_is_no_request_is_dropped() {
    for first in [Some("GET\r\n"), Some("\r\n"), Some(""), Some("   "), None] {
        let mut reader = RequestReader::new();
        reader.on_line(first);
        assert_eq!(reader.want(), Want::Drop);
    }
    // Two spaces: the second word is empty.
    let reader = head(&["GET  /x HTTP/1.1"]);
    assert_eq!((reader.method.as_str(), reader.path.as_str()), ("GET", ""));
    let reader = head(&[" GET /x "]);
    assert_eq!((reader.method.as_str(), reader.path.as_str()), ("GET", "/x"));
}

#[test]
fn a_reader_that_is_done_stays_as_it_is() {
    let mut reader = head(&["GET / HTTP/1.1", ""]);
    reader.on_line(Some("more"));
    reader.on_bytes(b"more");
    assert_eq!(reader.want(), Want::Nothing);
    assert!(reader.body.is_empty());
}

#[test]
fn header_names_are_compared_in_lower_case() {
    // The Kelvin sign is a `k` in lower case, and the capital dotted `I` is no plain `i`.
    let mut reader = head(&["POST / HTTP/1.1", "Transfer-Encoding: chun\u{212a}ed", ""]);
    assert_eq!(reader.want(), Want::Line);
    reader.on_line(Some("0"));
    assert_eq!(reader.want(), Want::Nothing);
    let reader = head(&["POST / HTTP/1.1", "Transfer-Encod\u{130}ng: chunked", ""]);
    assert_eq!(reader.want(), Want::Nothing);
}

#[test]
fn header_lines_in_parts() {
    assert_eq!(content_length_in("Content-Length: 12:34", "content-length: 12:34"), Some(12));
    assert_eq!(content_length_in("Content-Length: x", "content-length: x"), Some(0));
    assert_eq!(content_length_in("no colon", "content-length:"), Some(0));
    assert_eq!(content_length_in(" content-length: 1", " content-length: 1"), None);
    assert!(announces_chunks("x-transfer-encoding: gzip, chunked"));
    assert!(!announces_chunks("transfer-encoding: gzip"));
    assert!(!announces_chunks("te: chunked"));
}

#[test]
fn routes() {
    assert_eq!(route("HEAD", "/api/hello"), Route::Hello { head: true });
    assert_eq!(route("GET", "/api/hello"), Route::Hello { head: false });
    assert_eq!(route("GET", "/v1/models"), Route::Models);
    assert_eq!(route("GET", "/models"), Route::Models);
    assert_eq!(route("POST", "/v1/messages/count_tokens"), Route::Messages);
    assert_eq!(route("POST", "/messages?x"), Route::Messages);
    assert_eq!(route("OPTIONS", "/anything"), Route::Cors);
    assert_eq!(route("GET", "/v1/messages"), Route::NotFound);
    assert_eq!(route("POST", "/v2/messages"), Route::NotFound);
    assert_eq!(route("get", "/models"), Route::NotFound);
    assert_eq!(route("HEAD", "/models"), Route::NotFound);
}

#[test]
fn responses() {
    assert_eq!(
        respond_cors(),
        "HTTP/1.1 204 No Content\r\nAccess-Control-Allow-Origin: *\r\nAccess-Control-Allow-Methods: GET, POST, OPTIONS\r\nAccess-Control-Allow-Headers: *\r\nContent-Length: 0\r\n\r\n"
    );
    assert_eq!(respond_404(), "HTTP/1.1 404\r\nContent-Length: 2\r\n\r\n{}");
    assert_eq!(
        respond_hello(false, 4321),
        "HTTP/1.1 200 OK\r\nContent-Type: application/json\r\nContent-Length: 15\r\nx-request-id: bridge-4321\r\n\r\n{\"status\":\"ok\"}"
    );
    assert_eq!(
        respond_hello(true, 7),
        "HTTP/1.1 200 OK\r\nContent-Type: application/json\r\nContent-Length: 15\r\nx-request-id: bridge-7\r\n\r\n"
    );
    assert_eq!(
        respond_bad_request("expected \"x\" at é"),
        "HTTP/1.1 400 Bad Request\r\nContent-Type: application/json\r\nContent-Length: 30\r\n\r\n{\"error\":\"expected 'x' at é\"}"
    );
    assert_eq!(
        respond_agent_error("No \"such\" file"),
        "HTTP/1.1 500\r\nContent-Type: application/json\r\nContent-Length: 33\r\n\r\n{\"error\":\"agent: No \"such\" file\"}"
    );
    assert_eq!(
        respond_sse_head(),
        "HTTP/1.1 200 OK\r\nContent-Type: text/event-stream\r\nCache-Control: no-cache\r\nConnection: keep-alive\r\nAccess-Control-Allow-Origin: *\r\n\r\n"
    );
}

#[test]
fn the_declared_length_is_counted_in_bytes() {
    let response = respond_json("200 OK", "\"→\"");
    assert_eq!(
        response,
        "HTTP/1.1 200 OK\r\nContent-Type: application/json\r\nContent-Length: 5\r\n\r\n\"→\""
    );
    let line = "Content-Length: 5";
    assert_eq!(content_length_in(line, &line.to_lowercase()), Some("\"→\"".len()));
}
