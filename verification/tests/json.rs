use cursor_bridge::json::Json;

#[test]
fn text_and_document_and_back() {
    let source = " { \"b\" : [ 1, -2, 3.5, true, null ], \"a\" : \"x\\u00e9\\n\", \"b2\":{} } ";
    let json = Json::parse(source).unwrap();
    assert_eq!(json.to_text(), "{\"a\":\"xé\\n\",\"b\":[1,-2,3.5,true,null],\"b2\":{}}");
    let again = Json::parse(&json.to_text()).unwrap();
    assert_eq!(again.to_text(), json.to_text());
}

#[test]
fn what_is_not_json_is_refused() {
    assert_eq!(Json::parse(""), None);
    assert_eq!(Json::parse("{"), None);
    assert_eq!(Json::parse("nul"), None);
    assert_eq!(Json::parse("{} {}"), None);
    assert_eq!(Json::parse("null"), Some(Json::Null));
    assert_eq!(Json::parse("false"), Some(Json::Bool(false)));
}

#[test]
fn the_later_entry_counts() {
    let twice = Json::object()
        .with("k", Json::integer(1))
        .with("other", Json::Null)
        .with("k", Json::integer(2));
    assert_eq!(twice.get("k"), Some(&Json::integer(2)));
    assert_eq!(twice.to_text(), "{\"k\":2,\"other\":null}");
    let thrice = Json::object()
        .with("k", Json::integer(1))
        .with("j", Json::integer(4))
        .with("k", Json::integer(2))
        .with("j", Json::Null)
        .with("k", Json::object().with("a", Json::integer(1)).with("a", Json::integer(3)));
    assert_eq!(thrice.to_text(), "{\"j\":null,\"k\":{\"a\":3}}");
    let read = Json::parse("{\"k\":1,\"k\":2}").unwrap();
    assert_eq!(read.to_text(), "{\"k\":2}");
}

#[test]
fn members_of_other_shapes_are_absent() {
    let json = Json::parse("{\"s\":\"t\",\"n\":3,\"b\":true}").unwrap();
    assert_eq!(json.str_at("s"), Some("t"));
    assert_eq!(json.str_at("n"), None);
    assert_eq!(json.str_at("z"), None);
    assert!(json.says("s", "t"));
    assert!(!json.says("s", "u"));
    assert!(!json.says("n", "3"));
    assert!(json.is_true_at("b"));
    assert!(!json.is_true_at("s"));
    assert!(!json.is_true_at("z"));
    assert_eq!(Json::of_str("s").get("s"), None);
    assert_eq!(Json::Array(vec![]).get("0"), None);
    assert_eq!(Json::of_str("s").as_str(), Some("s"));
    assert_eq!(Json::Null.as_str(), None);
}

#[test]
fn counts_are_unsigned_numbers() {
    let json = Json::parse(
        "{\"a\":18446744073709551615,\"b\":-1,\"c\":1.0,\"d\":\"7\",\"e\":18446744073709551616}",
    )
    .unwrap();
    assert_eq!(json.count_at("a"), u64::MAX);
    assert_eq!(json.count_at("b"), 0);
    assert_eq!(json.count_at("c"), 0);
    assert_eq!(json.count_at("d"), 0);
    assert_eq!(json.count_at("e"), 0);
    assert_eq!(json.count_at("z"), 0);
}

#[test]
fn integers_at_the_ends_of_their_range() {
    assert_eq!(Json::integer(u64::MAX as i128).to_text(), "18446744073709551615");
    assert_eq!(Json::integer(i64::MIN as i128).to_text(), "-9223372036854775808");
    assert_eq!(Json::integer(0).to_text(), "0");
    assert_eq!(Json::object().with("n", Json::integer(9)).count_at("n"), 9);
    assert_eq!(Json::object().with("n", Json::integer(-9)).count_at("n"), 0);
}

#[test]
fn a_copy_holds_the_same_document() {
    let json = Json::parse("[{\"a\":[1,{\"b\":\"c\"}]},2.25,\"s\",null,true]").unwrap();
    assert_eq!(json.clone(), json);
    assert_eq!(json.clone().to_text(), "[{\"a\":[1,{\"b\":\"c\"}]},2.25,\"s\",null,true]");
}

#[test]
fn a_text_never_holds_a_line_break() {
    let json = Json::object().with("a\r\n", Json::of_str("b\nc\r")).with("d", Json::Array(vec![]));
    let text = json.to_text();
    assert!(!text.contains('\n') && !text.contains('\r'));
    assert_eq!(text, "{\"a\\r\\n\":\"b\\nc\\r\",\"d\":[]}");
}
