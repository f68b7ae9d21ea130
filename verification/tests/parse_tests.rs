use live_translate::google::GoogleTranslator;
use live_translate::json::JsonValue;
use live_translate::microsoft::MicrosoftTranslator;
use live_translate::translator::Translator;
use live_translate::CoreError;

#[test]
fn google_response_text_is_at_0_0_0() {
    let body = "[[[\"hola\",\"hello\",null]],null,\"en\"]";
    assert_eq!(GoogleTranslator::parse_response_body(body), Ok("hola".to_string()));
}

#[test]
fn google_missing_path_is_parse_failure() {
    assert_eq!(GoogleTranslator::parse_response_body("{}"), Err(CoreError::Parse));
    assert_eq!(GoogleTranslator::parse_response_body("[]"), Err(CoreError::Parse));
    assert_eq!(GoogleTranslator::parse_response_body("[[]]"), Err(CoreError::Parse));
    assert_eq!(GoogleTranslator::parse_response_body("[[[1]]]"), Err(CoreError::Parse));
    assert_eq!(GoogleTranslator::parse_response_body("not json"), Err(CoreError::Parse));
}

#[test]
fn google_through_the_capability_interface() {
    let g = GoogleTranslator;
    assert!(!g.auth_required(0));
    let mut g = g;
    assert_eq!(g.auth("anything"), Ok(()));
    assert_eq!(g.parse_response("[[[\"ciao\"]]]"), Ok("ciao".to_string()));
}

#[test]
fn microsoft_response_text_is_under_translations() {
    let body = "[{\"translations\":[{\"text\":\"\u{4f60}\u{597d}\",\"to\":\"zh-Hans\"}]}]";
    assert_eq!(
        MicrosoftTranslator::parse_response_body(body),
        Ok("\u{4f60}\u{597d}".to_string())
    );
}

#[test]
fn microsoft_missing_path_is_parse_failure() {
    assert_eq!(MicrosoftTranslator::parse_response_body("[]"), Err(CoreError::Parse));
    assert_eq!(
        MicrosoftTranslator::parse_response_body("[{\"translations\":[]}]"),
        Err(CoreError::Parse)
    );
    assert_eq!(
        MicrosoftTranslator::parse_response_body("[{\"translations\":[{}]}]"),
        Err(CoreError::Parse)
    );
    assert_eq!(
        MicrosoftTranslator::parse_response_body("[{\"translations\":[{\"text\":5}]}]"),
        Err(CoreError::Parse)
    );
    assert_eq!(MicrosoftTranslator::parse_response_body("oops"), Err(CoreError::Parse));
}

#[test]
fn navigation_over_a_built_tree() {
    let tree = JsonValue::Arr(vec![JsonValue::Obj(vec![
        ("translations".to_string(), JsonValue::Arr(vec![JsonValue::Obj(vec![
            ("text".to_string(), JsonValue::Str("salut".to_string())),
        ])])),
    ])]);
    assert_eq!(MicrosoftTranslator::extract_translation(&tree), Some("salut".to_string()));

    let google_tree = JsonValue::Arr(vec![JsonValue::Arr(vec![JsonValue::Arr(vec![
        JsonValue::Str("hej".to_string()),
        JsonValue::Str("hello".to_string()),
    ])])]);
    assert_eq!(GoogleTranslator::extract_translation(&google_tree), Some("hej".to_string()));
    assert_eq!(GoogleTranslator::extract_translation(&tree), None);
}

#[test]
fn object_lookup_takes_first_match() {
    let obj = JsonValue::Obj(vec![
        ("k".to_string(), JsonValue::Num(1)),
        ("k".to_string(), JsonValue::Num(2)),
    ]);
    assert_eq!(obj.field("k").and_then(|v| v.as_u64()), Some(1));
    assert_eq!(obj.field("missing"), None);
}

#[test]
fn request_body_wraps_and_escapes_the_query() {
    assert_eq!(MicrosoftTranslator::request_body("hi"), "[{\"Text\":\"hi\"}]");
    assert_eq!(
        MicrosoftTranslator::request_body("a\"b\\c"),
        "[{\"Text\":\"a\\\"b\\\\c\"}]"
    );
    assert_eq!(MicrosoftTranslator::request_body("x\ny"), "[{\"Text\":\"x\\ny\"}]");
    assert_eq!(MicrosoftTranslator::request_body("\t\r"), "[{\"Text\":\"\\t\\r\"}]");
    assert_eq!(MicrosoftTranslator::request_body("\u{1}"), "[{\"Text\":\"\\u0001\"}]");
    assert_eq!(MicrosoftTranslator::request_body("\u{1f}"), "[{\"Text\":\"\\u001f\"}]");
    // The body itself is valid JSON carrying the query unchanged.
    let body = MicrosoftTranslator::request_body("a\"b\\c\nd");
    let v: serde_json::Value = serde_json::from_str(&body).unwrap();
    assert_eq!(v[0]["Text"].as_str().unwrap(), "a\"b\\c\nd");
}
