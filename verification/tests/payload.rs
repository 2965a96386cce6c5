use symphony::error::SymphonyError;
use symphony::json::Json;
use symphony::payload::{
    extract_string, extract_token_usage, find_string, parse_linear_graphql_arguments,
    summarize_value, token_usage_fits, try_summarize_value,
};
use symphony::types::TokenUsage;

fn json(text: &str) -> Json {
    Json::parse(text).expect("the text is JSON")
}

#[test]
fn parses_linear_graphql_arguments_from_string_and_object() {
    let (query, variables) = parse_linear_graphql_arguments(Some(&Json::String(String::from(
        "query One { viewer { id } }",
    ))))
    .expect("string arguments should parse");
    assert_eq!(query, "query One { viewer { id } }");
    assert!(variables.is_none());

    let (query, variables) = parse_linear_graphql_arguments(Some(&json(
        r#"{"query": "query One { viewer { id } }", "variables": { "id": 1 }}"#,
    )))
    .expect("object arguments should parse");
    assert_eq!(query, "query One { viewer { id } }");
    assert_eq!(variables, Some(json(r#"{ "id": 1 }"#)));
}

#[test]
fn rejects_invalid_linear_graphql_arguments() {
    assert!(parse_linear_graphql_arguments(None).is_err());
    assert!(parse_linear_graphql_arguments(Some(&json(r#"{ "query": "" }"#))).is_err());
    assert!(parse_linear_graphql_arguments(Some(&json(
        r#"{"query": "query One { viewer { id } }", "variables": ["not-an-object"]}"#,
    )))
    .is_err());
}

#[test]
fn names_what_is_wrong_with_graphql_arguments() {
    let message = |text: &str| match parse_linear_graphql_arguments(Some(&json(text))) {
        Err(SymphonyError::InvalidConfig(message)) => message,
        other => panic!("{:?}", other),
    };
    assert_eq!(message("\"  \""), "arguments must be a query string or object");
    assert_eq!(message("3"), "arguments must be a query string or object");
    assert_eq!(message("{}"), "query must be a non-empty string");
    assert_eq!(message(r#"{"query": ""}"#), "query must be a non-empty string");
    assert_eq!(message(r#"{"query": 7}"#), "query must be a non-empty string");
    assert_eq!(message(r#"{"query": "q", "variables": null}"#), "variables must be an object");
}

#[test]
fn extracts_strings_and_summaries_from_nested_payloads() {
    let payload = json(
        r#"{"result": {"thread": { "id": "thread-1" }, "turn": { "id": "turn-1" }, "message": "done"}}"#,
    );
    assert_eq!(
        extract_string(&payload, &[&["result", "thread", "id"]]),
        Some(String::from("thread-1"))
    );
    assert_eq!(find_string(&payload, &["message", "text"]), Some(String::from("done")));
    assert_eq!(summarize_value(&Json::Null), None);
    assert_eq!(
        summarize_value(&json(r#"{ "summary": "short" }"#)),
        Some(String::from("short"))
    );
    assert!(summarize_value(&Json::String("x".repeat(400)))
        .unwrap_or_default()
        .ends_with("..."));
}

#[test]
fn walks_members_in_the_order_of_their_keys() {
    let message = |text: &str| Json::Object(vec![("message".into(), Json::String(text.into()))]);
    let value = Json::Object(vec![
        ("b".into(), message("of b")),
        ("a".into(), message("of a")),
        ("c".into(), message("of c")),
    ]);
    assert_eq!(summarize_value(&value), Some("of a".to_string()));
    let replaced = Json::Object(vec![
        ("a".into(), message("gone")),
        ("b".into(), message("of b")),
        ("a".into(), Json::Null),
    ]);
    assert_eq!(summarize_value(&replaced), Some("of b".to_string()));
    assert_eq!(replaced.get("a"), Some(&Json::Null));
    assert_eq!(replaced.to_text(), r#"{"a":null,"b":{"message":"of b"}}"#);
    let usage = |n: u64| Json::Object(vec![("input_tokens".into(), Json::PosInt(n))]);
    let counts = Json::Object(vec![("y".into(), usage(2)), ("x".into(), usage(1))]);
    assert_eq!(extract_token_usage(&counts).unwrap().input_tokens, 1);
}

#[test]
fn takes_the_first_path_that_ends_in_a_text() {
    let payload = json(r#"{"thread": {"id": 7}, "threadId": "t"}"#);
    assert_eq!(
        extract_string(&payload, &[&["thread", "id"], &["threadId"]]),
        Some(String::from("t"))
    );
    assert_eq!(extract_string(&payload, &[&["thread", "name"]]), None);
}

#[test]
fn finds_a_key_of_the_object_itself_before_its_parts() {
    let payload = json(r#"{"a": {"message": "inner"}, "text": "outer"}"#);
    assert_eq!(find_string(&payload, &["message", "text"]), Some(String::from("outer")));
    let listed = json(r#"[1, {"b": {"text": "first"}}, {"text": "second"}]"#);
    assert_eq!(find_string(&listed, &["message", "text"]), Some(String::from("first")));
    assert_eq!(find_string(&listed, &["message"]), None);
}

#[test]
fn shortens_long_payloads_to_three_hundred_bytes() {
    let summary = summarize_value(&Json::String("x".repeat(400))).unwrap();
    assert_eq!(summary, format!("\"{}...", "x".repeat(299)));
    let whole = summarize_value(&Json::String("x".repeat(298))).unwrap();
    assert_eq!(whole, format!("\"{}\"", "x".repeat(298)));
}

#[test]
fn does_not_cut_within_a_character() {
    assert_eq!(try_summarize_value(&Json::String("é".repeat(200))), None);
    let even = Json::String(format!("a{}", "é".repeat(200)));
    assert_eq!(
        try_summarize_value(&even),
        Some(Some(format!("\"a{}...", "é".repeat(149))))
    );
    assert_eq!(try_summarize_value(&Json::Null), Some(None));
}

#[test]
fn extracts_nested_token_usage_variants() {
    let tokens = extract_token_usage(&json(
        r#"{"params": {"total_token_usage": {"input_tokens": 4, "output_tokens": 5, "total_tokens": 9}}}"#,
    ))
    .expect("snake_case tokens should parse");
    assert_eq!(tokens, TokenUsage { input_tokens: 4, output_tokens: 5, total_tokens: 9 });

    let tokens =
        extract_token_usage(&json(r#"{"usage": {"inputTokens": 6, "outputTokens": 7}}"#))
            .expect("camelCase tokens should parse");
    assert_eq!(tokens.total_tokens, 13);
}

#[test]
fn prefers_a_named_total_over_own_counts() {
    let value = json(
        r#"{"input_tokens": 1, "totalTokenUsage": {"input_tokens": 10, "output_tokens": 20}}"#,
    );
    assert_eq!(
        extract_token_usage(&value),
        Some(TokenUsage { input_tokens: 10, output_tokens: 20, total_tokens: 30 })
    );
    assert_eq!(extract_token_usage(&json(r#"{"a": [1, "x", {}]}"#)), None);
    assert_eq!(
        extract_token_usage(&json(r#"[{"output_tokens": 3}]"#)),
        Some(TokenUsage { input_tokens: 0, output_tokens: 3, total_tokens: 0 })
    );
}

#[test]
fn notices_totals_that_do_not_fit() {
    let value = json(r#"{"input_tokens": 18446744073709551615, "output_tokens": 1}"#);
    assert!(!token_usage_fits(&value));
    let value = json(r#"{"input_tokens": 18446744073709551615, "output_tokens": 0}"#);
    assert!(token_usage_fits(&value));
    assert_eq!(extract_token_usage(&value).unwrap().total_tokens, u64::MAX);
}
