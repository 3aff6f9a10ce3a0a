use antigravity_proxy::codec::{json_of_value, parse_json, value_of_json, write_json};
use antigravity_proxy::json::Json;
use antigravity_proxy::usage::{extract_usage_metadata, PromptTokensDetails};

#[test]
fn text_is_read_and_written() {
    let text = "{\"b\":[1,-2,0.5,true,null,\"x\\ny\"],\"a\":{}}";
    let j = parse_json(text).unwrap();
    assert_eq!(write_json(&j), "{\"a\":{},\"b\":[1,-2,0.5,true,null,\"x\\ny\"]}");
    assert!(parse_json("{\"a\":").is_none());
    assert!(parse_json("").is_none());
}

#[test]
fn the_later_of_two_members_counts() {
    let j = Json::object().with("k", Json::Unsigned(1)).with("k", Json::Unsigned(2));
    assert_eq!(j.get("k").unwrap().as_u64(), Some(2));
    assert_eq!(write_json(&j), "{\"k\":2}");
    assert!(j.get("other").is_none());
    assert!(Json::Null.get("k").is_none());
}

#[test]
fn values_go_there_and_back() {
    let text = "{\"n\":18446744073709551615,\"m\":-9223372036854775808,\"t\":\"é\"}";
    let value: serde_json::Value = serde_json::from_str(text).unwrap();
    let j = json_of_value(value.clone());
    assert_eq!(value_of_json(&j), value);
    assert_eq!(value_of_json(&j.duplicate()), value);
    assert_eq!(j.get("n").unwrap().as_u64(), Some(u64::MAX));
    assert_eq!(j.get("m").unwrap().as_u64(), None);
    assert_eq!(j.text_at("t"), Some("é"));
}

#[test]
fn members_and_texts() {
    assert!(!Json::object().has_members());
    assert!(!Json::Null.has_members());
    assert!(Json::object().with("a", Json::Null).has_members());
    let texts = vec!["a".to_string(), "b".to_string()];
    assert_eq!(write_json(&Json::texts(&texts)), "[\"a\",\"b\"]");
    assert_eq!(write_json(&Json::array_of(Json::Bool(false))), "[false]");
    assert_eq!(Json::Signed(-1).as_u64(), None);
    assert_eq!(Json::Signed(7).as_u64(), Some(7));
    assert_eq!(Json::Bool(true).as_bool(), Some(true));
}

#[test]
fn usage_counts_are_converted() {
    let text = "{\"promptTokenCount\":10,\"candidatesTokenCount\":5,\"totalTokenCount\":15,\
        \"cachedContentTokenCount\":3}";
    let usage = extract_usage_metadata(&parse_json(text).unwrap()).unwrap();
    assert_eq!(usage.prompt_tokens, 10);
    assert_eq!(usage.completion_tokens, 5);
    assert_eq!(usage.total_tokens, 15);
    assert_eq!(usage.prompt_tokens_details, Some(PromptTokensDetails { cached_tokens: Some(3) }));
    assert_eq!(usage.completion_tokens_details, None);
}

#[test]
fn counts_that_are_missing_or_odd() {
    let text = "{\"promptTokenCount\":4294967301,\"candidatesTokenCount\":-5,\
        \"totalTokenCount\":1.5,\"cachedContentTokenCount\":\"3\"}";
    let usage = extract_usage_metadata(&parse_json(text).unwrap()).unwrap();
    assert_eq!(usage.prompt_tokens, 5);
    assert_eq!(usage.completion_tokens, 0);
    assert_eq!(usage.total_tokens, 0);
    assert_eq!(usage.prompt_tokens_details, None);
    let none = extract_usage_metadata(&Json::Null).unwrap();
    assert_eq!(none.total_tokens, 0);
}

#[test]
fn a_replaced_member_keeps_the_others() {
    let j = Json::object()
        .with("a", Json::Unsigned(1))
        .with("b", Json::Unsigned(2))
        .with("a", Json::Unsigned(3))
        .with("c", Json::Unsigned(4))
        .with("a", Json::Unsigned(5));
    assert_eq!(write_json(&j), "{\"a\":5,\"b\":2,\"c\":4}");
}
