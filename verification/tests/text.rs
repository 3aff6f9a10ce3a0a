use antigravity_proxy::ids::{chat_stream_id, id_of_places, new_random_id};
use antigravity_proxy::text::{
    contains_char, contains_text, decimal, hexadecimal, is_white_space, join, next_word, prefixed,
    read_first_line, starts_with, straighten, strip_prefixes, text_eq, trim,
};
use antigravity_proxy::tool_calls::{call_id, ToolCalls};
use std::hash::{Hash, Hasher};

#[test]
fn numbers_are_written_out() {
    assert_eq!(decimal(0), "0");
    assert_eq!(decimal(u64::MAX), u64::MAX.to_string());
    assert_eq!(hexadecimal(0), "0");
    assert_eq!(hexadecimal(0xdeadbeef), "deadbeef");
}

#[test]
fn white_space_is_as_in_std() {
    for c in '\0'..='\u{3100}' {
        assert_eq!(is_white_space(c), c.is_whitespace());
    }
    for s in ["", "  ", "\u{a0} a b\t\r\n", "a", "\u{3000}x\u{3000}"] {
        assert_eq!(trim(s), s.trim());
    }
}

#[test]
fn prefixes_and_parts() {
    assert!(text_eq("aé", "aé"));
    assert!(!text_eq("a", "b"));
    assert!(!text_eq("a", "ab"));
    assert!(starts_with("data: x", "data: "));
    assert!(!starts_with("data", "data: "));
    assert_eq!(strip_prefixes("data: data: x", "data: "), "x");
    assert_eq!(prefixed("a", "b"), "ab");
    assert!(contains_char("a b", ' '));
    assert!(!contains_char("ab", ' '));
    assert!(contains_text("xaby", "ab"));
    assert!(contains_text("ab", ""));
    assert!(!contains_text("a", "ab"));
    assert_eq!(join(&vec!["a".to_string(), "b".to_string()], ", "), "a, b");
    assert_eq!(join(&vec![], ", "), "");
}

#[test]
fn quotation_marks_are_straightened() {
    assert_eq!(straighten("“a” ‘b’"), "\"a\" ‘b’");
}

#[test]
fn lines_and_words() {
    assert_eq!(read_first_line("a b\r\nc"), "a b\r");
    assert_eq!(read_first_line("a"), "a");
    assert_eq!(read_first_line("\nx"), "");
    assert_eq!(next_word("  GET /x HTTP"), Some(("GET", " /x HTTP")));
    assert_eq!(next_word(" \t"), None);
}

#[test]
fn random_ids_have_their_form() {
    let id = chat_stream_id();
    assert!(id.starts_with("chatcmpl-"));
    let uuid = &id[9..];
    assert_eq!(uuid.len(), 36);
    assert_eq!(uuid::Uuid::parse_str(uuid).unwrap().get_version_num(), 4);
    assert_ne!(id, chat_stream_id());
    let legacy = new_random_id("cmpl-", 28);
    assert_eq!(legacy.len(), 33);
    assert!(legacy[5..].chars().all(|c| c.is_ascii_alphanumeric()));
    assert_ne!(legacy, new_random_id("cmpl-", 28));
    assert_eq!(id_of_places("x-", &vec![0, 25, 26, 51, 52, 61]), "x-azAZ09");
}

#[test]
fn call_ids_depend_on_the_content() {
    let mut hasher = std::collections::hash_map::DefaultHasher::new();
    "name".to_string().hash(&mut hasher);
    "{}".to_string().hash(&mut hasher);
    let expected = format!("call_{:x}", hasher.finish());
    assert_eq!(call_id(&["name", "{}"]), expected);
    assert_ne!(call_id(&["name{}"]), expected);
}

#[test]
fn calls_are_listed_once() {
    let mut calls = ToolCalls::new();
    assert_eq!(calls.enlist("a"), Some(0));
    assert_eq!(calls.enlist("b"), Some(1));
    assert_eq!(calls.enlist("a"), None);
    assert_eq!(calls.enlist("c"), Some(2));
}
