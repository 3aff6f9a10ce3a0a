use antigravity_proxy::codec::{parse_json, write_json};
use antigravity_proxy::codex::{
    create_codex_sse_stream, item_of_call, read_shell_command, CodexStream,
};
use antigravity_proxy::events::{frame_text, StreamEvent, StreamFailure, Upstream};
use serde_json::Value;
use std::hash::{Hash, Hasher};

fn sent(events: Vec<StreamEvent>) -> Vec<String> {
    events.iter().filter_map(|e| frame_text(e, None)).collect()
}

fn body(frame: &str) -> Value {
    let json = frame.strip_prefix("data: ").unwrap().strip_suffix("\n\n").unwrap();
    serde_json::from_str(json).unwrap()
}

fn stream() -> CodexStream {
    CodexStream::new("resp-1".to_string())
}

fn feed(stream: &mut CodexStream, json: &str) -> Vec<String> {
    sent(stream.step(Upstream::Bytes(format!("data: {}\n", json).into_bytes())))
}

fn value(json: &str) -> Value {
    serde_json::from_str(json).unwrap()
}

#[test]
fn codex_begins_with_an_event() {
    let s = stream();
    let opening = frame_text(&s.opening(), None).unwrap();
    assert_eq!(
        body(&opening),
        value(
            "{\"type\":\"response.created\",\"response\":{\"id\":\"resp-1\",\
             \"object\":\"response\"}}"
        )
    );
    let s = create_codex_sse_stream("m".to_string());
    let opening = body(&frame_text(&s.opening(), None).unwrap());
    let id = opening["response"]["id"].as_str().unwrap();
    assert!(id.starts_with("resp-"));
    assert_eq!(id.len(), 29);
}

#[test]
fn codex_passes_text_on_and_repeats_it_at_the_end() {
    let mut s = stream();
    let out = feed(
        &mut s,
        "{\"usageMetadata\":{\"promptTokenCount\":1,\"candidatesTokenCount\":2,\
         \"totalTokenCount\":3},\
         \"candidates\":[{\"content\":{\"parts\":[{\"text\":\"“a”\"},{\"text\":\"b\"}]}}]}",
    );
    assert_eq!(out.len(), 1);
    assert_eq!(
        body(&out[0]),
        value("{\"type\":\"response.output_text.delta\",\"delta\":\"\\\"a\\\"b\"}")
    );
    let out = feed(
        &mut s,
        "{\"candidates\":[{\"content\":{\"parts\":[{\"text\":\"c\"}]},\
         \"finishReason\":\"MAX_TOKENS\"}]}",
    );
    assert_eq!(out.len(), 1);
    let end = sent(s.step(Upstream::Ended));
    assert_eq!(end.len(), 2);
    assert_eq!(
        body(&end[0]),
        value(
            "{\"type\":\"response.output_item.done\",\"item\":{\"type\":\"message\",\
             \"role\":\"assistant\",\"content\":[{\"type\":\"output_text\",\
             \"text\":\"\\\"a\\\"bc\"}]}}"
        )
    );
    assert_eq!(
        body(&end[1]),
        value(
            "{\"type\":\"response.completed\",\"response\":{\"id\":\"resp-1\",\
             \"object\":\"response\",\"status\":\"completed\",\"finish_reason\":\"length\",\
             \"usage\":{\"input_tokens\":1,\"input_tokens_details\":{\"cached_tokens\":0},\
             \"output_tokens\":2,\"output_tokens_details\":{\"reasoning_tokens\":0},\
             \"total_tokens\":3}}}"
        )
    );
    assert!(s.is_closed());
    assert!(s.step(Upstream::Ended).is_empty());
}

#[test]
fn codex_without_a_report_ends_with_zeros() {
    let end = sent(stream().step(Upstream::Ended));
    let response = &body(&end[1])["response"];
    assert_eq!(response["finish_reason"], "stop");
    assert_eq!(response["usage"]["total_tokens"], 0);
    assert_eq!(response["usage"]["input_tokens"], 0);
}

#[test]
fn codex_finish_reasons() {
    for (reason, expected) in [("STOP", "stop"), ("MAX_TOKENS", "length"), ("SAFETY", "stop")] {
        let mut s = stream();
        let json = format!("{{\"candidates\":[{{\"finishReason\":\"{}\"}}]}}", reason);
        assert!(feed(&mut s, &json).is_empty());
        let end = sent(s.step(Upstream::Ended));
        assert_eq!(body(&end[1])["response"]["finish_reason"], expected);
    }
}

#[test]
fn codex_calls_are_added_and_done_once() {
    let mut s = stream();
    let json = "{\"candidates\":[{\"content\":{\"parts\":[\
                {\"functionCall\":{\"name\":\"f\",\"args\":{\"x\":1}}},\
                {\"functionCall\":{\"name\":\"f\",\"args\":{\"x\":1}}},\
                {\"text\":\"t\",\"thoughtSignature\":\"sig\"}]}}]}";
    let out = feed(&mut s, json);
    assert_eq!(out.len(), 3);
    let added = body(&out[0]);
    let done = body(&out[1]);
    assert_eq!(added["type"], "response.output_item.added");
    assert_eq!(done["type"], "response.output_item.done");
    assert_eq!(added["item"], done["item"]);
    assert_eq!(body(&out[2])["delta"], "t");
    let again = feed(&mut s, json);
    assert_eq!(again.len(), 1);
    let mut hasher = std::collections::hash_map::DefaultHasher::new();
    "f".to_string().hash(&mut hasher);
    "{\"x\":1}".to_string().hash(&mut hasher);
    assert_eq!(added["item"]["type"], "function_call");
    assert_eq!(added["item"]["name"], "f");
    assert_eq!(added["item"]["arguments"], "{\"x\":1}");
    assert_eq!(added["item"]["call_id"], format!("call_{:x}", hasher.finish()));
}

#[test]
fn codex_shell_and_search_calls() {
    let call = parse_json("{\"name\":\"shell\",\"args\":{\"command\":[\"ls\",1,\"-l\"]}}").unwrap();
    let item = value(&write_json(&item_of_call(&call)));
    assert_eq!(item["type"], "local_shell_call");
    assert_eq!(item["status"], "in_progress");
    assert_eq!(item["action"], value("{\"type\":\"exec\",\"command\":[\"ls\",\"-l\"]}"));
    for name in ["googleSearch", "web_search", "google_search"] {
        let json = format!("{{\"name\":\"{}\",\"args\":{{\"query\":\"q\"}}}}", name);
        let item = value(&write_json(&item_of_call(&parse_json(&json).unwrap())));
        assert_eq!(item["type"], "web_search_call");
        assert_eq!(item["action"], value("{\"type\":\"search\",\"query\":\"q\"}"));
    }
    let item = value(&write_json(&item_of_call(&parse_json("{\"name\":\"local_shell\"}").unwrap())));
    assert_eq!(item["action"]["command"], value("[\"powershell.exe\",\"-Command\",\"exit 0\"]"));
    let item = value(&write_json(&item_of_call(&parse_json("{\"args\":null}").unwrap())));
    assert_eq!(item["name"], "unknown");
    assert_eq!(item["arguments"], "null");
}

#[test]
fn codex_shell_commands() {
    let nothing = ["powershell.exe", "-Command", "exit 0"];
    for json in ["{}", "null", "[]", "\"ls\"", "{\"command\":5}", "{\"other\":1}"] {
        assert_eq!(read_shell_command(&parse_json(json).unwrap()), nothing);
    }
    let one = parse_json("{\"command\":\"ls\"}").unwrap();
    assert_eq!(read_shell_command(&one), ["ls"]);
    let many = parse_json("{\"command\":\"ls -l\"}").unwrap();
    assert_eq!(read_shell_command(&many), ["powershell.exe", "-Command", "ls -l"]);
    let list = parse_json("{\"command\":[]}").unwrap();
    assert!(read_shell_command(&list).is_empty());
}

#[test]
fn codex_tells_of_a_failure_and_ends() {
    let mut s = stream();
    assert_eq!(sent(s.step(Upstream::Tick)), vec![": ping\n\n"]);
    let out = sent(s.step(Upstream::Failed(StreamFailure {
        error_type: "t".to_string(),
        message: "m".to_string(),
        i18n_key: "k".to_string(),
    })));
    assert_eq!(out.len(), 3);
    assert_eq!(
        body(&out[0]),
        value(
            "{\"type\":\"error\",\"error\":{\"type\":\"t\",\"message\":\"m\",\
             \"code\":\"stream_error\",\"i18n_key\":\"k\"}}"
        )
    );
    assert_eq!(body(&out[2])["type"], "response.completed");
    assert!(s.step(Upstream::Ended).is_empty());
}

#[test]
fn codex_ignores_cuts() {
    let data = "data: {\"candidates\":[{\"content\":{\"parts\":[{\"text\":\"é\"}]}}]}\n".as_bytes();
    let whole = sent(stream().step(Upstream::Bytes(data.to_vec())));
    assert_eq!(whole.len(), 1);
    for cut in 0..data.len() {
        let mut s = stream();
        let mut out = sent(s.step(Upstream::Bytes(data[..cut].to_vec())));
        out.extend(sent(s.step(Upstream::Bytes(data[cut..].to_vec()))));
        assert_eq!(out, whole);
    }
}

#[test]
fn codex_signatures_are_handed_out() {
    let line = "data: {\"candidates\":[{\"content\":{\"parts\":[{\"thoughtSignature\":\"a\"},\
                {\"functionCall\":{}},{\"thought_signature\":\"b\"}]}},\
                {\"content\":{\"parts\":[{\"thoughtSignature\":\"other\"}]}}]}\n";
    let events = stream().step(Upstream::Bytes(line.as_bytes().to_vec()));
    let mut found = Vec::new();
    for event in &events {
        if let StreamEvent::Signature(sig) = event {
            found.push(sig.as_str());
        }
    }
    assert_eq!(found, vec!["a", "b"]);
    assert_eq!(events.len(), 4);
}
