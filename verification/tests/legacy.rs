use antigravity_proxy::events::{frame_text, StreamEvent, StreamFailure, Upstream};
use antigravity_proxy::json::Json;
use antigravity_proxy::legacy::{create_legacy_sse_stream, LegacyStream};
use serde_json::Value;

fn sent(events: Vec<StreamEvent>) -> Vec<String> {
    let mut out = Vec::new();
    for event in &events {
        let usage = match event {
            StreamEvent::Data { usage: Some(u), .. } => {
                Some(Json::object().with("total_tokens", Json::Unsigned(u.total_tokens as u64)))
            }
            _ => None,
        };
        if let Some(frame) = frame_text(event, usage) {
            out.push(frame);
        }
    }
    out
}

fn body(frame: &str) -> Value {
    let json = frame.strip_prefix("data: ").unwrap().strip_suffix("\n\n").unwrap();
    serde_json::from_str(json).unwrap()
}

fn stream() -> LegacyStream {
    LegacyStream::new("cmpl-1".to_string(), 1700000000, "gemini".to_string())
}

fn feed(stream: &mut LegacyStream, json: &str) -> Vec<String> {
    sent(stream.step(Upstream::Bytes(format!("data: {}\n", json).into_bytes())))
}

#[test]
fn legacy_text_is_passed_on() {
    let out = feed(
        &mut stream(),
        "{\"candidates\":[{\"content\":{\"parts\":[{\"text\":\"a\"},{\"text\":\"b\"}]}},\
         {\"content\":{\"parts\":[{\"text\":\"ignored\"}]}}]}",
    );
    assert_eq!(out.len(), 1);
    let expected: Value = serde_json::from_str(
        "{\"id\":\"cmpl-1\",\"object\":\"text_completion\",\"created\":1700000000,\
         \"model\":\"gemini\",\"choices\":[{\"text\":\"ab\",\"index\":0,\"logprobs\":null,\
         \"finish_reason\":null}]}",
    )
    .unwrap();
    assert_eq!(body(&out[0]), expected);
}

#[test]
fn legacy_sends_a_chunk_even_without_text() {
    let out = feed(&mut stream(), "{}");
    assert_eq!(out.len(), 1);
    assert_eq!(body(&out[0])["choices"][0]["text"], "");
}

#[test]
fn legacy_finish_reasons_are_renamed() {
    let reasons = [
        ("STOP", "stop"),
        ("MAX_TOKENS", "length"),
        ("SAFETY", "content_filter"),
        ("RECITATION", "RECITATION"),
    ];
    for (reason, expected) in reasons {
        let json = format!("{{\"candidates\":[{{\"finishReason\":\"{}\"}}]}}", reason);
        let out = feed(&mut stream(), &json);
        assert_eq!(body(&out[0])["choices"][0]["finish_reason"], expected);
    }
}

#[test]
fn legacy_usage_is_used_up_at_the_end() {
    let mut s = stream();
    let out = feed(&mut s, "{\"usageMetadata\":{\"totalTokenCount\":9}}");
    assert_eq!(body(&out[0])["usage"]["total_tokens"], 9);
    let out = feed(&mut s, "{\"candidates\":[{\"finishReason\":\"STOP\"}]}");
    assert_eq!(body(&out[0])["usage"]["total_tokens"], 9);
    let out = feed(&mut s, "{}");
    assert!(body(&out[0]).get("usage").is_none());
}

#[test]
fn legacy_signatures_are_handed_out() {
    let line = "data: {\"candidates\":[{\"content\":{\"parts\":[{\"thoughtSignature\":\"s\"}]}}]}\n";
    let events = stream().step(Upstream::Bytes(line.as_bytes().to_vec()));
    assert_eq!(events.len(), 2);
    assert!(matches!(&events[0], StreamEvent::Signature(s) if s == "s"));
}

#[test]
fn legacy_ends_with_one_mark() {
    let mut s = stream();
    assert_eq!(sent(s.step(Upstream::Tick)), vec![": ping\n\n"]);
    assert_eq!(sent(s.step(Upstream::Ended)), vec!["data: [DONE]\n\n"]);
    assert!(s.is_closed());
    assert!(s.step(Upstream::Ended).is_empty());
    let mut s = stream();
    let out = sent(s.step(Upstream::Failed(StreamFailure {
        error_type: "t".to_string(),
        message: "m".to_string(),
        i18n_key: "k".to_string(),
    })));
    assert_eq!(out.len(), 2);
    let told = body(&out[0]);
    assert_eq!(told["object"], "text_completion");
    assert_eq!(told["error"]["code"], "stream_error");
    assert_eq!(told["error"]["type"], "t");
    assert_eq!(told["error"]["message"], "m");
    assert_eq!(told["error"]["i18n_key"], "k");
    assert_eq!(out[1], "data: [DONE]\n\n");
    assert!(s.step(Upstream::Ended).is_empty());
}

#[test]
fn legacy_ignores_cuts() {
    let data = b"data: {\"candidates\":[]}\ndata: {}\n";
    let whole = sent(stream().step(Upstream::Bytes(data.to_vec())));
    assert_eq!(whole.len(), 2);
    for cut in 0..data.len() {
        let mut s = stream();
        let mut out = sent(s.step(Upstream::Bytes(data[..cut].to_vec())));
        out.extend(sent(s.step(Upstream::Bytes(data[cut..].to_vec()))));
        assert_eq!(out, whole);
    }
}

#[test]
fn legacy_streams_begin_with_a_new_id() {
    let mut s = create_legacy_sse_stream("m".to_string());
    let out = feed(&mut s, "{}");
    let id = body(&out[0])["id"].as_str().unwrap().to_string();
    assert!(id.starts_with("cmpl-"));
    assert_eq!(id.len(), 33);
}
