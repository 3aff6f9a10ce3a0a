use antigravity_proxy::chat::{create_openai_sse_stream, ChatStream};
use antigravity_proxy::codec::parse_json;
use antigravity_proxy::events::{frame_text, StreamEvent, StreamFailure, Upstream};
use antigravity_proxy::json::Json;
use antigravity_proxy::usage::OpenAIUsage;
use serde_json::Value;
use std::hash::{Hash, Hasher};

fn usage_json(usage: &OpenAIUsage) -> Json {
    Json::object()
        .with("prompt_tokens", Json::Unsigned(usage.prompt_tokens as u64))
        .with("completion_tokens", Json::Unsigned(usage.completion_tokens as u64))
        .with("total_tokens", Json::Unsigned(usage.total_tokens as u64))
}

fn sent(events: Vec<StreamEvent>) -> Vec<String> {
    let mut out = Vec::new();
    for event in &events {
        let usage = match event {
            StreamEvent::Data { usage, .. } => usage.as_ref().map(usage_json),
            _ => None,
        };
        if let Some(frame) = frame_text(event, usage) {
            out.push(frame);
        }
    }
    out
}

fn body(frame: &str) -> Value {
    let json = frame.strip_prefix("data: ").unwrap().strip_suffix("\n\n").unwrap();
    serde_json::from_str(json).unwrap()
}

fn stream() -> ChatStream {
    ChatStream::new("chatcmpl-1".to_string(), 1700000000, "gemini".to_string())
}

fn feed(stream: &mut ChatStream, json: &str) -> Vec<String> {
    sent(stream.step(Upstream::Bytes(format!("data: {}\n", json).into_bytes())))
}

fn expect(frame: &str, json: &str) {
    let expected: Value = serde_json::from_str(json).unwrap();
    assert_eq!(body(frame), expected);
}

#[test]
fn chat_text_is_passed_on() {
    let mut s = stream();
    let out = feed(
        &mut s,
        "{\"candidates\":[{\"content\":{\"parts\":[{\"text\":\"Hel\"},{\"text\":\"lo\"}]}}]}",
    );
    assert_eq!(out.len(), 1);
    expect(
        &out[0],
        "{\"id\":\"chatcmpl-1\",\"object\":\"chat.completion.chunk\",\"created\":1700000000,\
         \"model\":\"gemini\",\"choices\":[{\"index\":0,\"delta\":{\"content\":\"Hello\"},\
         \"finish_reason\":null}]}",
    );
    assert!(out[0].ends_with("}\n\n"));
}

#[test]
fn chat_thoughts_go_first() {
    let mut s = stream();
    let out = feed(
        &mut s,
        "{\"response\":{\"candidates\":[{\"content\":{\"parts\":[\
         {\"text\":\"answer\"},{\"text\":\"hm\",\"thought\":true}]}}]}}",
    );
    assert_eq!(out.len(), 2);
    expect(
        &out[0],
        "{\"id\":\"chatcmpl-1\",\"object\":\"chat.completion.chunk\",\"created\":1700000000,\
         \"model\":\"gemini\",\"choices\":[{\"index\":0,\"delta\":{\"role\":\"assistant\",\
         \"content\":null,\"reasoning_content\":\"hm\"},\"finish_reason\":null}]}",
    );
    assert_eq!(body(&out[1])["choices"][0]["delta"]["content"], "answer");
}

#[test]
fn chat_tool_calls_have_their_own_index() {
    let mut s = stream();
    let out = feed(
        &mut s,
        "{\"candidates\":[{\"content\":{\"parts\":[\
         {\"functionCall\":{\"name\":\"Read\",\"args\":{\"path\":\"a\"}}},\
         {\"functionCall\":{\"name\":\"Read\",\"args\":{\"path\":\"b\"}}},\
         {\"functionCall\":{\"name\":\"Read\",\"args\":{\"path\":\"a\"}}}]}}]}",
    );
    assert_eq!(out.len(), 2);
    let again = feed(
        &mut s,
        "{\"candidates\":[{\"content\":{\"parts\":[\
         {\"functionCall\":{\"name\":\"Read\",\"args\":{\"path\":\"b\"}}},\
         {\"functionCall\":{\"args\":\"{\\\"x\\\":1}\"}},\
         {\"functionCall\":{\"name\":\"Stop\",\"args\":null}}]}}]}",
    );
    assert_eq!(again.len(), 2);
    let key = "{\"args\":{\"path\":\"a\"},\"name\":\"Read\"}";
    let mut hasher = std::collections::hash_map::DefaultHasher::new();
    key.to_string().hash(&mut hasher);
    let call = &body(&out[0])["choices"][0]["delta"];
    assert_eq!(call["role"], "assistant");
    assert_eq!(call["tool_calls"][0]["index"], 0);
    assert_eq!(call["tool_calls"][0]["id"], format!("call_{:x}", hasher.finish()));
    assert_eq!(call["tool_calls"][0]["type"], "function");
    assert_eq!(call["tool_calls"][0]["function"]["name"], "Read");
    assert_eq!(call["tool_calls"][0]["function"]["arguments"], "{\"path\":\"a\"}");
    assert_eq!(body(&out[1])["choices"][0]["delta"]["tool_calls"][0]["index"], 1);
    let third = &body(&again[0])["choices"][0]["delta"]["tool_calls"][0];
    assert_eq!(third["index"], 2);
    assert_eq!(third["function"]["name"], "unknown");
    assert_eq!(third["function"]["arguments"], "{\"x\":1}");
    let fourth = &body(&again[1])["choices"][0]["delta"]["tool_calls"][0];
    assert_eq!(fourth["index"], 3);
    assert_eq!(fourth["function"]["arguments"], "{}");
}

#[test]
fn chat_usage_goes_with_the_end_once() {
    let mut s = stream();
    let usage = "\"usageMetadata\":{\"promptTokenCount\":1,\"candidatesTokenCount\":2,\
                 \"totalTokenCount\":3}";
    let out = feed(
        &mut s,
        &format!(
            "{{{},\"candidates\":[{{\"content\":{{\"parts\":[{{\"text\":\"a\"}}]}},\
             \"finishReason\":\"STOP\"}}]}}",
            usage
        ),
    );
    assert_eq!(out.len(), 1);
    assert_eq!(body(&out[0])["usage"]["total_tokens"], 3);
    assert_eq!(body(&out[0])["choices"][0]["finish_reason"], "stop");
    let out = feed(&mut s, "{\"candidates\":[{\"content\":{\"parts\":[{\"text\":\"b\"}]}}]}");
    assert!(body(&out[0]).get("usage").is_none());
}

#[test]
fn chat_finish_reasons_are_renamed() {
    let reasons = [
        ("STOP", "stop"),
        ("MAX_TOKENS", "length"),
        ("SAFETY", "content_filter"),
        ("RECITATION", "content_filter"),
        ("OTHER", "OTHER"),
    ];
    for (reason, expected) in reasons {
        let mut s = stream();
        let out = feed(&mut s, &format!("{{\"candidates\":[{{\"finishReason\":\"{}\"}}]}}", reason));
        assert_eq!(out.len(), 1);
        let choice = &body(&out[0])["choices"][0];
        assert_eq!(choice["finish_reason"], expected);
        assert_eq!(choice["delta"]["content"], "");
    }
    let out = feed(&mut stream(), "{\"candidates\":[{\"finishReason\":7}]}");
    assert!(out.is_empty());
}

#[test]
fn chat_images_and_sources_become_markdown() {
    let mut s = stream();
    let out = feed(
        &mut s,
        "{\"candidates\":[{},{\"content\":{\"parts\":[\
         {\"inlineData\":{\"data\":\"QUJD\"}},\
         {\"inlineData\":{\"mimeType\":\"image/jpeg\",\"data\":\"RA==\"}},\
         {\"inlineData\":{\"data\":\"\"}}]},\
         \"groundingMetadata\":{\"webSearchQueries\":[\"q1\",5,\"q2\"],\"groundingChunks\":[\
         {\"web\":{\"title\":\"T\",\"uri\":\"u\"}},{\"other\":1},{\"web\":{}}]}}]}",
    );
    assert_eq!(out.len(), 1);
    let choice = &body(&out[0])["choices"][0];
    assert_eq!(choice["index"], 1);
    assert_eq!(
        choice["delta"]["content"],
        "![image](data:image/png;base64,QUJD)![image](data:image/jpeg;base64,RA==)\
         \n\n---\n**🔍 已为您搜索：** q1, q2\
         \n\n**🌐 来源引文：**\n[1] [T](u)\n[3] [网页来源](#)"
    );
}

#[test]
fn chat_signatures_are_handed_out() {
    let mut s = stream();
    let line = "data: {\"candidates\":[{\"content\":{\"parts\":[\
                {\"thoughtSignature\":\"one\"},{\"thought_signature\":\"two\"},\
                {\"thoughtSignature\":3,\"thought_signature\":\"no\"}]}}]}\n";
    let events = s.step(Upstream::Bytes(line.as_bytes().to_vec()));
    let mut found = Vec::new();
    for event in &events {
        assert!(frame_text(event, None).is_none());
        if let StreamEvent::Signature(sig) = event {
            found.push(sig.as_str());
        }
    }
    assert_eq!(found, vec!["one", "two"]);
}

#[test]
fn chat_ends_with_one_mark() {
    let mut s = stream();
    assert_eq!(sent(s.step(Upstream::Tick)), vec![": ping\n\n"]);
    assert!(!s.is_closed());
    assert_eq!(sent(s.step(Upstream::Ended)), vec!["data: [DONE]\n\n"]);
    assert!(s.is_closed());
    assert!(s.step(Upstream::Ended).is_empty());
    assert!(s.step(Upstream::Tick).is_empty());
    assert!(feed(&mut s, "{\"candidates\":[{\"finishReason\":\"STOP\"}]}").is_empty());
}

#[test]
fn chat_tells_of_a_failure() {
    let mut s = stream();
    let out = sent(s.step(Upstream::Failed(StreamFailure {
        error_type: "timeout".to_string(),
        message: "Too slow".to_string(),
        i18n_key: "errors.timeout".to_string(),
    })));
    assert_eq!(out.len(), 2);
    expect(
        &out[0],
        "{\"id\":\"chatcmpl-1\",\"object\":\"chat.completion.chunk\",\"created\":1700000000,\
         \"model\":\"gemini\",\"choices\":[],\"error\":{\"type\":\"timeout\",\
         \"message\":\"Too slow\",\"code\":\"stream_error\",\"i18n_key\":\"errors.timeout\"}}",
    );
    assert_eq!(out[1], "data: [DONE]\n\n");
    assert!(s.step(Upstream::Ended).is_empty());
}

#[test]
fn chat_ignores_cuts() {
    let data = "data: {\"candidates\":[{\"content\":{\"parts\":[{\"text\":\"é\"}]}}]}\n\
                data: {\"candidates\":[{\"finishReason\":\"STOP\"}]}\n"
        .as_bytes();
    let whole = sent(stream().step(Upstream::Bytes(data.to_vec())));
    assert_eq!(whole.len(), 2);
    for cut in 0..data.len() {
        let mut s = stream();
        let mut out = sent(s.step(Upstream::Bytes(data[..cut].to_vec())));
        out.extend(sent(s.step(Upstream::Bytes(data[cut..].to_vec()))));
        assert_eq!(out, whole);
    }
}

#[test]
fn chat_chunks_can_be_taken_directly() {
    let mut s = stream();
    let chunk = parse_json("{\"candidates\":[{\"content\":{\"parts\":[{\"text\":\"x\"}]}}]}").unwrap();
    let mut out = Vec::new();
    s.take_chunk(&chunk, &mut out);
    assert_eq!(sent(out).len(), 1);
}

#[test]
fn chat_streams_begin_with_a_new_id() {
    let now = chrono::Utc::now().timestamp();
    let mut s = create_openai_sse_stream("m".to_string());
    let out = feed(&mut s, "{\"candidates\":[{\"finishReason\":\"STOP\"}]}");
    let chunk = body(&out[0]);
    assert!(chunk["id"].as_str().unwrap().starts_with("chatcmpl-"));
    let created = chunk["created"].as_i64().unwrap();
    assert!(now <= created && created <= now + 60);
    assert_eq!(chunk["model"], "m");
}

#[test]
fn chat_says_all_that_came_in() {
    let mut s = stream();
    let mut content = String::new();
    let mut thought = String::new();
    let chunks = [
        "{\"candidates\":[{\"content\":{\"parts\":[{\"text\":\"a\"},\
         {\"text\":\"x\",\"thought\":true},{\"functionCall\":{}}]}}]}",
        "{\"candidates\":[{\"content\":{\"parts\":[{\"text\":\"y\",\"thought\":true}]}}]}",
        "{\"candidates\":[{\"content\":{\"parts\":[{\"text\":\"b\"}]},\
         \"finishReason\":\"STOP\"}]}",
    ];
    for chunk in chunks {
        for frame in feed(&mut s, chunk) {
            let delta = body(&frame)["choices"][0]["delta"].clone();
            content.push_str(delta["content"].as_str().unwrap_or(""));
            thought.push_str(delta["reasoning_content"].as_str().unwrap_or(""));
        }
    }
    assert_eq!((content.as_str(), thought.as_str()), ("ab", "xy"));
}

#[test]
fn chat_choices_do_not_mix() {
    let mut s = stream();
    let mut texts = [String::new(), String::new()];
    let chunk = "{\"candidates\":[{\"content\":{\"parts\":[{\"text\":\"a\"}]}},\
                 {\"content\":{\"parts\":[{\"text\":\"b\"}]}}]}";
    for _ in 0..2 {
        for frame in feed(&mut s, chunk) {
            let choice = body(&frame)["choices"][0].clone();
            let index = choice["index"].as_u64().unwrap() as usize;
            texts[index].push_str(choice["delta"]["content"].as_str().unwrap());
        }
    }
    assert_eq!(texts, ["aa", "bb"]);
}

#[test]
fn a_usage_goes_along_only_with_its_event() {
    let event = StreamEvent::Data { body: Json::object(), usage: None };
    let frame = frame_text(&event, Some(Json::Unsigned(1))).unwrap();
    assert_eq!(frame, "data: {}\n\n");
}
