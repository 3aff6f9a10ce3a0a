use antigravity_proxy::codec::write_json;
use antigravity_proxy::reader::{line_chunk, line_payload, ChunkReader};

fn texts(chunks: Vec<antigravity_proxy::json::Json>) -> Vec<String> {
    chunks.iter().map(write_json).collect()
}

#[test]
fn payload_of_a_line() {
    assert_eq!(line_payload(b"data: {}\n"), Some("{}"));
    assert_eq!(line_payload(b"  data: data:   x \r\n"), Some("x"));
    assert_eq!(line_payload(b"data: [DONE]\n"), None);
    assert_eq!(line_payload(b"\n"), None);
    assert_eq!(line_payload(b": ping\n"), None);
    assert_eq!(line_payload(b"data:{}\n"), None);
    assert_eq!(line_payload(b"data: \xff\n"), None);
}

#[test]
fn the_wrapper_is_taken_off() {
    let chunk = line_chunk(b"data: {\"response\":{\"a\":1},\"b\":2}\n").unwrap();
    assert_eq!(write_json(&chunk), "{\"a\":1}");
    let chunk = line_chunk(b"data: {\"b\":2}\n").unwrap();
    assert_eq!(write_json(&chunk), "{\"b\":2}");
    assert!(line_chunk(b"data: {\n").is_none());
}

#[test]
fn where_the_bytes_are_cut_makes_no_difference() {
    let data = "data: {\"a\":\"é\"}\n\ndata: x\ndata: {\"b\":2}\ndata: {\"c\":3}".as_bytes();
    let whole = texts(ChunkReader::new().push(data));
    assert_eq!(whole, vec!["{\"a\":\"é\"}", "{\"b\":2}"]);
    for cut in 0..=data.len() {
        let mut reader = ChunkReader::new();
        let mut out = texts(reader.push(&data[..cut]));
        out.extend(texts(reader.push(&data[cut..])));
        assert_eq!(out, whole);
        assert_eq!(texts(reader.push(b"\n")), vec!["{\"c\":3}"]);
    }
}

#[test]
fn a_line_may_come_byte_by_byte() {
    let mut reader = ChunkReader::new();
    let mut out = Vec::new();
    for b in b"data: [1]\ndata: [2]\n" {
        out.extend(texts(reader.push(&[*b])));
    }
    assert_eq!(out, vec!["[1]", "[2]"]);
}
