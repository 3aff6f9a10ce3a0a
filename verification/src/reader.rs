//! The reading side of a server-sent event stream: bytes come in pieces of any
//! size, complete lines go out as the JSON that they carry.
use vstd::prelude::*;
use vstd::utf8::{decode_utf8, valid_utf8};

use crate::codec::{json_parsed, parse_json};
use crate::json::{items_view, Json, JsonView};
use crate::text::{
    has_prefix, starts_with, strip_prefixes, text_eq, trim, trimmed, utf8_text, without_prefixes,
};

verus! {

/// A buffer of the crate `bytes`.
#[verifier::external_type_specification]
#[verifier::external_body]
pub struct ExBytesMut(bytes::BytesMut);

/// The bytes that a buffer holds.
pub uninterp spec fn buffered(buffer: bytes::BytesMut) -> Seq<u8>;

/// `BytesMut::new` of the crate `bytes` gives a buffer that holds nothing.
pub assume_specification[ bytes::BytesMut::new ]() -> (r: bytes::BytesMut)
    ensures
        buffered(r) == Seq::<u8>::empty(),
;

/// `BytesMut::extend_from_slice` of the crate `bytes` puts the bytes behind those
/// that the buffer holds. What happens when memory runs out is left unsaid, as it
/// is for a `Vec`.
pub assume_specification[ bytes::BytesMut::extend_from_slice ](
    buffer: &mut bytes::BytesMut,
    extend: &[u8],
)
    ensures
        buffered(*final(buffer)) == buffered(*old(buffer)) + extend@,
;

/// `BytesMut::split_to` of the crate `bytes` takes that many bytes off the front.
/// With fewer in the buffer it would panic.
pub assume_specification[ bytes::BytesMut::split_to ](
    buffer: &mut bytes::BytesMut,
    at: usize,
) -> (r: bytes::BytesMut)
    requires
        at <= buffered(*old(buffer)).len(),
    ensures
        buffered(r) == buffered(*old(buffer)).take(at as int),
        buffered(*final(buffer)) == buffered(*old(buffer)).skip(at as int),
;

/// `as_ref` of the crate `bytes` for a buffer: the bytes that it holds.
#[verifier::external_body]
fn buffer_bytes(buffer: &bytes::BytesMut) -> (r: &[u8])
    ensures
        r@ == buffered(*buffer),
{
    buffer.as_ref()
}

/// The byte that ends a line.
pub const NEWLINE: u8 = 10;

/// The complete lines in the data, each with the newline that ends it.
pub open spec fn lines_of(data: Seq<u8>) -> Seq<Seq<u8>>
    decreases data.len(),
{
    if data.len() == 0 {
        Seq::empty()
    } else if data.last() == NEWLINE {
        lines_of(data.drop_last()).push(rest_of(data.drop_last()).push(NEWLINE))
    } else {
        lines_of(data.drop_last())
    }
}

/// What stands behind the last newline in the data.
pub open spec fn rest_of(data: Seq<u8>) -> Seq<u8>
    decreases data.len(),
{
    if data.len() == 0 || data.last() == NEWLINE {
        Seq::empty()
    } else {
        rest_of(data.drop_last()).push(data.last())
    }
}

/// What a line says behind its `data: `, if it says anything. A line that is no
/// valid UTF-8, one without that prefix and the mark of the end say nothing.
pub open spec fn payload_of(line: Seq<u8>) -> Option<Seq<char>> {
    if !valid_utf8(line) {
        None
    } else {
        let text = trimmed(decode_utf8(line));
        let payload = trimmed(without_prefixes(text, "data: "@));
        if !has_prefix(text, "data: "@) || payload == "[DONE]"@ {
            None
        } else {
            Some(payload)
        }
    }
}

/// The chunk proper: the member `response`, where there is one.
pub open spec fn unwrapped(v: JsonView) -> JsonView {
    match v.get("response"@) {
        Some(inner) => inner,
        None => v,
    }
}

/// The chunk that a line carries, if it carries one.
pub open spec fn chunk_of(line: Seq<u8>) -> Option<JsonView> {
    match payload_of(line) {
        Some(payload) => match json_parsed(payload) {
            Some(v) => Some(unwrapped(v)),
            None => None,
        },
        None => None,
    }
}

/// The chunks that the lines carry, in order.
pub open spec fn chunks_of(lines: Seq<Seq<u8>>) -> Seq<JsonView>
    decreases lines.len(),
{
    if lines.len() == 0 {
        Seq::empty()
    } else {
        match chunk_of(lines.last()) {
            Some(v) => chunks_of(lines.drop_last()).push(v),
            None => chunks_of(lines.drop_last()),
        }
    }
}

/// What a line says behind its `data: `, if it says anything.
pub fn line_payload(line: &[u8]) -> (r: Option<&str>)
    ensures
        match r {
            Some(s) => payload_of(line@) == Some(s@),
            None => payload_of(line@) is None,
        },
{
    match utf8_text(line) {
        Some(text) => {
            let text = trim(text);
            if !starts_with(text, "data: ") {
                return None;
            }
            proof {
                reveal_strlit("data: ");
            }
            let payload = trim(strip_prefixes(text, "data: "));
            if text_eq(payload, "[DONE]") {
                None
            } else {
                Some(payload)
            }
        },
        None => None,
    }
}

/// The chunk proper: the member `response`, where there is one.
pub fn unwrap_response(v: Json) -> (r: Json)
    ensures
        r@ == unwrapped(v@),
{
    match v.get("response") {
        Some(inner) => inner.duplicate(),
        None => v,
    }
}

/// The chunk that a line carries, if it carries one.
pub fn line_chunk(line: &[u8]) -> (r: Option<Json>)
    ensures
        match r {
            Some(j) => chunk_of(line@) == Some(j@),
            None => chunk_of(line@) is None,
        },
{
    match line_payload(line) {
        Some(payload) => match parse_json(payload) {
            Some(v) => Some(unwrap_response(v)),
            None => None,
        },
        None => None,
    }
}

/// Collects bytes until a line is complete.
pub struct ChunkReader {
    buffer: bytes::BytesMut,
}

impl View for ChunkReader {
    type V = Seq<u8>;

    closed spec fn view(&self) -> Seq<u8> {
        buffered(self.buffer)
    }
}

/// Whether the bytes are the start of one line that is not complete.
pub open spec fn partial_line(data: Seq<u8>) -> bool {
    forall|i: int| 0 <= i < data.len() ==> #[trigger] data[i] != NEWLINE
}

proof fn lemma_partial_line(data: Seq<u8>)
    requires
        partial_line(data),
    ensures
        lines_of(data) == Seq::<Seq<u8>>::empty(),
        rest_of(data) == data,
    decreases data.len(),
{
    if data.len() > 0 {
        let front = data.drop_last();
        assert(partial_line(front)) by {
            assert forall|i: int| 0 <= i < front.len() implies #[trigger] front[i] != NEWLINE by {
                assert(data[i] != NEWLINE);
            }
        }
        lemma_partial_line(front);
        assert(front.push(data.last()) =~= data);
    } else {
        assert(data =~= Seq::empty());
    }
}

/// What stands behind the last newline is the start of one line.
pub proof fn lemma_rest_is_partial(data: Seq<u8>)
    ensures
        partial_line(rest_of(data)),
    decreases data.len(),
{
    if data.len() > 0 {
        lemma_rest_is_partial(data.drop_last());
    }
}

/// Where the bytes are cut makes no difference: the lines of two pieces, the
/// rest of the first carried over to the second, are the lines of the whole.
pub proof fn law_pieces_make_whole(first: Seq<u8>, second: Seq<u8>)
    ensures
        lines_of(first + second) == lines_of(first) + lines_of(rest_of(first) + second),
        rest_of(first + second) == rest_of(rest_of(first) + second),
    decreases second.len(),
{
    if second.len() == 0 {
        assert(first + second =~= first);
        assert(rest_of(first) + second =~= rest_of(first));
        lemma_rest_is_partial(first);
        lemma_partial_line(rest_of(first));
        assert(lines_of(first) + Seq::<Seq<u8>>::empty() =~= lines_of(first));
    } else {
        let front = second.drop_last();
        law_pieces_make_whole(first, front);
        assert((first + second).drop_last() =~= first + front);
        assert((rest_of(first) + second).drop_last() =~= rest_of(first) + front);
        assert(lines_of(first + second) =~= lines_of(first) + lines_of(rest_of(first) + second));
    }
}

/// The chunks of some lines and those of more lines behind them.
pub proof fn lemma_chunks_of_more(lines: Seq<Seq<u8>>, more: Seq<Seq<u8>>)
    ensures
        chunks_of(lines + more) == chunks_of(lines) + chunks_of(more),
    decreases more.len(),
{
    if more.len() == 0 {
        assert(lines + more =~= lines);
        assert(chunks_of(lines) + chunks_of(more) =~= chunks_of(lines));
    } else {
        lemma_chunks_of_more(lines, more.drop_last());
        assert((lines + more).drop_last() =~= lines + more.drop_last());
        assert(chunks_of(lines + more) =~= chunks_of(lines) + chunks_of(more));
    }
}

/// The place of the first newline in the data.
fn find_newline(data: &[u8]) -> (r: Option<usize>)
    ensures
        match r {
            Some(pos) => {
                &&& pos < data@.len() <= usize::MAX
                &&& data@[pos as int] == NEWLINE
                &&& partial_line(data@.take(pos as int))
            },
            None => partial_line(data@),
        },
{
    let mut i: usize = 0;
    while i < data.len()
        invariant
            i <= data@.len(),
            partial_line(data@.take(i as int)),
        decreases data.len() - i,
    {
        if data[i] == NEWLINE {
            return Some(i);
        }
        assert(data@.take(i + 1) =~= data@.take(i as int).push(data@[i as int]));
        i = i + 1;
    }
    assert(data@.take(i as int) =~= data@);
    None
}

impl ChunkReader {
    #[verifier::type_invariant]
    spec fn inv(self) -> bool {
        partial_line(buffered(self.buffer))
    }

    /// A reader that has read nothing.
    pub fn new() -> (r: ChunkReader)
        ensures
            r@ == Seq::<u8>::empty(),
    {
        ChunkReader { buffer: bytes::BytesMut::new() }
    }

    /// Takes in bytes and gives out the chunks of the lines that they complete.
    pub fn push(&mut self, bytes: &[u8]) -> (r: Vec<Json>)
        ensures
            items_view(r@) == chunks_of(lines_of(old(self)@ + bytes@)),
            final(self)@ == rest_of(old(self)@ + bytes@),
    {
        let ghost whole = self@ + bytes@;
        let mut buffer = bytes::BytesMut::new();
        std::mem::swap(&mut buffer, &mut self.buffer);
        buffer.extend_from_slice(bytes);
        let mut chunks: Vec<Json> = Vec::new();
        let ghost mut lines: Seq<Seq<u8>> = Seq::empty();
        assert(lines + lines_of(whole) =~= lines_of(whole));
        loop
            invariant
                lines_of(whole) == lines + lines_of(buffered(buffer)),
                rest_of(whole) == rest_of(buffered(buffer)),
                items_view(chunks@) == chunks_of(lines),
            ensures
                partial_line(buffered(buffer)),
            decreases buffered(buffer).len(),
        {
            let pos = match find_newline(buffer_bytes(&buffer)) {
                Some(pos) => pos,
                None => {
                    break;
                },
            };
            let ghost held = buffered(buffer);
            let line = buffer.split_to(pos + 1);
            proof {
                let front = held.take(pos as int);
                assert(buffered(line) =~= front.push(NEWLINE));
                assert(held =~= buffered(line) + buffered(buffer));
                lemma_partial_line(front);
                assert(buffered(line).drop_last() =~= front);
                law_pieces_make_whole(buffered(line), buffered(buffer));
                assert(Seq::<u8>::empty() + buffered(buffer) =~= buffered(buffer));
                assert(lines_of(buffered(line)) =~= seq![buffered(line)]);
                let more = lines.push(buffered(line));
                assert(lines + lines_of(held) =~= more + lines_of(buffered(buffer)));
                assert(more.drop_last() =~= lines);
                lines = more;
            }
            match line_chunk(buffer_bytes(&line)) {
                Some(chunk) => {
                    let ghost before = chunks@;
                    chunks.push(chunk);
                    assert(chunks@.drop_last() =~= before);
                },
                None => {},
            }
        }
        proof {
            lemma_partial_line(buffered(buffer));
            assert(lines + Seq::<Seq<u8>>::empty() =~= lines);
        }
        self.buffer = buffer;
        chunks
    }
}

} // verus!
