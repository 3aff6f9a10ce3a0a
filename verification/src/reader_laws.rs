//! What holds of the reading side of a stream.
use vstd::prelude::*;
use vstd::utf8::{decode_utf8, valid_utf8};

use crate::codec::json_parsed;
use crate::json::JsonView;
use crate::reader::{chunk_of, chunks_of, lines_of, payload_of, rest_of};
use crate::text::{white_space, without_prefixes};
use crate::text_laws::{blank, law_prefix, law_strip_prefixes, law_trim, solid};

verus! {

/// Nothing that comes in is lost: the lines and the rest, one behind the other, are
/// the data. Each line ends with the one line feed in it, and the rest has none.
pub proof fn law_lines_are_the_data(data: Seq<u8>)
    ensures
        lines_of(data).flatten() + rest_of(data) == data,
        forall|i: int|
            0 <= i < lines_of(data).len() ==> {
                let line = #[trigger] lines_of(data)[i];
                &&& line.len() > 0
                &&& line[line.len() - 1] == 10
                &&& forall|j: int| 0 <= j < line.len() - 1 ==> #[trigger] line[j] != 10
            },
        forall|j: int| 0 <= j < rest_of(data).len() ==> #[trigger] rest_of(data)[j] != 10,
    decreases data.len(),
{
    if data.len() == 0 {
        assert(lines_of(data).flatten() + rest_of(data) =~= data);
    } else {
        let front = data.drop_last();
        law_lines_are_the_data(front);
        if data.last() == 10 {
            let line = rest_of(front).push(10);
            lines_of(front).lemma_flatten_push(line);
            assert(lines_of(data) == lines_of(front).push(line));
            assert(lines_of(data).flatten() + rest_of(data) =~= (lines_of(front).flatten()
                + rest_of(front)).push(10));
            assert(data =~= front.push(10));
            assert forall|i: int| 0 <= i < lines_of(data).len() implies {
                let line = #[trigger] lines_of(data)[i];
                &&& line.len() > 0
                &&& line[line.len() - 1] == 10
                &&& forall|j: int| 0 <= j < line.len() - 1 ==> #[trigger] line[j] != 10
            } by {
                if i < lines_of(front).len() {
                    assert(lines_of(data)[i] == lines_of(front)[i]);
                } else {
                    assert forall|j: int| 0 <= j < line.len() - 1 implies #[trigger] line[j]
                        != 10 by {
                        assert(line[j] == rest_of(front)[j]);
                    }
                }
            }
        } else {
            assert(lines_of(data).flatten() + rest_of(data) =~= (lines_of(front).flatten()
                + rest_of(front)).push(data.last()));
            assert(data =~= front.push(data.last()));
        }
    }
}

/// A line that is `data: ` and a payload, with white space around each, says the
/// payload, unless it is the mark of the end. Where no white space stands before it,
/// the payload must not begin with `data: ` again.
pub proof fn law_payload(
    line: Seq<u8>,
    before: Seq<char>,
    gap: Seq<char>,
    payload: Seq<char>,
    after: Seq<char>,
)
    requires
        valid_utf8(line),
        blank(before),
        blank(gap),
        blank(after),
        solid(payload),
        decode_utf8(line) == before + ("data: "@ + gap + payload) + after,
        gap.len() > 0 || forall|rest: Seq<char>| payload != #[trigger] ("data: "@ + rest),
    ensures
        payload_of(line) == (if payload == "[DONE]"@ {
            None
        } else {
            Some(payload)
        }),
{
    let text = "data: "@ + gap + payload;
    let rest = gap + payload;
    reveal_strlit("data: ");
    assert("data: "@[0] == 'd' && "data: "@.len() == 6);
    assert(text =~= "data: "@ + rest);
    assert(solid(text)) by {
        assert(text[0] == 'd');
        assert(text[text.len() - 1] == payload[payload.len() - 1]);
    }
    law_trim(before, text, after);
    law_prefix(text, "data: "@);
    law_strip_prefixes(rest, "data: "@);
    if gap.len() > 0 {
        assert(white_space(gap[0]));
        assert(rest[0] == gap[0]);
        assert forall|r: Seq<char>| rest != #[trigger] ("data: "@ + r) by {
            assert(("data: "@ + r)[0] == 'd');
        }
    } else {
        assert(rest =~= payload);
    }
    assert(without_prefixes(text, "data: "@) == rest);
    let none = Seq::<char>::empty();
    assert(gap + payload + none =~= rest);
    law_trim(gap, payload, none);
}

/// Any other line says nothing: one that is no valid UTF-8, a blank one, and one
/// that begins otherwise.
pub proof fn law_no_payload(line: Seq<u8>, before: Seq<char>, text: Seq<char>, after: Seq<char>)
    requires
        blank(before),
        blank(after),
    ensures
        !valid_utf8(line) ==> payload_of(line) is None,
        valid_utf8(line) && decode_utf8(line) == before ==> payload_of(line) is None,
        valid_utf8(line) && decode_utf8(line) == before + text + after && solid(text) && (forall|
            rest: Seq<char>,
        |
            text != #[trigger] ("data: "@ + rest)) ==> payload_of(line) is None,
{
    reveal_strlit("data: ");
    assert("data: "@.len() == 6);
    if valid_utf8(line) && decode_utf8(line) == before {
        let d = seq!['x'];
        law_trim(before, d, before);
        law_prefix(Seq::empty(), "data: "@);
        assert forall|rest: Seq<char>| Seq::<char>::empty() != #[trigger] ("data: "@ + rest) by {
            assert(("data: "@ + rest).len() >= 6);
        }
    }
    if solid(text) {
        law_trim(before, text, after);
        law_prefix(text, "data: "@);
    }
}

/// The chunk of a line is the member `response` of the JSON that its payload is, or
/// the JSON itself, where it has no such member; a line whose payload is no JSON has
/// no chunk.
pub proof fn law_chunk(line: Seq<u8>, payload: Seq<char>)
    requires
        payload_of(line) == Some(payload),
    ensures
        match json_parsed(payload) {
            Some(JsonView::Object(members)) => chunk_of(line) == Some(
                if members.dom().contains("response"@) {
                    members["response"@]
                } else {
                    JsonView::Object(members)
                },
            ),
            Some(v) => chunk_of(line) == Some(v),
            None => chunk_of(line) is None,
        },
{
}

/// The chunks come in the order of their lines: those of some lines, and then that
/// of one more, if it has one.
pub proof fn law_chunks_in_order(lines: Seq<Seq<u8>>, line: Seq<u8>)
    ensures
        chunks_of(Seq::empty()) == Seq::<JsonView>::empty(),
        payload_of(line) is None ==> chunks_of(lines.push(line)) == chunks_of(lines),
        chunk_of(line) is None ==> chunks_of(lines.push(line)) == chunks_of(lines),
        chunk_of(line) matches Some(v) ==> chunks_of(lines.push(line)) == chunks_of(lines).push(v),
{
    assert(lines.push(line).drop_last() =~= lines);
}

} // verus!
