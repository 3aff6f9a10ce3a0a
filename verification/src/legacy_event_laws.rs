//! What a client reads in the events of a text completion stream, over the members
//! of the chunks that come in.
use vstd::prelude::*;

use crate::chat_event_laws::{counts_are, ends};
use crate::events::{EventView, FailureView, UpstreamView};
use crate::gemini::text_finish_reason;
use crate::gemini_laws::{are_texts_of, law_counts, law_text_of_parts};
use crate::json::{JsonView, NumberView};
use crate::legacy::{
    legacy_after_chunk, legacy_after_chunks, legacy_chunk_events, legacy_chunks_events,
    legacy_next, legacy_output, legacy_start, signatures_events, LegacyState,
};
use crate::reader::{chunks_of, lines_of, rest_of};

verus! {

/// A stream begins with what it was given, and with nothing else.
pub proof fn law_legacy_begins(id: Seq<char>, created: int, model: Seq<char>)
    ensures
        ({
            let st = legacy_start(id, created, model);
            &&& st.id == id
            &&& st.created == created
            &&& st.model == model
            &&& st.buffer.len() == 0
            &&& st.usage is None
            &&& !st.closed
        }),
{
}

/// The body of a chunk with that text and that reason for the end.
pub open spec fn text_chunk(st: LegacyState, text: Seq<char>, finish_reason: JsonView) -> JsonView {
    JsonView::Object(
        map![
            "id"@ => JsonView::Text(st.id),
            "object"@ => JsonView::Text("text_completion"@),
            "created"@ => JsonView::Number(NumberView::Integer(st.created)),
            "model"@ => JsonView::Text(st.model),
            "choices"@ => JsonView::Array(
                seq![
                    JsonView::Object(
                        map![
                            "text"@ => JsonView::Text(text),
                            "index"@ => JsonView::Number(NumberView::Integer(0)),
                            "logprobs"@ => JsonView::Null,
                            "finish_reason"@ => finish_reason,
                        ],
                    ),
                ],
            ),
        ],
    )
}

/// A chunk is passed on with the texts of the parts of its first candidate, one
/// behind the other and character for character, behind the signatures of those
/// parts. It has the reason for the end that the candidate gives.
pub proof fn law_legacy_chunk(
    st: LegacyState,
    chunk: JsonView,
    candidates: Seq<JsonView>,
    content: JsonView,
    parts: Seq<JsonView>,
    texts: Seq<Seq<char>>,
)
    requires
        chunk.get("candidates"@) == Some(JsonView::Array(candidates)),
        candidates.len() > 0,
        candidates[0].get("content"@) == Some(content),
        content.get("parts"@) == Some(JsonView::Array(parts)),
        are_texts_of(parts, texts),
    ensures
        ({
            let events = legacy_chunk_events(st, chunk);
            let finish_reason = match candidates[0].get("finishReason"@) {
                Some(JsonView::Text(reason)) => JsonView::Text(text_finish_reason(reason)),
                _ => JsonView::Null,
            };
            &&& events.len() == signatures_events(parts).len() + 1
            &&& events.drop_last() == signatures_events(parts)
            &&& events.last() is Data
            &&& events.last()->Data_0 == text_chunk(st, texts.flatten(), finish_reason)
        }),
{
    law_text_of_parts(parts, texts);
    assert(legacy_chunk_events(st, chunk).drop_last() =~= signatures_events(parts));
}

/// A chunk whose first candidate has no parts, or that has no candidate, is passed
/// on without text.
pub proof fn law_legacy_empty_chunk(st: LegacyState, chunk: JsonView, candidates: Seq<JsonView>)
    ensures
        !(chunk.get("candidates"@) matches Some(JsonView::Array(_))) || chunk.get("candidates"@)
            == Some(JsonView::Array(Seq::empty())) ==> {
            let events = legacy_chunk_events(st, chunk);
            &&& events.len() == 1
            &&& events[0] is Data
            &&& events[0]->Data_0 == text_chunk(st, Seq::empty(), JsonView::Null)
        },
        chunk.get("candidates"@) == Some(JsonView::Array(candidates)) && candidates.len() > 0
            && (candidates[0].get("content"@) matches Some(content) ==> !(content.get("parts"@)
            matches Some(JsonView::Array(_)))) ==> {
            let events = legacy_chunk_events(st, chunk);
            let finish_reason = match candidates[0].get("finishReason"@) {
                Some(JsonView::Text(reason)) => JsonView::Text(text_finish_reason(reason)),
                _ => JsonView::Null,
            };
            &&& events.len() == 1
            &&& events[0] is Data
            &&& events[0]->Data_0 == text_chunk(st, Seq::empty(), finish_reason)
        },
{
}

/// The signatures of parts are handed out in order, one event for each.
pub proof fn law_legacy_signatures(parts: Seq<JsonView>, part: JsonView)
    ensures
        signatures_events(Seq::empty()) == Seq::<EventView>::empty(),
        signatures_events(parts.push(part)) == signatures_events(parts) + (match part.get(
            "thoughtSignature"@,
        ) {
            Some(JsonView::Text(s)) => seq![EventView::Signature(s)],
            Some(_) => Seq::empty(),
            None => match part.get("thought_signature"@) {
                Some(JsonView::Text(s)) => seq![EventView::Signature(s)],
                _ => Seq::empty(),
            },
        }),
{
    assert(parts.push(part).drop_last() =~= parts);
}

/// A usage that is sent is the latest that was reported: with a chunk that reports
/// one, exactly that one, and with one that does not, the one that the stream holds.
/// It is held until a first candidate ends, and no longer.
pub proof fn law_legacy_usage_is_the_latest(
    st: LegacyState,
    chunk: JsonView,
    candidates: Seq<JsonView>,
)
    ensures
        ({
            let event = legacy_chunk_events(st, chunk).last();
            let after = legacy_after_chunk(st, chunk);
            &&& event is Data
            &&& match chunk.get("usageMetadata"@) {
                Some(u) => event->Data_1 is Some && counts_are(event->Data_1->0, u),
                None => event->Data_1 == st.usage,
            }
            &&& chunk.get("candidates"@) == Some(JsonView::Array(candidates)) ==> {
                if candidates.len() > 0 && ends(candidates[0]) {
                    after.usage is None
                } else {
                    after.usage == event->Data_1
                }
            }
            &&& !(chunk.get("candidates"@) matches Some(JsonView::Array(_))) ==> after.usage
                == event->Data_1
            &&& after == (LegacyState { usage: after.usage, ..st })
        }),
{
    match chunk.get("usageMetadata"@) {
        Some(u) => {
            law_counts(u);
        },
        None => {},
    }
}

/// Chunks are passed on one after the other.
pub proof fn law_legacy_chunks_in_order(st: LegacyState, chunks: Seq<JsonView>, chunk: JsonView)
    ensures
        legacy_chunks_events(st, Seq::empty()) == Seq::<EventView>::empty(),
        legacy_after_chunks(st, Seq::empty()) == st,
        legacy_chunks_events(st, chunks.push(chunk)) == legacy_chunks_events(st, chunks)
            + legacy_chunk_events(legacy_after_chunks(st, chunks), chunk),
        legacy_after_chunks(st, chunks.push(chunk)) == legacy_after_chunk(
            legacy_after_chunks(st, chunks),
            chunk,
        ),
{
    assert(chunks.push(chunk).drop_last() =~= chunks);
}

/// What an open stream does with bytes: it passes on the chunks of all lines that
/// are complete, and keeps the rest.
pub proof fn law_legacy_takes_bytes(st: LegacyState, bytes: Seq<u8>)
    requires
        !st.closed,
    ensures
        ({
            let chunks = chunks_of(lines_of(st.buffer + bytes));
            let after = legacy_after_chunks(st, chunks);
            &&& legacy_output(st, UpstreamView::Bytes(bytes)) == legacy_chunks_events(st, chunks)
            &&& legacy_next(st, UpstreamView::Bytes(bytes)) == (LegacyState {
                buffer: rest_of(st.buffer + bytes),
                ..after
            })
        }),
{
}

/// What an open stream does when upstream fails, when it has sent everything, and
/// when it is time for a sign of life.
pub proof fn law_legacy_takes_the_rest(st: LegacyState, failure: FailureView)
    requires
        !st.closed,
    ensures
        legacy_output(st, UpstreamView::Failed(failure)) == seq![
            EventView::Data(
                JsonView::Object(
                    map![
                        "id"@ => JsonView::Text(st.id),
                        "object"@ => JsonView::Text("text_completion"@),
                        "created"@ => JsonView::Number(NumberView::Integer(st.created)),
                        "model"@ => JsonView::Text(st.model),
                        "choices"@ => JsonView::Array(Seq::empty()),
                        "error"@ => JsonView::Object(
                            map![
                                "type"@ => JsonView::Text(failure.error_type),
                                "message"@ => JsonView::Text(failure.message),
                                "code"@ => JsonView::Text("stream_error"@),
                                "i18n_key"@ => JsonView::Text(failure.i18n_key),
                            ],
                        ),
                    ],
                ),
                None,
            ),
            EventView::Done,
        ],
        legacy_output(st, UpstreamView::Ended) == seq![EventView::Done],
        legacy_output(st, UpstreamView::Tick) == seq![EventView::Ping],
        legacy_next(st, UpstreamView::Failed(failure)) == (LegacyState { closed: true, ..st }),
        legacy_next(st, UpstreamView::Ended) == (LegacyState { closed: true, ..st }),
        legacy_next(st, UpstreamView::Tick) == st,
{
}

} // verus!
