//! What a client reads in the events of a chat completion stream, over the members
//! of the chunks that come in.
use std::collections::hash_map::DefaultHasher;

use vstd::prelude::*;
use vstd::std_specs::hash::DefaultHasherAdditionalSpecFns;

use crate::chat::{
    after_candidate, after_candidates, after_chunk, after_chunks, after_parts, candidate_events,
    candidates_events, chat_chunk, chat_next, chat_output, chat_start, chunk_events,
    chunks_events, content_delta, reasoning_delta, tool_call_delta, ChatState, PartsView,
};
use crate::codec::json_text;
use crate::events::{EventView, FailureView, UpstreamView};
use crate::gemini::{chat_finish_reason, grounding_of, image_of, parts_of};
use crate::gemini_laws::{are_texts_of, is_text_of, law_counts};
use crate::json::{JsonView, NumberView};
use crate::reader::{chunks_of, lines_of, rest_of};
use crate::text::numeral;
use crate::tool_calls::{all_hashed, hashed};
use crate::usage::{usage_of, OpenAIUsage};

verus! {

/// A stream begins with what it was given, and with nothing else.
pub proof fn law_chat_begins(id: Seq<char>, created: int, model: Seq<char>)
    ensures
        ({
            let st = chat_start(id, created, model);
            &&& st.id == id
            &&& st.created == created
            &&& st.model == model
            &&& st.buffer.len() == 0
            &&& st.calls.len() == 0
            &&& st.usage is None
            &&& !st.closed
        }),
{
}

/// The members of a chunk: those of the stream, and one choice with its index, its
/// delta and its reason for the end.
pub proof fn law_chat_chunk_members(
    st: ChatState,
    index: int,
    delta: JsonView,
    finish_reason: JsonView,
)
    ensures
        chat_chunk(st, index, delta, finish_reason) == JsonView::Object(
            map![
                "id"@ => JsonView::Text(st.id),
                "object"@ => JsonView::Text("chat.completion.chunk"@),
                "created"@ => JsonView::Number(NumberView::Integer(st.created)),
                "model"@ => JsonView::Text(st.model),
                "choices"@ => JsonView::Array(
                    seq![
                        JsonView::Object(
                            map![
                                "index"@ => JsonView::Number(NumberView::Integer(index)),
                                "delta"@ => delta,
                                "finish_reason"@ => finish_reason,
                            ],
                        ),
                    ],
                ),
            ],
        ),
{
}

/// The members of a delta that passes on a tool call. Its id is the hash of the JSON
/// text of the call; its name and its arguments are those under `name` and `args`.
pub proof fn law_chat_tool_call_members(call_index: int, call: JsonView)
    ensures
        ({
            let id = "call_"@ + numeral(
                DefaultHasher::spec_finish(hashed(Seq::empty(), json_text(call))) as nat,
                16,
            );
            let name = match call.get("name"@) {
                Some(JsonView::Text(s)) => s,
                _ => "unknown"@,
            };
            let arguments = match call.get("args"@) {
                Some(JsonView::Text(s)) => s,
                Some(JsonView::Null) => "{}"@,
                Some(v) => json_text(v),
                None => "{}"@,
            };
            tool_call_delta(call_index, call) == JsonView::Object(
                map![
                    "role"@ => JsonView::Text("assistant"@),
                    "tool_calls"@ => JsonView::Array(
                        seq![
                            JsonView::Object(
                                map![
                                    "index"@ => JsonView::Number(NumberView::Integer(call_index)),
                                    "id"@ => JsonView::Text(id),
                                    "type"@ => JsonView::Text("function"@),
                                    "function"@ => JsonView::Object(
                                        map![
                                            "name"@ => JsonView::Text(name),
                                            "arguments"@ => JsonView::Text(arguments),
                                        ],
                                    ),
                                ],
                            ),
                        ],
                    ),
                ],
            )
        }),
{
    let text = json_text(call);
    assert(seq![text].drop_last() =~= Seq::empty());
    reveal_with_fuel(all_hashed, 2);
    assert(all_hashed(seq![text]) == hashed(Seq::empty(), text));
}

/// The members of a delta that passes on a thought, and of one that passes on
/// content.
pub proof fn law_chat_delta_members(thought: Seq<char>, content: Seq<char>)
    ensures
        reasoning_delta(thought) == JsonView::Object(
            map![
                "role"@ => JsonView::Text("assistant"@),
                "content"@ => JsonView::Null,
                "reasoning_content"@ => JsonView::Text(thought),
            ],
        ),
        content_delta(content) == JsonView::Object(map!["content"@ => JsonView::Text(content)]),
{
}

/// What one part comes to. Its text is content, or a thought where the part is one,
/// character for character; an image is content behind the text. Its signature is
/// handed out, and then its call is passed on, unless the same call was before.
pub proof fn law_chat_part(st: ChatState, index: int, part: JsonView)
    ensures
        ({
            let r = after_parts(st, index, seq![part]);
            let text = match part.get("text"@) {
                Some(JsonView::Text(s)) => s,
                _ => Seq::empty(),
            };
            let signature = match part.get("thoughtSignature"@) {
                Some(JsonView::Text(s)) => seq![EventView::Signature(s)],
                Some(_) => Seq::empty(),
                None => match part.get("thought_signature"@) {
                    Some(JsonView::Text(s)) => seq![EventView::Signature(s)],
                    _ => Seq::empty(),
                },
            };
            &&& part.get("thought"@) == Some(JsonView::Bool(true)) ==> r.thought == text
                && r.content == image_of(part)
            &&& part.get("thought"@) != Some(JsonView::Bool(true)) ==> r.thought.len() == 0
                && r.content == text + image_of(part)
            &&& match part.get("functionCall"@) {
                Some(call) => if exists|i: int|
                    0 <= i < st.calls.len() && #[trigger] st.calls[i] == json_text(call) {
                    r.calls == st.calls && r.events == signature
                } else {
                    &&& r.calls == st.calls.push(json_text(call))
                    &&& r.events == signature.push(
                        EventView::Data(
                            chat_chunk(
                                st,
                                index,
                                tool_call_delta(st.calls.len() as int, call),
                                JsonView::Null,
                            ),
                            None,
                        ),
                    )
                },
                None => r.calls == st.calls && r.events == signature,
            }
        }),
{
    let r = after_parts(st, index, seq![part]);
    assert(seq![part].drop_last() =~= Seq::empty());
    assert(seq![part].last() == part);
    reveal_with_fuel(after_parts, 2);
    let none = Seq::<char>::empty();
    let text = match part.get("text"@) {
        Some(JsonView::Text(s)) => s,
        _ => Seq::empty(),
    };
    assert(none + text =~= text);
    assert(none + none =~= none);
    assert(none + text + image_of(part) =~= text + image_of(part));
    assert(none + none + image_of(part) =~= image_of(part));
    let signature = match part.get("thoughtSignature"@) {
        Some(JsonView::Text(s)) => seq![EventView::Signature(s)],
        Some(_) => Seq::empty(),
        None => match part.get("thought_signature"@) {
            Some(JsonView::Text(s)) => seq![EventView::Signature(s)],
            _ => Seq::empty(),
        },
    };
    match part.get("functionCall"@) {
        Some(call) => {
            assert(st.calls.contains(json_text(call)) <==> exists|i: int|
                0 <= i < st.calls.len() && #[trigger] st.calls[i] == json_text(call));
            if st.calls.contains(json_text(call)) {
                assert(r.events =~= signature);
            } else {
                assert(r.events =~= signature.push(
                    EventView::Data(
                        chat_chunk(
                            st,
                            index,
                            tool_call_delta(st.calls.len() as int, call),
                            JsonView::Null,
                        ),
                        None,
                    ),
                ));
            }
        },
        None => {
            assert(r.events =~= signature);
        },
    }
}

/// Parts add up: what some parts and others behind them come to is what the first
/// come to, and then what the others come to.
pub proof fn law_chat_parts_add_up(
    st: ChatState,
    index: int,
    first: Seq<JsonView>,
    second: Seq<JsonView>,
)
    ensures
        ({
            let a = after_parts(st, index, first);
            let b = after_parts((ChatState { calls: a.calls, ..st }), index, second);
            after_parts(st, index, first + second) == (PartsView {
                calls: b.calls,
                events: a.events + b.events,
                content: a.content + b.content,
                thought: a.thought + b.thought,
            })
        }),
    decreases second.len(),
{
    let a = after_parts(st, index, first);
    let mid = ChatState { calls: a.calls, ..st };
    let b = after_parts(mid, index, second);
    let all = after_parts(st, index, first + second);
    if second.len() == 0 {
        assert(first + second =~= first);
        assert(a.events + b.events =~= a.events);
        assert(a.content + b.content =~= a.content);
        assert(a.thought + b.thought =~= a.thought);
    } else {
        law_chat_parts_add_up(st, index, first, second.drop_last());
        assert((first + second).drop_last() =~= first + second.drop_last());
        assert((first + second).last() == second.last());
        assert(all.events =~= a.events + b.events);
        assert(all.content =~= a.content + b.content);
        assert(all.thought =~= a.thought + b.thought);
    }
}

/// The content of parts without thoughts and images is their texts, one behind the
/// other; the thought of parts that are all thoughts is their texts.
pub proof fn law_chat_texts(
    st: ChatState,
    index: int,
    parts: Seq<JsonView>,
    texts: Seq<Seq<char>>,
    thoughts: bool,
)
    requires
        are_texts_of(parts, texts),
        forall|i: int|
            0 <= i < parts.len() ==> {
                &&& (#[trigger] parts[i]).get("inlineData"@) is None
                &&& thoughts <==> parts[i].get("thought"@) == Some(JsonView::Bool(true))
            },
    ensures
        thoughts ==> after_parts(st, index, parts).thought == texts.flatten(),
        !thoughts ==> after_parts(st, index, parts).content == texts.flatten(),
    decreases parts.len(),
{
    if parts.len() > 0 {
        let front = parts.drop_last();
        let n = parts.len() - 1;
        assert(is_text_of(parts[n], texts[n]));
        assert(are_texts_of(front, texts.drop_last())) by {
            assert forall|i: int| 0 <= i < front.len() implies is_text_of(
                #[trigger] front[i],
                texts.drop_last()[i],
            ) by {
                assert(is_text_of(parts[i], texts[i]));
            }
        }
        assert forall|i: int| 0 <= i < front.len() implies {
            &&& (#[trigger] front[i]).get("inlineData"@) is None
            &&& thoughts <==> front[i].get("thought"@) == Some(JsonView::Bool(true))
        } by {
            assert(front[i] == parts[i]);
        }
        law_chat_texts(st, index, front, texts.drop_last(), thoughts);
        texts.drop_last().lemma_flatten_push(texts.last());
        assert(texts.drop_last().push(texts.last()) =~= texts);
        assert(texts.last() =~= (match parts[n].get("text"@) {
            Some(JsonView::Text(s)) => s,
            _ => Seq::empty(),
        }));
        assert(parts.last() == parts[n]);
        assert(after_parts(st, index, parts).content =~= after_parts(st, index, front).content + (
        if thoughts {
            Seq::empty()
        } else {
            texts.last()
        }));
    }
}

/// The events of a candidate: those of its parts, then its thought, if it has one,
/// then its content with the usage, if it has content or ends. It ends where its
/// `finishReason` is a text, and with that the usage is used up.
pub proof fn law_chat_candidate(st: ChatState, position: int, candidate: JsonView)
    ensures
        ({
            let index = position % 0x1_0000_0000;
            let parts = after_parts(st, index, parts_of(candidate));
            let content = parts.content + grounding_of(candidate);
            let thoughts = if parts.thought.len() == 0 {
                Seq::empty()
            } else {
                seq![
                    EventView::Data(
                        chat_chunk(st, index, reasoning_delta(parts.thought), JsonView::Null),
                        None,
                    ),
                ]
            };
            let after = after_candidate(st, position, candidate);
            &&& match candidate.get("finishReason"@) {
                Some(JsonView::Text(reason)) => {
                    &&& candidate_events(st, position, candidate) == parts.events + thoughts + seq![
                        EventView::Data(
                            chat_chunk(
                                st,
                                index,
                                content_delta(content),
                                JsonView::Text(chat_finish_reason(reason)),
                            ),
                            st.usage,
                        ),
                    ]
                    &&& after.usage is None
                },
                _ => {
                    &&& candidate_events(st, position, candidate) == parts.events + thoughts + (
                    if content.len() == 0 {
                        Seq::empty()
                    } else {
                        seq![
                            EventView::Data(
                                chat_chunk(st, index, content_delta(content), JsonView::Null),
                                st.usage,
                            ),
                        ]
                    })
                    &&& after.usage == st.usage
                },
            }
            &&& after == (ChatState { calls: parts.calls, usage: after.usage, ..st })
        }),
{
}

/// Candidates are passed on one after the other, each at its position.
pub proof fn law_chat_candidates_in_order(
    st: ChatState,
    candidates: Seq<JsonView>,
    candidate: JsonView,
)
    ensures
        candidates_events(st, Seq::empty()) == Seq::<EventView>::empty(),
        after_candidates(st, Seq::empty()) == st,
        candidates_events(st, candidates.push(candidate)) == candidates_events(st, candidates)
            + candidate_events(
            after_candidates(st, candidates),
            candidates.len() as int,
            candidate,
        ),
        after_candidates(st, candidates.push(candidate)) == after_candidate(
            after_candidates(st, candidates),
            candidates.len() as int,
            candidate,
        ),
{
    assert(candidates.push(candidate).drop_last() =~= candidates);
}

/// A chunk replaces the usage by the one that it reports, if it reports one, and
/// then passes on its array `candidates`; without such an array it passes on
/// nothing.
pub proof fn law_chat_chunk(st: ChatState, chunk: JsonView)
    ensures
        ({
            let noted = ChatState {
                usage: match chunk.get("usageMetadata"@) {
                    Some(u) => Some(usage_of(u)),
                    None => st.usage,
                },
                ..st
            };
            match chunk.get("candidates"@) {
                Some(JsonView::Array(candidates)) => {
                    &&& chunk_events(st, chunk) == candidates_events(noted, candidates)
                    &&& after_chunk(st, chunk) == after_candidates(noted, candidates)
                },
                _ => {
                    &&& chunk_events(st, chunk) == Seq::<EventView>::empty()
                    &&& after_chunk(st, chunk) == noted
                },
            }
        }),
{
}

/// Chunks are passed on one after the other.
pub proof fn law_chat_chunks_in_order(st: ChatState, chunks: Seq<JsonView>, chunk: JsonView)
    ensures
        chunks_events(st, Seq::empty()) == Seq::<EventView>::empty(),
        after_chunks(st, Seq::empty()) == st,
        chunks_events(st, chunks.push(chunk)) == chunks_events(st, chunks) + chunk_events(
            after_chunks(st, chunks),
            chunk,
        ),
        after_chunks(st, chunks.push(chunk)) == after_chunk(after_chunks(st, chunks), chunk),
{
    assert(chunks.push(chunk).drop_last() =~= chunks);
}

/// What an open stream does with bytes: it passes on the chunks of all lines that
/// are complete, and keeps the rest.
pub proof fn law_chat_takes_bytes(st: ChatState, bytes: Seq<u8>)
    requires
        !st.closed,
    ensures
        ({
            let chunks = chunks_of(lines_of(st.buffer + bytes));
            let after = after_chunks(st, chunks);
            &&& chat_output(st, UpstreamView::Bytes(bytes)) == chunks_events(st, chunks)
            &&& chat_next(st, UpstreamView::Bytes(bytes)) == (ChatState {
                buffer: rest_of(st.buffer + bytes),
                ..after
            })
        }),
{
}

/// What an open stream does when upstream fails, when it has sent everything, and
/// when it is time for a sign of life.
pub proof fn law_chat_takes_the_rest(st: ChatState, failure: FailureView)
    requires
        !st.closed,
    ensures
        chat_output(st, UpstreamView::Failed(failure)) == seq![
            EventView::Data(
                JsonView::Object(
                    map![
                        "id"@ => JsonView::Text(st.id),
                        "object"@ => JsonView::Text("chat.completion.chunk"@),
                        "created"@ => JsonView::Number(NumberView::Integer(st.created)),
                        "model"@ => JsonView::Text(st.model),
                        "choices"@ => JsonView::Array(Seq::empty()),
                        "error"@ => JsonView::Object(
                            map![
                                "type"@ => JsonView::Text(failure.error_type),
                                "message"@ => JsonView::Text(failure.message),
                                "code"@ => JsonView::Text("stream_error"@),
                                "i18n_key"@ => JsonView::Text(failure.i18n_key),
                            ],
                        ),
                    ],
                ),
                None,
            ),
            EventView::Done,
        ],
        chat_output(st, UpstreamView::Ended) == seq![EventView::Done],
        chat_output(st, UpstreamView::Tick) == seq![EventView::Ping],
        chat_next(st, UpstreamView::Failed(failure)) == (ChatState { closed: true, ..st }),
        chat_next(st, UpstreamView::Ended) == (ChatState { closed: true, ..st }),
        chat_next(st, UpstreamView::Tick) == st,
{
}

/// Whether the count is the integer under that name, in 32 bits, or else zero.
pub open spec fn is_count(n: u32, u: JsonView, name: Seq<char>) -> bool {
    match u.get(name) {
        Some(JsonView::Number(NumberView::Integer(k))) => if 0 <= k <= u64::MAX {
            n == k % 0x1_0000_0000
        } else {
            n == 0
        },
        _ => n == 0,
    }
}

/// Whether the usage has the counts of that report.
pub open spec fn counts_are(usage: OpenAIUsage, u: JsonView) -> bool {
    &&& is_count(usage.prompt_tokens, u, "promptTokenCount"@)
    &&& is_count(usage.completion_tokens, u, "candidatesTokenCount"@)
    &&& is_count(usage.total_tokens, u, "totalTokenCount"@)
}

/// Whether the candidate ends: its `finishReason` is a text.
pub open spec fn ends(candidate: JsonView) -> bool {
    candidate.get("finishReason"@) matches Some(JsonView::Text(_))
}

proof fn lemma_parts_have_no_usage(st: ChatState, index: int, parts: Seq<JsonView>)
    ensures
        forall|i: int|
            0 <= i < after_parts(st, index, parts).events.len() ==> (
            #[trigger] after_parts(st, index, parts).events[i] matches EventView::Data(_, usage)
                ==> usage is None),
    decreases parts.len(),
{
    if parts.len() > 0 {
        lemma_parts_have_no_usage(st, index, parts.drop_last());
    }
}

proof fn lemma_candidates_send_usage(st: ChatState, candidates: Seq<JsonView>)
    ensures
        forall|i: int|
            0 <= i < candidates_events(st, candidates).len() ==> (
            #[trigger] candidates_events(st, candidates)[i] matches EventView::Data(_, usage)
                ==> usage is None || usage == st.usage),
        after_candidates(st, candidates).usage is None || after_candidates(st, candidates).usage
            == st.usage,
        (forall|i: int| 0 <= i < candidates.len() ==> !ends(#[trigger] candidates[i]))
            ==> after_candidates(st, candidates).usage == st.usage,
    decreases candidates.len(),
{
    if candidates.len() > 0 {
        let front = candidates.drop_last();
        let before = after_candidates(st, front);
        let position = candidates.len() - 1;
        lemma_candidates_send_usage(st, front);
        lemma_parts_have_no_usage(
            before,
            position % 0x1_0000_0000,
            parts_of(candidates.last()),
        );
        law_chat_candidate(before, position, candidates.last());
        if forall|i: int| 0 <= i < candidates.len() ==> !ends(#[trigger] candidates[i]) {
            assert forall|i: int| 0 <= i < front.len() implies !ends(#[trigger] front[i]) by {
                assert(front[i] == candidates[i]);
            }
            assert(!ends(candidates[position]));
        }
    }
}

/// A usage that is sent is the latest that was reported: every usage that a chunk
/// with a report sends has the counts of that very report, whatever was reported
/// before.
pub proof fn law_chat_usage_is_the_latest(st: ChatState, chunk: JsonView, u: JsonView, i: int)
    requires
        chunk.get("usageMetadata"@) == Some(u),
        0 <= i < chunk_events(st, chunk).len(),
    ensures
        chunk_events(st, chunk)[i] matches EventView::Data(_, Some(usage)) ==> counts_are(usage, u),
{
    law_chat_chunk(st, chunk);
    law_counts(u);
    let noted = ChatState { usage: Some(usage_of(u)), ..st };
    match chunk.get("candidates"@) {
        Some(JsonView::Array(candidates)) => {
            lemma_candidates_send_usage(noted, candidates);
        },
        _ => {},
    }
}

proof fn lemma_candidates_prefix(st: ChatState, candidates: Seq<JsonView>, n: int)
    requires
        0 <= n <= candidates.len(),
    ensures
        exists|rest: Seq<EventView>|
            candidates_events(st, candidates) == #[trigger] (candidates_events(
                st,
                candidates.take(n),
            ) + rest),
    decreases candidates.len() - n,
{
    if n == candidates.len() {
        assert(candidates.take(n) =~= candidates);
        assert(candidates_events(st, candidates) =~= candidates_events(st, candidates.take(n))
            + Seq::empty());
    } else {
        lemma_candidates_prefix(st, candidates, n + 1);
        let rest = choose|rest: Seq<EventView>|
            candidates_events(st, candidates) == #[trigger] (candidates_events(
                st,
                candidates.take(n + 1),
            ) + rest);
        assert(candidates.take(n + 1) =~= candidates.take(n).push(candidates[n]));
        law_chat_candidates_in_order(st, candidates.take(n), candidates[n]);
        let one = candidate_events(after_candidates(st, candidates.take(n)), n, candidates[n]);
        assert(candidates_events(st, candidates) =~= candidates_events(st, candidates.take(n)) + (
        one + rest));
    }
}

/// With the first candidate of a chunk that ends, the usage is sent: that which the
/// chunk reports, if it reports one, else that which the stream held.
pub proof fn law_chat_end_carries_the_usage(
    st: ChatState,
    chunk: JsonView,
    candidates: Seq<JsonView>,
    k: int,
    reason: Seq<char>,
)
    requires
        chunk.get("candidates"@) == Some(JsonView::Array(candidates)),
        0 <= k < candidates.len(),
        forall|j: int| 0 <= j < k ==> !ends(#[trigger] candidates[j]),
        candidates[k].get("finishReason"@) == Some(JsonView::Text(reason)),
    ensures
        exists|i: int, delta: JsonView|
            {
                let event = #[trigger] chunk_events(st, chunk)[i];
                &&& 0 <= i < chunk_events(st, chunk).len()
                &&& event is Data
                &&& event->Data_0 == #[trigger] chat_chunk(
                    st,
                    k % 0x1_0000_0000,
                    delta,
                    JsonView::Text(chat_finish_reason(reason)),
                )
                &&& match chunk.get("usageMetadata"@) {
                    Some(u) => event->Data_1 is Some && counts_are(event->Data_1->0, u),
                    None => event->Data_1 == st.usage,
                }
            },
{
    law_chat_chunk(st, chunk);
    let noted = ChatState {
        usage: match chunk.get("usageMetadata"@) {
            Some(u) => Some(usage_of(u)),
            None => st.usage,
        },
        ..st
    };
    let before = after_candidates(noted, candidates.take(k));
    lemma_candidates_send_usage(noted, candidates.take(k));
    assert forall|j: int| 0 <= j < candidates.take(k).len() implies !ends(
        #[trigger] candidates.take(k)[j],
    ) by {
        assert(candidates.take(k)[j] == candidates[j]);
    }
    assert(before.usage == noted.usage);
    lemma_candidates_keep_head(noted, candidates.take(k));
    law_chat_candidate(before, k, candidates[k]);
    let one = candidate_events(before, k, candidates[k]);
    assert(candidates.take(k + 1) =~= candidates.take(k).push(candidates[k]));
    law_chat_candidates_in_order(noted, candidates.take(k), candidates[k]);
    lemma_candidates_prefix(noted, candidates, k + 1);
    let sooner = candidates_events(noted, candidates.take(k));
    let i = sooner.len() + one.len() - 1;
    let parts = after_parts(before, k % 0x1_0000_0000, parts_of(candidates[k]));
    let delta = content_delta(parts.content + grounding_of(candidates[k]));
    assert((sooner + one)[i] == one[one.len() - 1]);
    assert(chunk_events(st, chunk)[i] == (sooner + one)[i]);
    law_chat_chunk_members(
        before,
        k % 0x1_0000_0000,
        delta,
        JsonView::Text(chat_finish_reason(reason)),
    );
    law_chat_chunk_members(
        st,
        k % 0x1_0000_0000,
        delta,
        JsonView::Text(chat_finish_reason(reason)),
    );
    assert(chunk_events(st, chunk)[i] == EventView::Data(
        chat_chunk(
            st,
            k % 0x1_0000_0000,
            delta,
            JsonView::Text(chat_finish_reason(reason)),
        ),
        noted.usage,
    ));
    match chunk.get("usageMetadata"@) {
        Some(u) => {
            law_counts(u);
        },
        None => {},
    }
}

proof fn lemma_candidates_keep_head(st: ChatState, candidates: Seq<JsonView>)
    ensures
        after_candidates(st, candidates).id == st.id,
        after_candidates(st, candidates).created == st.created,
        after_candidates(st, candidates).model == st.model,
    decreases candidates.len(),
{
    if candidates.len() > 0 {
        lemma_candidates_keep_head(st, candidates.drop_last());
    }
}

/// Whether no candidate of the chunk ends.
pub open spec fn goes_on(chunk: JsonView) -> bool {
    chunk.get("candidates"@) matches Some(JsonView::Array(candidates)) ==> forall|i: int|
        0 <= i < candidates.len() ==> !ends(#[trigger] candidates[i])
}

/// Until a candidate ends, a stream holds the usage of the latest report: chunks
/// without a report keep it, and one with a report replaces it.
pub proof fn law_chat_holds_the_latest_usage(st: ChatState, chunk: JsonView)
    requires
        goes_on(chunk),
    ensures
        match chunk.get("usageMetadata"@) {
            Some(u) => {
                &&& after_chunk(st, chunk).usage is Some
                &&& counts_are(after_chunk(st, chunk).usage->0, u)
            },
            None => after_chunk(st, chunk).usage == st.usage,
        },
{
    law_chat_chunk(st, chunk);
    let noted = ChatState {
        usage: match chunk.get("usageMetadata"@) {
            Some(u) => Some(usage_of(u)),
            None => st.usage,
        },
        ..st
    };
    match chunk.get("usageMetadata"@) {
        Some(u) => {
            law_counts(u);
        },
        None => {},
    }
    match chunk.get("candidates"@) {
        Some(JsonView::Array(candidates)) => {
            lemma_candidates_send_usage(noted, candidates);
        },
        _ => {},
    }
}

} // verus!
