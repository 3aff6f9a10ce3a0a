//! What holds of a chat completion stream as a whole.
use vstd::prelude::*;

use crate::chat::{
    after_candidate, after_candidates, after_chunk, after_chunks, after_part, after_parts,
    call_events, candidate_content, candidate_events, candidates_events, candidates_of, chat_chunk,
    chat_next, chat_output, chat_start, chunk_events, chunks_events, completed, content_delta,
    content_events, finish_of, lemma_chunks_ignore_buffer, lemma_signature_handed_out,
    reasoning_delta, reasoning_events, sent_index, signature_events, text_or_null,
    tool_call_delta, with_usage, ChatState, PartsView,
};
use crate::events::{
    handed_out, lemma_handed_out_concat, lemma_none_handed_out, EventView, UpstreamView,
};
use crate::gemini::{
    grounding_of, image_of, is_thought, or_empty, parts_of, signatures_of,
};
use crate::json::JsonView;
use crate::reader::{law_pieces_make_whole, lemma_chunks_of_more, lines_of, rest_of};
use crate::tool_calls::calls_differ;

verus! {

/// The state after all that happened.
pub open spec fn chat_run(st: ChatState, events: Seq<UpstreamView>) -> ChatState
    decreases events.len(),
{
    if events.len() == 0 {
        st
    } else {
        chat_next(chat_run(st, events.drop_last()), events.last())
    }
}

/// What the stream has done about all that happened.
pub open spec fn chat_sent(st: ChatState, events: Seq<UpstreamView>) -> Seq<EventView>
    decreases events.len(),
{
    if events.len() == 0 {
        Seq::empty()
    } else {
        chat_sent(st, events.drop_last()) + chat_output(
            chat_run(st, events.drop_last()),
            events.last(),
        )
    }
}

proof fn lemma_more_chunks(st: ChatState, chunks: Seq<JsonView>, more: Seq<JsonView>)
    ensures
        after_chunks(st, chunks + more) == after_chunks(after_chunks(st, chunks), more),
        chunks_events(st, chunks + more) == chunks_events(st, chunks) + chunks_events(
            after_chunks(st, chunks),
            more,
        ),
    decreases more.len(),
{
    if more.len() == 0 {
        assert(chunks + more =~= chunks);
        assert(chunks_events(st, chunks) + Seq::<EventView>::empty() =~= chunks_events(st, chunks));
    } else {
        lemma_more_chunks(st, chunks, more.drop_last());
        assert((chunks + more).drop_last() =~= chunks + more.drop_last());
        assert(chunks_events(st, chunks + more) =~= chunks_events(st, chunks) + chunks_events(
            after_chunks(st, chunks),
            more,
        ));
    }
}

/// Where the upstream bytes are cut makes no difference: two pieces, one after
/// the other, lead to the same state and the same events as the whole at once.
pub proof fn law_chat_ignores_cuts(st: ChatState, first: Seq<u8>, second: Seq<u8>)
    ensures
        chat_next(chat_next(st, UpstreamView::Bytes(first)), UpstreamView::Bytes(second))
            == chat_next(st, UpstreamView::Bytes(first + second)),
        chat_output(st, UpstreamView::Bytes(first)) + chat_output(
            chat_next(st, UpstreamView::Bytes(first)),
            UpstreamView::Bytes(second),
        ) == chat_output(st, UpstreamView::Bytes(first + second)),
{
    if st.closed {
        assert(Seq::<EventView>::empty() + Seq::<EventView>::empty() =~= Seq::empty());
    } else {
        let whole = st.buffer + first;
        assert(st.buffer + (first + second) =~= whole + second);
        law_pieces_make_whole(whole, second);
        lemma_chunks_of_more(lines_of(whole), lines_of(rest_of(whole) + second));
        let a = completed(st, first);
        let mid = chat_next(st, UpstreamView::Bytes(first));
        let b = completed(mid, second);
        lemma_closed_kept(st, a);
        lemma_more_chunks(st, a, b);
        lemma_chunks_ignore_buffer(after_chunks(st, a), rest_of(whole), b);
        lemma_closed_kept(mid, b);
    }
}

proof fn lemma_candidates_keep(st: ChatState, candidates: Seq<JsonView>)
    ensures
        after_candidates(st, candidates).closed == st.closed,
        after_candidates(st, candidates).buffer == st.buffer,
    decreases candidates.len(),
{
    if candidates.len() > 0 {
        lemma_candidates_keep(st, candidates.drop_last());
    }
}

/// Chunks do not close a stream.
proof fn lemma_closed_kept(st: ChatState, chunks: Seq<JsonView>)
    ensures
        after_chunks(st, chunks).closed == st.closed,
    decreases chunks.len(),
{
    if chunks.len() > 0 {
        lemma_closed_kept(st, chunks.drop_last());
        let before = after_chunks(st, chunks.drop_last());
        lemma_candidates_keep(with_usage(before, chunks.last()), candidates_of(chunks.last()));
    }
}

/// Whether none of the events is the mark of the end.
pub open spec fn none_done(events: Seq<EventView>) -> bool {
    forall|i: int| 0 <= i < events.len() ==> #[trigger] events[i] != EventView::Done
}

proof fn lemma_none_done_concat(a: Seq<EventView>, b: Seq<EventView>)
    requires
        none_done(a),
        none_done(b),
    ensures
        none_done(a + b),
{
}

proof fn lemma_parts_none_done(st: ChatState, index: int, parts: Seq<JsonView>)
    ensures
        none_done(after_parts(st, index, parts).events),
    decreases parts.len(),
{
    if parts.len() > 0 {
        let acc = after_parts(st, index, parts.drop_last());
        lemma_parts_none_done(st, index, parts.drop_last());
        lemma_none_done_concat(acc.events, signature_events(parts.last()));
        lemma_none_done_concat(
            acc.events + signature_events(parts.last()),
            call_events(st, index, acc.calls, parts.last()),
        );
    }
}

proof fn lemma_candidates_none_done(st: ChatState, candidates: Seq<JsonView>)
    ensures
        none_done(candidates_events(st, candidates)),
    decreases candidates.len(),
{
    if candidates.len() > 0 {
        let front = candidates.drop_last();
        let before = after_candidates(st, front);
        let position = candidates.len() - 1;
        lemma_candidates_none_done(st, front);
        lemma_parts_none_done(before, sent_index(position), parts_of(candidates.last()));
        assert(none_done(candidate_events(before, position, candidates.last())));
        lemma_none_done_concat(
            candidates_events(st, front),
            candidate_events(before, position, candidates.last()),
        );
    }
}

proof fn lemma_chunks_none_done(st: ChatState, chunks: Seq<JsonView>)
    ensures
        none_done(chunks_events(st, chunks)),
    decreases chunks.len(),
{
    if chunks.len() > 0 {
        lemma_chunks_none_done(st, chunks.drop_last());
        let before = after_chunks(st, chunks.drop_last());
        lemma_candidates_none_done(with_usage(before, chunks.last()), candidates_of(chunks.last()));
        lemma_none_done_concat(
            chunks_events(st, chunks.drop_last()),
            chunk_events(before, chunks.last()),
        );
    }
}

/// Whatever happens to a stream, it sends the mark of the end at most once: not
/// before it is at its end, and then as the last it sends.
pub proof fn law_chat_one_done(st: ChatState, events: Seq<UpstreamView>)
    requires
        !st.closed,
    ensures
        !chat_run(st, events).closed ==> none_done(chat_sent(st, events)),
        chat_run(st, events).closed ==> {
            let sent = chat_sent(st, events);
            sent.len() > 0 && sent.last() == EventView::Done && none_done(sent.drop_last())
        },
    decreases events.len(),
{
    if events.len() > 0 {
        let front = events.drop_last();
        law_chat_one_done(st, front);
        let before = chat_run(st, front);
        let sent = chat_sent(st, front);
        let out = chat_output(before, events.last());
        if before.closed {
            assert(sent + out =~= sent);
        } else {
            match events.last() {
                UpstreamView::Bytes(bytes) => {
                    lemma_chunks_none_done(before, completed(before, bytes));
                    lemma_closed_kept(before, completed(before, bytes));
                },
                UpstreamView::Failed(_) => {
                    assert((sent + out).drop_last() =~= sent + out.drop_last());
                },
                UpstreamView::Ended => {
                    assert((sent + out).drop_last() =~= sent);
                },
                UpstreamView::Tick => {},
            }
        }
    }
}

/// A stream that is at its end does nothing more.
pub proof fn law_chat_closed_is_silent(st: ChatState, event: UpstreamView)
    requires
        st.closed,
    ensures
        chat_next(st, event) == st,
        chat_output(st, event) == Seq::<EventView>::empty(),
{
}

/// The first item of an array.
pub open spec fn first_of(items: Option<Seq<JsonView>>) -> Option<JsonView> {
    match items {
        Some(s) => if s.len() > 0 {
            Some(s[0])
        } else {
            None
        },
        None => None,
    }
}

/// The tool call in the delta of a choice.
pub open spec fn tool_call_of(choice: JsonView) -> Option<JsonView> {
    match choice.get("delta"@) {
        Some(delta) => first_of(delta.array_at("tool_calls"@)),
        None => None,
    }
}

/// The index of the tool call in an event, as a client reads it.
pub open spec fn tool_index(event: EventView) -> Option<JsonView> {
    match event {
        EventView::Data(body, _) => match first_of(body.array_at("choices"@)) {
            Some(choice) => match tool_call_of(choice) {
                Some(call) => call.get("index"@),
                None => None,
            },
            None => None,
        },
        _ => None,
    }
}

/// The indices of all tool calls in the events, in order.
pub open spec fn tool_indices(events: Seq<EventView>) -> Seq<JsonView>
    decreases events.len(),
{
    if events.len() == 0 {
        Seq::empty()
    } else {
        match tool_index(events.last()) {
            Some(index) => tool_indices(events.drop_last()).push(index),
            None => tool_indices(events.drop_last()),
        }
    }
}

/// The integers from one number up to another, the latter not among them.
pub open spec fn counting(from: int, to: int) -> Seq<JsonView>
    recommends
        from <= to,
{
    Seq::new((to - from) as nat, |i: int| JsonView::integer(from + i))
}

proof fn lemma_tool_indices_concat(a: Seq<EventView>, b: Seq<EventView>)
    ensures
        tool_indices(a + b) == tool_indices(a) + tool_indices(b),
    decreases b.len(),
{
    if b.len() == 0 {
        assert(a + b =~= a);
        assert(tool_indices(a) + tool_indices(b) =~= tool_indices(a));
    } else {
        lemma_tool_indices_concat(a, b.drop_last());
        assert((a + b).drop_last() =~= a + b.drop_last());
        assert(tool_indices(a + b) =~= tool_indices(a) + tool_indices(b));
    }
}

proof fn lemma_counting_concat(a: int, b: int, c: int)
    requires
        a <= b <= c,
    ensures
        counting(a, b) + counting(b, c) == counting(a, c),
{
    assert(counting(a, b) + counting(b, c) =~= counting(a, c));
}

/// A chunk has the index that its delta has.
proof fn lemma_chunk_tool_index(
    st: ChatState,
    index: int,
    delta: JsonView,
    finish_reason: JsonView,
    usage: Option<crate::usage::OpenAIUsage>,
)
    ensures
        tool_index(EventView::Data(chat_chunk(st, index, delta, finish_reason), usage)) == (
        match first_of(delta.array_at("tool_calls"@)) {
            Some(call) => call.get("index"@),
            None => None,
        }),
{
    reveal_strlit("delta");
    reveal_strlit("finish_reason");
    assert("delta"@.len() != "finish_reason"@.len());
}

proof fn lemma_tool_call_index(call_index: int, call: JsonView)
    ensures
        first_of(tool_call_delta(call_index, call).array_at("tool_calls"@)) is Some,
        first_of(tool_call_delta(call_index, call).array_at("tool_calls"@))->0.get("index"@)
            == Some(JsonView::integer(call_index)),
{
    reveal_strlit("index");
    reveal_strlit("id");
    reveal_strlit("type");
    reveal_strlit("function");
    assert("index"@.len() != "id"@.len());
    assert("index"@.len() != "type"@.len());
    assert("index"@.len() != "function"@.len());
}

proof fn lemma_other_deltas(thought: Seq<char>, content: Seq<char>)
    ensures
        reasoning_delta(thought).array_at("tool_calls"@) is None,
        content_delta(content).array_at("tool_calls"@) is None,
{
    reveal_strlit("tool_calls");
    reveal_strlit("role");
    reveal_strlit("content");
    reveal_strlit("reasoning_content");
    assert("tool_calls"@.len() != "role"@.len());
    assert("tool_calls"@.len() != "content"@.len());
    assert("tool_calls"@.len() != "reasoning_content"@.len());
}

proof fn lemma_one_event(event: EventView)
    ensures
        tool_indices(seq![event]) == (match tool_index(event) {
            Some(index) => seq![index],
            None => Seq::empty(),
        }),
        tool_indices(Seq::<EventView>::empty()) == Seq::<JsonView>::empty(),
{
    assert(seq![event].drop_last() =~= Seq::empty());
    assert(seq![event].last() == event);
    reveal_with_fuel(tool_indices, 2);
    match tool_index(event) {
        Some(index) => {
            assert(tool_indices(seq![event]) =~= seq![index]);
        },
        None => {},
    }
}

proof fn lemma_part_indices(st: ChatState, index: int, acc: PartsView, part: JsonView)
    ensures
        tool_indices(signature_events(part)) == Seq::<JsonView>::empty(),
        after_part(st, index, acc, part).calls.len() >= acc.calls.len(),
        tool_indices(call_events(st, index, acc.calls, part)) == counting(
            acc.calls.len() as int,
            after_part(st, index, acc, part).calls.len() as int,
        ),
        calls_differ(acc.calls) ==> calls_differ(after_part(st, index, acc, part).calls),
{
    let next = after_part(st, index, acc, part);
    let n = acc.calls.len() as int;
    lemma_one_event(EventView::Done);
    if signature_events(part).len() > 0 {
        lemma_one_event(signature_events(part)[0]);
    }
    if call_events(st, index, acc.calls, part).len() > 0 {
        let call = part.get("functionCall"@)->0;
        let delta = tool_call_delta(n, call);
        lemma_one_event(crate::events::data(chat_chunk(st, index, delta, JsonView::Null)));
        lemma_chunk_tool_index(st, index, delta, JsonView::Null, None);
        lemma_tool_call_index(n, call);
        assert(counting(n, n + 1) =~= seq![JsonView::integer(n)]);
        assert(calls_differ(acc.calls) ==> calls_differ(next.calls)) by {
            if calls_differ(acc.calls) {
                assert forall|i: int, j: int| 0 <= i < j < next.calls.len() implies
                    #[trigger] next.calls[i] != #[trigger] next.calls[j] by {
                    assert(next.calls[i] == acc.calls[i]);
                    assert(acc.calls.contains(acc.calls[i]));
                    if j < n {
                        assert(acc.calls[i] != acc.calls[j]);
                    }
                }
            }
        }
    } else {
        assert(counting(n, n) =~= Seq::empty());
    }
}

proof fn lemma_parts_indices(st: ChatState, index: int, parts: Seq<JsonView>)
    ensures
        after_parts(st, index, parts).calls.len() >= st.calls.len(),
        tool_indices(after_parts(st, index, parts).events) == counting(
            st.calls.len() as int,
            after_parts(st, index, parts).calls.len() as int,
        ),
        calls_differ(st.calls) ==> calls_differ(after_parts(st, index, parts).calls),
    decreases parts.len(),
{
    if parts.len() == 0 {
        assert(counting(st.calls.len() as int, st.calls.len() as int) =~= Seq::empty());
    } else {
        let acc = after_parts(st, index, parts.drop_last());
        let next = after_parts(st, index, parts);
        let part = parts.last();
        lemma_parts_indices(st, index, parts.drop_last());
        lemma_part_indices(st, index, acc, part);
        lemma_tool_indices_concat(acc.events, signature_events(part));
        lemma_tool_indices_concat(
            acc.events + signature_events(part),
            call_events(st, index, acc.calls, part),
        );
        assert(tool_indices(acc.events) + Seq::<JsonView>::empty() =~= tool_indices(acc.events));
        lemma_counting_concat(
            st.calls.len() as int,
            acc.calls.len() as int,
            next.calls.len() as int,
        );
    }
}

proof fn lemma_candidate_indices(st: ChatState, position: int, candidate: JsonView)
    ensures
        after_candidate(st, position, candidate).calls.len() >= st.calls.len(),
        tool_indices(candidate_events(st, position, candidate)) == counting(
            st.calls.len() as int,
            after_candidate(st, position, candidate).calls.len() as int,
        ),
        calls_differ(st.calls) ==> calls_differ(after_candidate(st, position, candidate).calls),
{
    let index = sent_index(position);
    let parts = after_parts(st, index, parts_of(candidate));
    let content = candidate_content(st, position, candidate);
    let finish = finish_of(candidate);
    let r = reasoning_events(st, index, parts.thought);
    let c = content_events(st, index, content, finish);
    lemma_parts_indices(st, index, parts_of(candidate));
    lemma_other_deltas(parts.thought, content);
    lemma_one_event(EventView::Done);
    if r.len() > 0 {
        lemma_one_event(r[0]);
        lemma_chunk_tool_index(
            st,
            index,
            reasoning_delta(parts.thought),
            JsonView::Null,
            None,
        );
    }
    if c.len() > 0 {
        lemma_one_event(c[0]);
        lemma_chunk_tool_index(
            st,
            index,
            content_delta(content),
            text_or_null(finish),
            st.usage,
        );
    }
    lemma_tool_indices_concat(parts.events, r);
    lemma_tool_indices_concat(parts.events + r, c);
    assert(tool_indices(parts.events + r + c) =~= tool_indices(parts.events));
}

proof fn lemma_candidates_indices(st: ChatState, candidates: Seq<JsonView>)
    ensures
        after_candidates(st, candidates).calls.len() >= st.calls.len(),
        tool_indices(candidates_events(st, candidates)) == counting(
            st.calls.len() as int,
            after_candidates(st, candidates).calls.len() as int,
        ),
        calls_differ(st.calls) ==> calls_differ(after_candidates(st, candidates).calls),
    decreases candidates.len(),
{
    if candidates.len() == 0 {
        assert(counting(st.calls.len() as int, st.calls.len() as int) =~= Seq::empty());
    } else {
        let front = candidates.drop_last();
        let before = after_candidates(st, front);
        let position = candidates.len() - 1;
        lemma_candidates_indices(st, front);
        lemma_candidate_indices(before, position, candidates.last());
        lemma_tool_indices_concat(
            candidates_events(st, front),
            candidate_events(before, position, candidates.last()),
        );
        lemma_counting_concat(
            st.calls.len() as int,
            before.calls.len() as int,
            after_candidates(st, candidates).calls.len() as int,
        );
    }
}

proof fn lemma_chunks_indices(st: ChatState, chunks: Seq<JsonView>)
    ensures
        after_chunks(st, chunks).calls.len() >= st.calls.len(),
        tool_indices(chunks_events(st, chunks)) == counting(
            st.calls.len() as int,
            after_chunks(st, chunks).calls.len() as int,
        ),
        calls_differ(st.calls) ==> calls_differ(after_chunks(st, chunks).calls),
    decreases chunks.len(),
{
    if chunks.len() == 0 {
        assert(counting(st.calls.len() as int, st.calls.len() as int) =~= Seq::empty());
    } else {
        let front = chunks.drop_last();
        let before = after_chunks(st, front);
        lemma_chunks_indices(st, front);
        lemma_candidates_indices(with_usage(before, chunks.last()), candidates_of(chunks.last()));
        lemma_tool_indices_concat(chunks_events(st, front), chunk_events(before, chunks.last()));
        lemma_counting_concat(
            st.calls.len() as int,
            before.calls.len() as int,
            after_chunks(st, chunks).calls.len() as int,
        );
    }
}

proof fn lemma_output_indices(st: ChatState, event: UpstreamView)
    ensures
        chat_next(st, event).calls.len() >= st.calls.len(),
        tool_indices(chat_output(st, event)) == counting(
            st.calls.len() as int,
            chat_next(st, event).calls.len() as int,
        ),
        calls_differ(st.calls) ==> calls_differ(chat_next(st, event).calls),
{
    let n = st.calls.len() as int;
    assert(counting(n, n) =~= Seq::empty());
    lemma_one_event(EventView::Done);
    lemma_one_event(EventView::Ping);
    if !st.closed {
        match event {
            UpstreamView::Bytes(bytes) => {
                lemma_chunks_indices(st, completed(st, bytes));
            },
            UpstreamView::Failed(failure) => {
                let body = crate::chat::failure_chunk(st, failure);
                let told = crate::events::data(body);
                reveal_strlit("choices");
                reveal_strlit("error");
                assert("choices"@.len() != "error"@.len());
                assert(tool_index(told) is None);
                lemma_one_event(told);
                lemma_tool_indices_concat(seq![told], seq![EventView::Done]);
                assert(chat_output(st, event) =~= seq![told] + seq![EventView::Done]);
                assert(tool_indices(chat_output(st, event)) =~= Seq::empty());
            },
            _ => {},
        }
    }
}

/// Every tool call that a stream passes on has an index of its own, and the
/// indices count up from zero, whatever happens to the stream. The calls are as
/// many as the stream has listed, and no call is listed twice.
pub proof fn law_chat_tool_indices_count_up(
    id: Seq<char>,
    created: int,
    model: Seq<char>,
    events: Seq<UpstreamView>,
)
    ensures
        ({
            let st = chat_start(id, created, model);
            let calls = chat_run(st, events).calls;
            &&& tool_indices(chat_sent(st, events)) == counting(0, calls.len() as int)
            &&& calls_differ(calls)
        }),
    decreases events.len(),
{
    let st = chat_start(id, created, model);
    if events.len() == 0 {
        assert(counting(0, 0) =~= Seq::empty());
    } else {
        let front = events.drop_last();
        let before = chat_run(st, front);
        law_chat_tool_indices_count_up(id, created, model, front);
        lemma_output_indices(before, events.last());
        lemma_tool_indices_concat(chat_sent(st, front), chat_output(before, events.last()));
        lemma_counting_concat(
            0,
            before.calls.len() as int,
            chat_run(st, events).calls.len() as int,
        );
    }
}

/// With the last content of a candidate the usage is sent, and is then used up.
pub proof fn law_chat_usage_goes_with_the_end(st: ChatState, position: int, candidate: JsonView)
    requires
        finish_of(candidate) is Some,
    ensures
        candidate_events(st, position, candidate).len() > 0,
        candidate_events(st, position, candidate).last() matches EventView::Data(_, usage) && usage
            == st.usage,
        after_candidate(st, position, candidate).usage is None,
{
}

/// Whether none of the events has a usage with it.
pub open spec fn none_with_usage(events: Seq<EventView>) -> bool {
    forall|i: int|
        0 <= i < events.len() ==> (#[trigger] events[i] matches EventView::Data(_, usage) ==> usage
            is None)
}

proof fn lemma_parts_without_usage(st: ChatState, index: int, parts: Seq<JsonView>)
    ensures
        none_with_usage(after_parts(st, index, parts).events),
    decreases parts.len(),
{
    if parts.len() > 0 {
        lemma_parts_without_usage(st, index, parts.drop_last());
    }
}

proof fn lemma_candidates_without_usage(st: ChatState, candidates: Seq<JsonView>)
    requires
        st.usage is None,
    ensures
        after_candidates(st, candidates).usage is None,
        none_with_usage(candidates_events(st, candidates)),
    decreases candidates.len(),
{
    if candidates.len() > 0 {
        let front = candidates.drop_last();
        let before = after_candidates(st, front);
        lemma_candidates_without_usage(st, front);
        lemma_parts_without_usage(
            before,
            sent_index(candidates.len() - 1),
            parts_of(candidates.last()),
        );
        assert(none_with_usage(candidate_events(before, candidates.len() - 1, candidates.last())));
    }
}

/// A usage that is used up is not sent again: no chunk that does not report one
/// is passed on with one.
pub proof fn law_chat_usage_is_not_repeated(st: ChatState, chunk: JsonView)
    requires
        st.usage is None,
        chunk.get("usageMetadata"@) is None,
    ensures
        after_chunk(st, chunk).usage is None,
        none_with_usage(chunk_events(st, chunk)),
{
    lemma_candidates_without_usage(st, candidates_of(chunk));
}

/// A failure and the end close a stream, and nothing else does.
pub proof fn law_chat_closes_at_the_end(st: ChatState, event: UpstreamView)
    ensures
        chat_next(st, event).closed <==> st.closed || event is Failed || event is Ended,
{
    match event {
        UpstreamView::Bytes(bytes) => {
            lemma_closed_kept(st, completed(st, bytes));
        },
        _ => {},
    }
}

/// Whether the choice has that index; without one, any choice will do.
pub open spec fn is_choice(choice: JsonView, pick: Option<int>) -> bool {
    match pick {
        Some(index) => choice.get("index"@) == Some(JsonView::integer(index)),
        None => true,
    }
}

/// The text of that name in the delta of an event, as a client reads it. With an
/// index, only the choice with that index counts.
pub open spec fn delta_text(event: EventView, pick: Option<int>, name: Seq<char>) -> Seq<char> {
    match event {
        EventView::Data(body, _) => match first_of(body.array_at("choices"@)) {
            Some(choice) => match choice.get("delta"@) {
                Some(delta) => if is_choice(choice, pick) {
                    or_empty(delta.text_at(name))
                } else {
                    Seq::empty()
                },
                None => Seq::empty(),
            },
            None => Seq::empty(),
        },
        _ => Seq::empty(),
    }
}

/// The texts of that name in the deltas of the events, put together. With an index,
/// only the choices with that index count.
pub open spec fn delta_texts(
    events: Seq<EventView>,
    pick: Option<int>,
    name: Seq<char>,
) -> Seq<char>
    decreases events.len(),
{
    if events.len() == 0 {
        Seq::empty()
    } else {
        delta_texts(events.drop_last(), pick, name) + delta_text(events.last(), pick, name)
    }
}

/// What the parts say, images as Markdown.
pub open spec fn said(parts: Seq<JsonView>) -> Seq<char>
    decreases parts.len(),
{
    if parts.len() == 0 {
        Seq::empty()
    } else {
        said(parts.drop_last()) + (if is_thought(parts.last()) {
            Seq::empty()
        } else {
            or_empty(parts.last().text_at("text"@))
        }) + image_of(parts.last())
    }
}

/// What the parts think.
pub open spec fn thought(parts: Seq<JsonView>) -> Seq<char>
    decreases parts.len(),
{
    if parts.len() == 0 {
        Seq::empty()
    } else {
        thought(parts.drop_last()) + (if is_thought(parts.last()) {
            or_empty(parts.last().text_at("text"@))
        } else {
            Seq::empty()
        })
    }
}

/// What a candidate says, with its searches and sources.
pub open spec fn candidate_says(candidate: JsonView) -> Seq<char> {
    said(parts_of(candidate)) + grounding_of(candidate)
}

/// What a candidate thinks.
pub open spec fn candidate_thinks(candidate: JsonView) -> Seq<char> {
    thought(parts_of(candidate))
}

/// Whether a candidate at that position is sent under the index; without one, it
/// is in any case.
pub open spec fn is_sent_under(position: int, pick: Option<int>) -> bool {
    match pick {
        Some(index) => sent_index(position) == index,
        None => true,
    }
}

/// What the candidates say. With an index, only those that are sent under it count.
pub open spec fn said_by(candidates: Seq<JsonView>, pick: Option<int>) -> Seq<char>
    decreases candidates.len(),
{
    if candidates.len() == 0 {
        Seq::empty()
    } else {
        said_by(candidates.drop_last(), pick) + (if is_sent_under(candidates.len() - 1, pick) {
            candidate_says(candidates.last())
        } else {
            Seq::empty()
        })
    }
}

/// What the candidates think. With an index, only those that are sent under it
/// count.
pub open spec fn thought_by(candidates: Seq<JsonView>, pick: Option<int>) -> Seq<char>
    decreases candidates.len(),
{
    if candidates.len() == 0 {
        Seq::empty()
    } else {
        thought_by(candidates.drop_last(), pick) + (if is_sent_under(candidates.len() - 1, pick) {
            candidate_thinks(candidates.last())
        } else {
            Seq::empty()
        })
    }
}

/// What the chunks say. With an index, only the candidates that are sent under it
/// count.
pub open spec fn said_in(chunks: Seq<JsonView>, pick: Option<int>) -> Seq<char>
    decreases chunks.len(),
{
    if chunks.len() == 0 {
        Seq::empty()
    } else {
        said_in(chunks.drop_last(), pick) + said_by(candidates_of(chunks.last()), pick)
    }
}

/// What the chunks think. With an index, only the candidates that are sent under it
/// count.
pub open spec fn thought_in(chunks: Seq<JsonView>, pick: Option<int>) -> Seq<char>
    decreases chunks.len(),
{
    if chunks.len() == 0 {
        Seq::empty()
    } else {
        thought_in(chunks.drop_last(), pick) + thought_by(candidates_of(chunks.last()), pick)
    }
}

proof fn lemma_delta_texts_concat(
    a: Seq<EventView>,
    b: Seq<EventView>,
    pick: Option<int>,
    name: Seq<char>,
)
    ensures
        delta_texts(a + b, pick, name) == delta_texts(a, pick, name) + delta_texts(b, pick, name),
    decreases b.len(),
{
    if b.len() == 0 {
        assert(a + b =~= a);
        assert(delta_texts(a, pick, name) + delta_texts(b, pick, name) =~= delta_texts(
            a,
            pick,
            name,
        ));
    } else {
        lemma_delta_texts_concat(a, b.drop_last(), pick, name);
        assert((a + b).drop_last() =~= a + b.drop_last());
        assert(delta_texts(a + b, pick, name) =~= delta_texts(a, pick, name) + delta_texts(
            b,
            pick,
            name,
        ));
    }
}

proof fn lemma_one_delta_text(event: EventView, pick: Option<int>, name: Seq<char>)
    ensures
        delta_texts(seq![event], pick, name) == delta_text(event, pick, name),
        delta_texts(Seq::<EventView>::empty(), pick, name) == Seq::<char>::empty(),
{
    assert(seq![event].drop_last() =~= Seq::empty());
    reveal_with_fuel(delta_texts, 2);
    assert(delta_texts(seq![event], pick, name) =~= delta_text(event, pick, name));
}

/// A client reads the text that the delta of a chunk has, under the index of the
/// chunk.
proof fn lemma_chunk_delta_text(
    st: ChatState,
    index: int,
    delta: JsonView,
    finish_reason: JsonView,
    usage: Option<crate::usage::OpenAIUsage>,
    pick: Option<int>,
    name: Seq<char>,
)
    ensures
        delta_text(EventView::Data(chat_chunk(st, index, delta, finish_reason), usage), pick, name)
            == (if pick is None || pick == Some(index) {
            or_empty(delta.text_at(name))
        } else {
            Seq::empty()
        }),
{
    reveal_strlit("index");
    reveal_strlit("delta");
    reveal_strlit("finish_reason");
    assert("index"@[0] == 'i' && "delta"@[0] == 'd');
    assert("index"@.len() == 5 && "delta"@.len() == 5 && "finish_reason"@.len() == 13);
}

/// The texts in the deltas that a stream sends.
proof fn lemma_texts_of_deltas(
    call_index: int,
    call: JsonView,
    thought: Seq<char>,
    content: Seq<char>,
)
    ensures
        tool_call_delta(call_index, call).text_at("content"@) is None,
        tool_call_delta(call_index, call).text_at("reasoning_content"@) is None,
        reasoning_delta(thought).text_at("content"@) is None,
        reasoning_delta(thought).text_at("reasoning_content"@) == Some(thought),
        content_delta(content).text_at("content"@) == Some(content),
        content_delta(content).text_at("reasoning_content"@) is None,
{
    reveal_strlit("role");
    reveal_strlit("tool_calls");
    reveal_strlit("content");
    reveal_strlit("reasoning_content");
    assert("role"@.len() == 4 && "tool_calls"@.len() == 10);
    assert("content"@.len() == 7 && "reasoning_content"@.len() == 17);
}

proof fn lemma_parts_say(
    st: ChatState,
    index: int,
    parts: Seq<JsonView>,
    pick: Option<int>,
    name: Seq<char>,
)
    requires
        name == "content"@ || name == "reasoning_content"@,
    ensures
        after_parts(st, index, parts).content == said(parts),
        after_parts(st, index, parts).thought == thought(parts),
        delta_texts(after_parts(st, index, parts).events, pick, name) == Seq::<char>::empty(),
    decreases parts.len(),
{
    lemma_one_delta_text(EventView::Done, pick, name);
    if parts.len() > 0 {
        let acc = after_parts(st, index, parts.drop_last());
        let part = parts.last();
        let signatures = signature_events(part);
        let calls = call_events(st, index, acc.calls, part);
        lemma_parts_say(st, index, parts.drop_last(), pick, name);
        if signatures.len() > 0 {
            lemma_one_delta_text(signatures[0], pick, name);
        }
        if calls.len() > 0 {
            let call = part.get("functionCall"@)->0;
            let n = acc.calls.len() as int;
            lemma_one_delta_text(calls[0], pick, name);
            lemma_chunk_delta_text(
                st,
                index,
                tool_call_delta(n, call),
                JsonView::Null,
                None,
                pick,
                name,
            );
            lemma_texts_of_deltas(n, call, Seq::empty(), Seq::empty());
        }
        lemma_delta_texts_concat(acc.events, signatures, pick, name);
        lemma_delta_texts_concat(acc.events + signatures, calls, pick, name);
        assert(delta_texts(acc.events + signatures + calls, pick, name) =~= Seq::empty());
    }
}

proof fn lemma_candidate_says(
    st: ChatState,
    position: int,
    candidate: JsonView,
    pick: Option<int>,
)
    ensures
        delta_texts(candidate_events(st, position, candidate), pick, "content"@) == (
        if is_sent_under(position, pick) {
            candidate_says(candidate)
        } else {
            Seq::empty()
        }),
        delta_texts(candidate_events(st, position, candidate), pick, "reasoning_content"@) == (
        if is_sent_under(position, pick) {
            candidate_thinks(candidate)
        } else {
            Seq::empty()
        }),
{
    let index = sent_index(position);
    let parts = after_parts(st, index, parts_of(candidate));
    let content = candidate_content(st, position, candidate);
    lemma_parts_say(st, index, parts_of(candidate), pick, "content"@);
    lemma_parts_say(st, index, parts_of(candidate), pick, "reasoning_content"@);
    lemma_texts_of_deltas(0, JsonView::Null, parts.thought, content);
    lemma_candidate_texts(st, position, candidate, pick, "content"@);
    lemma_candidate_texts(st, position, candidate, pick, "reasoning_content"@);
    if parts.thought.len() == 0 {
        assert(parts.thought =~= Seq::empty());
    }
    if content.len() == 0 {
        assert(content =~= Seq::empty());
    }
    let empty = Seq::<char>::empty();
    assert(empty + empty + empty =~= empty);
    assert(empty + empty + content =~= content);
    assert(empty + parts.thought + empty =~= parts.thought);
}

/// What is in the deltas of a candidate is what is in its thought and its content,
/// under its index.
proof fn lemma_candidate_texts(
    st: ChatState,
    position: int,
    candidate: JsonView,
    pick: Option<int>,
    name: Seq<char>,
)
    ensures
        ({
            let index = sent_index(position);
            let parts = after_parts(st, index, parts_of(candidate));
            let content = candidate_content(st, position, candidate);
            let finish = finish_of(candidate);
            let picked = is_sent_under(position, pick);
            delta_texts(candidate_events(st, position, candidate), pick, name) == delta_texts(
                parts.events,
                pick,
                name,
            ) + (if parts.thought.len() == 0 || !picked {
                Seq::empty()
            } else {
                or_empty(reasoning_delta(parts.thought).text_at(name))
            }) + (if (content.len() == 0 && finish is None) || !picked {
                Seq::empty()
            } else {
                or_empty(content_delta(content).text_at(name))
            })
        }),
{
    let index = sent_index(position);
    let parts = after_parts(st, index, parts_of(candidate));
    let content = candidate_content(st, position, candidate);
    let finish = finish_of(candidate);
    let r = reasoning_events(st, index, parts.thought);
    let c = content_events(st, index, content, finish);
    lemma_one_delta_text(EventView::Done, pick, name);
    if r.len() > 0 {
        lemma_one_delta_text(r[0], pick, name);
        lemma_chunk_delta_text(
            st,
            index,
            reasoning_delta(parts.thought),
            JsonView::Null,
            None,
            pick,
            name,
        );
    }
    if c.len() > 0 {
        lemma_one_delta_text(c[0], pick, name);
        lemma_chunk_delta_text(
            st,
            index,
            content_delta(content),
            text_or_null(finish),
            st.usage,
            pick,
            name,
        );
    }
    lemma_delta_texts_concat(parts.events, r, pick, name);
    lemma_delta_texts_concat(parts.events + r, c, pick, name);
}

proof fn lemma_candidates_say(st: ChatState, candidates: Seq<JsonView>, pick: Option<int>)
    ensures
        delta_texts(candidates_events(st, candidates), pick, "content"@) == said_by(
            candidates,
            pick,
        ),
        delta_texts(candidates_events(st, candidates), pick, "reasoning_content"@) == thought_by(
            candidates,
            pick,
        ),
    decreases candidates.len(),
{
    if candidates.len() > 0 {
        let front = candidates.drop_last();
        let before = after_candidates(st, front);
        let position = candidates.len() - 1;
        let sooner = candidates_events(st, front);
        let events = candidate_events(before, position, candidates.last());
        lemma_candidates_say(st, front, pick);
        lemma_candidate_says(before, position, candidates.last(), pick);
        lemma_delta_texts_concat(sooner, events, pick, "content"@);
        lemma_delta_texts_concat(sooner, events, pick, "reasoning_content"@);
    }
}

proof fn lemma_chunks_say(st: ChatState, chunks: Seq<JsonView>, pick: Option<int>)
    ensures
        delta_texts(chunks_events(st, chunks), pick, "content"@) == said_in(chunks, pick),
        delta_texts(chunks_events(st, chunks), pick, "reasoning_content"@) == thought_in(
            chunks,
            pick,
        ),
    decreases chunks.len(),
{
    if chunks.len() > 0 {
        let front = chunks.drop_last();
        let before = after_chunks(st, front);
        let sooner = chunks_events(st, front);
        let events = chunk_events(before, chunks.last());
        lemma_chunks_say(st, front, pick);
        lemma_candidates_say(
            with_usage(before, chunks.last()),
            candidates_of(chunks.last()),
            pick,
        );
        lemma_delta_texts_concat(sooner, events, pick, "content"@);
        lemma_delta_texts_concat(sooner, events, pick, "reasoning_content"@);
    }
}

/// Nothing that the chunks say or think is lost, and nothing is added to it or
/// sent twice: a client that puts the deltas together has all of it, in order.
pub proof fn law_chat_says_what_came_in(st: ChatState, chunks: Seq<JsonView>)
    ensures
        delta_texts(chunks_events(st, chunks), None, "content"@) == said_in(chunks, None),
        delta_texts(chunks_events(st, chunks), None, "reasoning_content"@) == thought_in(
            chunks,
            None,
        ),
{
    lemma_chunks_say(st, chunks, None);
}

/// What the chunks say in their candidates at that position, put together.
pub open spec fn said_at(chunks: Seq<JsonView>, position: int) -> Seq<char>
    decreases chunks.len(),
{
    if chunks.len() == 0 {
        Seq::empty()
    } else {
        let candidates = candidates_of(chunks.last());
        said_at(chunks.drop_last(), position) + (if position < candidates.len() {
            candidate_says(candidates[position])
        } else {
            Seq::empty()
        })
    }
}

/// What the chunks think in their candidates at that position, put together.
pub open spec fn thought_at(chunks: Seq<JsonView>, position: int) -> Seq<char>
    decreases chunks.len(),
{
    if chunks.len() == 0 {
        Seq::empty()
    } else {
        let candidates = candidates_of(chunks.last());
        thought_at(chunks.drop_last(), position) + (if position < candidates.len() {
            candidate_thinks(candidates[position])
        } else {
            Seq::empty()
        })
    }
}

/// Whether every chunk has so few candidates that each is sent under its position.
pub open spec fn positions_fit(chunks: Seq<JsonView>) -> bool {
    forall|i: int|
        0 <= i < chunks.len() ==> candidates_of(#[trigger] chunks[i]).len() <= 0x1_0000_0000
}

proof fn lemma_one_candidate(candidates: Seq<JsonView>, position: int)
    requires
        candidates.len() <= 0x1_0000_0000,
        0 <= position,
    ensures
        said_by(candidates, Some(position)) == (if position < candidates.len() {
            candidate_says(candidates[position])
        } else {
            Seq::empty()
        }),
        thought_by(candidates, Some(position)) == (if position < candidates.len() {
            candidate_thinks(candidates[position])
        } else {
            Seq::empty()
        }),
    decreases candidates.len(),
{
    if candidates.len() > 0 {
        let front = candidates.drop_last();
        let last = candidates.last();
        lemma_one_candidate(front, position);
        assert(sent_index(candidates.len() - 1) == candidates.len() - 1);
        assert(Seq::<char>::empty() + candidate_says(last) =~= candidate_says(last));
        assert(Seq::<char>::empty() + candidate_thinks(last) =~= candidate_thinks(last));
        assert(said_by(front, Some(position)) + Seq::<char>::empty() =~= said_by(
            front,
            Some(position),
        ));
        assert(thought_by(front, Some(position)) + Seq::<char>::empty() =~= thought_by(
            front,
            Some(position),
        ));
    }
}

/// The choices do not mix: the deltas under an index, put together, are what the
/// candidates at that position say and think, all of it and in order. An index has
/// 32 bits, so it stands for one position where no chunk has more candidates than
/// there are indices.
pub proof fn law_chat_choices_do_not_mix(st: ChatState, chunks: Seq<JsonView>, index: int)
    requires
        0 <= index,
        positions_fit(chunks),
    ensures
        delta_texts(chunks_events(st, chunks), Some(index), "content"@) == said_at(chunks, index),
        delta_texts(chunks_events(st, chunks), Some(index), "reasoning_content"@) == thought_at(
            chunks,
            index,
        ),
{
    lemma_chunks_say(st, chunks, Some(index));
    lemma_said_at(chunks, index);
}

proof fn lemma_said_at(chunks: Seq<JsonView>, index: int)
    requires
        0 <= index,
        positions_fit(chunks),
    ensures
        said_in(chunks, Some(index)) == said_at(chunks, index),
        thought_in(chunks, Some(index)) == thought_at(chunks, index),
    decreases chunks.len(),
{
    if chunks.len() > 0 {
        let front = chunks.drop_last();
        assert(positions_fit(front)) by {
            assert forall|i: int| 0 <= i < front.len() implies candidates_of(
                #[trigger] front[i],
            ).len() <= 0x1_0000_0000 by {
                assert(front[i] == chunks[i]);
            }
        }
        lemma_said_at(front, index);
        assert(chunks.last() == chunks[chunks.len() - 1]);
        lemma_one_candidate(candidates_of(chunks.last()), index);
    }
}

/// The thought signatures in all candidates, in order.
pub open spec fn signatures_by(candidates: Seq<JsonView>) -> Seq<Seq<char>>
    decreases candidates.len(),
{
    if candidates.len() == 0 {
        Seq::empty()
    } else {
        signatures_by(candidates.drop_last()) + signatures_of(parts_of(candidates.last()))
    }
}

/// The thought signatures in all chunks, in order.
pub open spec fn signatures_in(chunks: Seq<JsonView>) -> Seq<Seq<char>>
    decreases chunks.len(),
{
    if chunks.len() == 0 {
        Seq::empty()
    } else {
        signatures_in(chunks.drop_last()) + signatures_by(candidates_of(chunks.last()))
    }
}

proof fn lemma_parts_hand_out(st: ChatState, index: int, parts: Seq<JsonView>)
    ensures
        handed_out(after_parts(st, index, parts).events) == signatures_of(parts),
    decreases parts.len(),
{
    if parts.len() > 0 {
        let acc = after_parts(st, index, parts.drop_last());
        let signatures = signature_events(parts.last());
        let calls = call_events(st, index, acc.calls, parts.last());
        lemma_parts_hand_out(st, index, parts.drop_last());
        lemma_signature_handed_out(parts);
        lemma_none_handed_out(calls);
        lemma_handed_out_concat(acc.events, signatures);
        lemma_handed_out_concat(acc.events + signatures, calls);
        assert(signatures_of(parts) + Seq::<Seq<char>>::empty() =~= signatures_of(parts));
    }
}

proof fn lemma_candidates_hand_out(st: ChatState, candidates: Seq<JsonView>)
    ensures
        handed_out(candidates_events(st, candidates)) == signatures_by(candidates),
    decreases candidates.len(),
{
    if candidates.len() > 0 {
        let front = candidates.drop_last();
        let before = after_candidates(st, front);
        let position = candidates.len() - 1;
        let candidate = candidates.last();
        let index = sent_index(position);
        let parts = after_parts(before, index, parts_of(candidate));
        let r = reasoning_events(before, index, parts.thought);
        let c = content_events(
            before,
            index,
            candidate_content(before, position, candidate),
            finish_of(candidate),
        );
        lemma_candidates_hand_out(st, front);
        lemma_parts_hand_out(before, index, parts_of(candidate));
        lemma_none_handed_out(r);
        lemma_none_handed_out(c);
        lemma_handed_out_concat(parts.events, r);
        lemma_handed_out_concat(parts.events + r, c);
        assert(handed_out(candidate_events(before, position, candidate)) =~= signatures_of(
            parts_of(candidate),
        ));
        lemma_handed_out_concat(
            candidates_events(st, front),
            candidate_events(before, position, candidate),
        );
    }
}

/// Every thought signature that comes in is handed out to be stored, in order.
pub proof fn law_chat_hands_out_signatures(st: ChatState, chunks: Seq<JsonView>)
    ensures
        handed_out(chunks_events(st, chunks)) == signatures_in(chunks),
    decreases chunks.len(),
{
    if chunks.len() > 0 {
        let front = chunks.drop_last();
        let before = after_chunks(st, front);
        law_chat_hands_out_signatures(st, front);
        lemma_candidates_hand_out(with_usage(before, chunks.last()), candidates_of(chunks.last()));
        lemma_handed_out_concat(chunks_events(st, front), chunk_events(before, chunks.last()));
    }
}

} // verus!
