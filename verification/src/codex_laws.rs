//! What holds of a response stream as a whole.
use vstd::prelude::*;

use crate::chat::{calls_after, lemma_signature_handed_out, signature_events};
use crate::codec::json_text;
use crate::codex::{
    call_item, closing_events, codex_after_chunk, codex_after_chunks, codex_after_parts,
    codex_chunk_events, codex_chunks_events, codex_completed, codex_failure, codex_next,
    codex_output, codex_start, completed_event, delta_event, item_event,
    item_events, lemma_chunks_ignore_buffer, message_event, CodexState,
};
use crate::events::{
    data, handed_out, lemma_handed_out_concat, lemma_none_handed_out, EventView, FailureView,
    UpstreamView,
};
use crate::gemini::{
    first_parts, first_signatures, first_texts, or_empty, parts_text, signatures_of,
};
use crate::json::JsonView;
use crate::reader::{law_pieces_make_whole, lemma_chunks_of_more, lines_of, rest_of};
use crate::text::straightened;
use crate::tool_calls::calls_differ;

verus! {

/// The state after all that happened.
pub open spec fn codex_run(st: CodexState, events: Seq<UpstreamView>) -> CodexState
    decreases events.len(),
{
    if events.len() == 0 {
        st
    } else {
        codex_next(codex_run(st, events.drop_last()), events.last())
    }
}

/// What the stream has done about all that happened.
pub open spec fn codex_sent(st: CodexState, events: Seq<UpstreamView>) -> Seq<EventView>
    decreases events.len(),
{
    if events.len() == 0 {
        Seq::empty()
    } else {
        codex_sent(st, events.drop_last()) + codex_output(
            codex_run(st, events.drop_last()),
            events.last(),
        )
    }
}

proof fn lemma_more_chunks(st: CodexState, chunks: Seq<JsonView>, more: Seq<JsonView>)
    ensures
        codex_after_chunks(st, chunks + more) == codex_after_chunks(
            codex_after_chunks(st, chunks),
            more,
        ),
        codex_chunks_events(st, chunks + more) == codex_chunks_events(st, chunks)
            + codex_chunks_events(codex_after_chunks(st, chunks), more),
    decreases more.len(),
{
    if more.len() == 0 {
        assert(chunks + more =~= chunks);
        assert(codex_chunks_events(st, chunks) + Seq::<EventView>::empty() =~= codex_chunks_events(
            st,
            chunks,
        ));
    } else {
        lemma_more_chunks(st, chunks, more.drop_last());
        assert((chunks + more).drop_last() =~= chunks + more.drop_last());
        assert(codex_chunks_events(st, chunks + more) =~= codex_chunks_events(st, chunks)
            + codex_chunks_events(codex_after_chunks(st, chunks), more));
    }
}

proof fn lemma_chunks_keep(st: CodexState, chunks: Seq<JsonView>)
    ensures
        codex_after_chunks(st, chunks).closed == st.closed,
        codex_after_chunks(st, chunks).id == st.id,
    decreases chunks.len(),
{
    if chunks.len() > 0 {
        lemma_chunks_keep(st, chunks.drop_last());
    }
}

/// Where the upstream bytes are cut makes no difference: two pieces, one after
/// the other, lead to the same state and the same events as the whole at once.
pub proof fn law_codex_ignores_cuts(st: CodexState, first: Seq<u8>, second: Seq<u8>)
    ensures
        codex_next(codex_next(st, UpstreamView::Bytes(first)), UpstreamView::Bytes(second))
            == codex_next(st, UpstreamView::Bytes(first + second)),
        codex_output(st, UpstreamView::Bytes(first)) + codex_output(
            codex_next(st, UpstreamView::Bytes(first)),
            UpstreamView::Bytes(second),
        ) == codex_output(st, UpstreamView::Bytes(first + second)),
{
    if st.closed {
        assert(Seq::<EventView>::empty() + Seq::<EventView>::empty() =~= Seq::empty());
    } else {
        let whole = st.buffer + first;
        assert(st.buffer + (first + second) =~= whole + second);
        law_pieces_make_whole(whole, second);
        lemma_chunks_of_more(lines_of(whole), lines_of(rest_of(whole) + second));
        let a = codex_completed(st, first);
        let mid = codex_next(st, UpstreamView::Bytes(first));
        let b = codex_completed(mid, second);
        lemma_chunks_keep(st, a);
        lemma_more_chunks(st, a, b);
        lemma_chunks_ignore_buffer(codex_after_chunks(st, a), rest_of(whole), b);
        lemma_chunks_keep(mid, b);
    }
}

/// Whether the event is one of this type, as a client reads it.
pub open spec fn has_type(event: EventView, kind: Seq<char>) -> bool {
    event is Data && event->Data_0.text_at("type"@) == Some(kind)
}

/// Whether none of the events is of this type.
pub open spec fn none_of_type(events: Seq<EventView>, kind: Seq<char>) -> bool {
    forall|i: int| 0 <= i < events.len() ==> !has_type(#[trigger] events[i], kind)
}

/// The text that the events pass on, put together.
pub open spec fn deltas(events: Seq<EventView>) -> Seq<char>
    decreases events.len(),
{
    if events.len() == 0 {
        Seq::empty()
    } else if has_type(events.last(), "response.output_text.delta"@) {
        deltas(events.drop_last()) + or_empty(events.last()->Data_0.text_at("delta"@))
    } else {
        deltas(events.drop_last())
    }
}

/// The items of all events of this type, in order.
pub open spec fn items(events: Seq<EventView>, kind: Seq<char>) -> Seq<Option<JsonView>>
    decreases events.len(),
{
    if events.len() == 0 {
        Seq::empty()
    } else if has_type(events.last(), kind) {
        items(events.drop_last(), kind).push(events.last()->Data_0.get("item"@))
    } else {
        items(events.drop_last(), kind)
    }
}

proof fn lemma_concat(a: Seq<EventView>, b: Seq<EventView>, kind: Seq<char>)
    ensures
        deltas(a + b) == deltas(a) + deltas(b),
        items(a + b, kind) == items(a, kind) + items(b, kind),
    decreases b.len(),
{
    if b.len() == 0 {
        assert(a + b =~= a);
        assert(deltas(a) + deltas(b) =~= deltas(a));
        assert(items(a, kind) + items(b, kind) =~= items(a, kind));
    } else {
        lemma_concat(a, b.drop_last(), kind);
        assert((a + b).drop_last() =~= a + b.drop_last());
        assert(deltas(a + b) =~= deltas(a) + deltas(b));
        assert(items(a + b, kind) =~= items(a, kind) + items(b, kind));
    }
}

proof fn lemma_one_event(event: EventView, kind: Seq<char>)
    ensures
        deltas(seq![event]) == (if has_type(event, "response.output_text.delta"@) {
            or_empty(event->Data_0.text_at("delta"@))
        } else {
            Seq::empty()
        }),
        items(seq![event], kind) == (if has_type(event, kind) {
            seq![event->Data_0.get("item"@)]
        } else {
            Seq::empty()
        }),
        deltas(Seq::<EventView>::empty()) == Seq::<char>::empty(),
        items(Seq::<EventView>::empty(), kind) == Seq::<Option<JsonView>>::empty(),
{
    assert(seq![event].drop_last() =~= Seq::empty());
    assert(seq![event].last() == event);
    reveal_with_fuel(deltas, 2);
    reveal_with_fuel(items, 2);
    assert(Seq::<char>::empty() + or_empty(event->Data_0.text_at("delta"@)) =~= or_empty(
        event->Data_0.text_at("delta"@),
    ));
    if has_type(event, kind) {
        assert(items(seq![event], kind) =~= seq![event->Data_0.get("item"@)]);
    }
}

/// The types of the events differ.
proof fn lemma_types_differ()
    ensures
        "response.output_item.added"@ != "response.output_item.done"@,
        "response.output_item.added"@ != "response.output_text.delta"@,
        "response.output_item.added"@ != "response.completed"@,
        "response.output_item.done"@ != "response.output_text.delta"@,
        "response.output_item.done"@ != "response.completed"@,
        "response.output_text.delta"@ != "response.completed"@,
        "error"@ != "response.output_item.added"@,
        "error"@ != "response.output_item.done"@,
        "error"@ != "response.output_text.delta"@,
        "error"@ != "response.completed"@,
{
    reveal_strlit("response.output_item.added");
    reveal_strlit("response.output_item.done");
    reveal_strlit("response.output_text.delta");
    reveal_strlit("response.completed");
    reveal_strlit("error");
    assert("response.output_item.added"@[16] == 'i');
    assert("response.output_text.delta"@[16] == 't');
    assert("response.output_item.added"@.len() == 26);
    assert("response.output_item.done"@.len() == 25);
    assert("response.completed"@.len() == 18);
    assert("error"@.len() == 5);
}

/// What a client reads of an event about an item.
proof fn lemma_item_event(kind: Seq<char>, item: JsonView)
    ensures
        item_event(kind, item).text_at("type"@) == Some(kind),
        item_event(kind, item).get("item"@) == Some(item),
{
    reveal_strlit("type");
    reveal_strlit("item");
    assert("type"@[0] == 't' && "item"@[0] == 'i');
}

/// What a client reads of an event that passes on text.
proof fn lemma_delta_event(delta: Seq<char>)
    ensures
        delta_event(delta).text_at("type"@) == Some("response.output_text.delta"@),
        delta_event(delta).text_at("delta"@) == Some(delta),
{
    reveal_strlit("type");
    reveal_strlit("delta");
    assert("type"@.len() == 4 && "delta"@.len() == 5);
}

/// What a client reads of an event that tells of a failure.
proof fn lemma_failure_event(failure: FailureView)
    ensures
        codex_failure(failure).text_at("type"@) == Some("error"@),
{
    reveal_strlit("type");
    reveal_strlit("error");
    assert("type"@.len() == 4 && "error"@.len() == 5);
}

/// What a client reads of the events of the end.
proof fn lemma_closing_events(st: CodexState)
    ensures
        message_event(st.content).text_at("type"@) == Some("response.output_item.done"@),
        completed_event(st).text_at("type"@) == Some("response.completed"@),
{
    reveal_strlit("type");
    reveal_strlit("item");
    reveal_strlit("response");
    assert("type"@[0] == 't' && "item"@[0] == 'i');
    assert("type"@.len() == 4 && "response"@.len() == 8);
}

/// What the events of open streams do: they pass on the text that the state
/// notes, they add and finish an item for each call that the state lists anew,
/// and they do not say that the response is complete.
spec fn keeps_account(before: CodexState, events: Seq<EventView>, after: CodexState) -> bool {
    &&& after.content == before.content + deltas(events)
    &&& items(events, "response.output_item.added"@) == items(
        events,
        "response.output_item.done"@,
    )
    &&& after.calls.len() == before.calls.len() + items(
        events,
        "response.output_item.added"@,
    ).len()
    &&& calls_differ(before.calls) ==> calls_differ(after.calls)
    &&& none_of_type(events, "response.completed"@)
}

proof fn lemma_account_goes_on(
    a: CodexState,
    first: Seq<EventView>,
    b: CodexState,
    second: Seq<EventView>,
    c: CodexState,
)
    requires
        keeps_account(a, first, b),
        keeps_account(b, second, c),
    ensures
        keeps_account(a, first + second, c),
{
    lemma_concat(first, second, "response.output_item.added"@);
    lemma_concat(first, second, "response.output_item.done"@);
    assert(a.content + (deltas(first) + deltas(second)) =~= a.content + deltas(first) + deltas(
        second,
    ));
}

proof fn lemma_nothing_sent(st: CodexState)
    ensures
        keeps_account(st, Seq::empty(), st),
{
    lemma_one_event(EventView::Done, "response.output_item.added"@);
    lemma_one_event(EventView::Done, "response.output_item.done"@);
    assert(st.content + Seq::<char>::empty() =~= st.content);
}

proof fn lemma_signature_account(st: CodexState, part: JsonView)
    ensures
        keeps_account(st, signature_events(part), st),
{
    lemma_nothing_sent(st);
    if signature_events(part).len() > 0 {
        let event = signature_events(part)[0];
        lemma_one_event(event, "response.output_item.added"@);
        lemma_one_event(event, "response.output_item.done"@);
    }
}

proof fn lemma_call_account(st: CodexState, part: JsonView)
    ensures
        keeps_account(
            st,
            item_events(st.calls, part),
            (CodexState { calls: calls_after(st.calls, part), ..st }),
        ),
{
    lemma_nothing_sent(st);
    if item_events(st.calls, part).len() > 0 {
        let call = part.get("functionCall"@)->0;
        let item = call_item(call);
        let calls = st.calls.push(json_text(call));
        let added = data(item_event("response.output_item.added"@, item));
        let done = data(item_event("response.output_item.done"@, item));
        lemma_types_differ();
        lemma_item_event("response.output_item.added"@, item);
        lemma_item_event("response.output_item.done"@, item);
        lemma_one_event(added, "response.output_item.added"@);
        lemma_one_event(added, "response.output_item.done"@);
        lemma_one_event(done, "response.output_item.added"@);
        lemma_one_event(done, "response.output_item.done"@);
        lemma_concat(seq![added], seq![done], "response.output_item.added"@);
        lemma_concat(seq![added], seq![done], "response.output_item.done"@);
        assert(item_events(st.calls, part) =~= seq![added] + seq![done]);
        assert(items(seq![added] + seq![done], "response.output_item.added"@) =~= seq![Some(item)]);
        assert(items(seq![added] + seq![done], "response.output_item.done"@) =~= seq![Some(item)]);
        assert(deltas(seq![added] + seq![done]) =~= Seq::empty());
        if calls_differ(st.calls) {
            assert forall|i: int, j: int| 0 <= i < j < calls.len() implies #[trigger] calls[i]
                != #[trigger] calls[j] by {
                assert(calls[i] == st.calls[i]);
                assert(st.calls.contains(st.calls[i]));
                if j < st.calls.len() {
                    assert(st.calls[i] != st.calls[j]);
                }
            }
        }
    }
}

proof fn lemma_parts_account(st: CodexState, parts: Seq<JsonView>)
    ensures
        keeps_account(
            st,
            codex_after_parts(st.calls, parts).events,
            (CodexState { calls: codex_after_parts(st.calls, parts).calls, ..st }),
        ),
    decreases parts.len(),
{
    if parts.len() == 0 {
        lemma_nothing_sent(st);
    } else {
        let acc = codex_after_parts(st.calls, parts.drop_last());
        let before = CodexState { calls: acc.calls, ..st };
        let after = CodexState { calls: codex_after_parts(st.calls, parts).calls, ..st };
        let part = parts.last();
        lemma_parts_account(st, parts.drop_last());
        lemma_signature_account(before, part);
        lemma_call_account(before, part);
        lemma_account_goes_on(st, acc.events, before, signature_events(part), before);
        lemma_account_goes_on(
            st,
            acc.events + signature_events(part),
            before,
            item_events(acc.calls, part),
            after,
        );
    }
}

proof fn lemma_chunk_account(st: CodexState, chunk: JsonView)
    ensures
        keeps_account(st, codex_chunk_events(st, chunk), codex_after_chunk(st, chunk)),
{
    let parts = codex_after_parts(st.calls, first_parts(chunk));
    let before = CodexState { calls: parts.calls, ..st };
    let after = codex_after_chunk(st, chunk);
    lemma_parts_account(st, first_parts(chunk));
    if parts.delta.len() == 0 {
        assert(parts.delta =~= Seq::empty());
        assert(st.content + parts.delta =~= st.content);
    } else {
        let event = data(delta_event(parts.delta));
        lemma_types_differ();
        lemma_delta_event(parts.delta);
        lemma_one_event(event, "response.output_item.added"@);
        lemma_one_event(event, "response.output_item.done"@);
        assert(keeps_account(before, seq![event], after));
        lemma_account_goes_on(st, parts.events, before, seq![event], after);
        assert(parts.events.push(event) =~= parts.events + seq![event]);
    }
}

proof fn lemma_chunks_account(st: CodexState, chunks: Seq<JsonView>)
    ensures
        keeps_account(st, codex_chunks_events(st, chunks), codex_after_chunks(st, chunks)),
    decreases chunks.len(),
{
    if chunks.len() == 0 {
        lemma_nothing_sent(st);
    } else {
        let front = chunks.drop_last();
        let before = codex_after_chunks(st, front);
        lemma_chunks_account(st, front);
        lemma_chunk_account(before, chunks.last());
        lemma_account_goes_on(
            st,
            codex_chunks_events(st, front),
            before,
            codex_chunk_events(before, chunks.last()),
            codex_after_chunks(st, chunks),
        );
    }
}

/// Before a stream closes, all that it sends keeps account.
proof fn lemma_told_account(st: CodexState, event: UpstreamView)
    requires
        !st.closed,
    ensures
        ({
            let after = codex_next(st, event);
            let out = codex_output(st, event);
            let told = if after.closed {
                out.take(out.len() - 2)
            } else {
                out
            };
            &&& keeps_account(st, told, after)
            &&& after.id == st.id
            &&& after.closed ==> out.len() >= 2 && out == told + closing_events(after)
        }),
{
    let after = codex_next(st, event);
    let out = codex_output(st, event);
    match event {
        UpstreamView::Bytes(bytes) => {
            lemma_chunks_account(st, codex_completed(st, bytes));
            lemma_chunks_keep(st, codex_completed(st, bytes));
        },
        UpstreamView::Failed(failure) => {
            let told = data(codex_failure(failure));
            assert(out.take(out.len() - 2) =~= seq![told]);
            lemma_types_differ();
            lemma_failure_event(failure);
            lemma_one_event(told, "response.output_item.added"@);
            lemma_one_event(told, "response.output_item.done"@);
            assert(st.content + Seq::<char>::empty() =~= st.content);
            assert(closing_events(after) =~= closing_events(st));
        },
        UpstreamView::Ended => {
            assert(out.take(out.len() - 2) =~= Seq::empty());
            assert(out =~= Seq::<EventView>::empty() + closing_events(st));
            lemma_nothing_sent(st);
        },
        UpstreamView::Tick => {
            lemma_nothing_sent(st);
            lemma_one_event(EventView::Ping, "response.output_item.added"@);
            lemma_one_event(EventView::Ping, "response.output_item.done"@);
        },
    }
}

/// What a stream has sent, without the events of the end.
pub open spec fn before_the_end(st: CodexState, events: Seq<UpstreamView>) -> Seq<EventView> {
    let sent = codex_sent(st, events);
    if codex_run(st, events).closed {
        sent.take(sent.len() - 2)
    } else {
        sent
    }
}

proof fn lemma_run_account(st: CodexState, events: Seq<UpstreamView>)
    requires
        !st.closed,
    ensures
        ({
            let after = codex_run(st, events);
            &&& keeps_account(st, before_the_end(st, events), after)
            &&& after.id == st.id
            &&& after.closed ==> codex_sent(st, events).len() >= 2 && codex_sent(st, events)
                == before_the_end(st, events) + closing_events(after)
        }),
    decreases events.len(),
{
    if events.len() == 0 {
        lemma_nothing_sent(st);
    } else {
        let front = events.drop_last();
        let mid = codex_run(st, front);
        let after = codex_run(st, events);
        let sent = codex_sent(st, front);
        let out = codex_output(mid, events.last());
        lemma_run_account(st, front);
        if mid.closed {
            assert(sent + out =~= sent);
        } else {
            lemma_told_account(mid, events.last());
            let told = if after.closed {
                out.take(out.len() - 2)
            } else {
                out
            };
            lemma_account_goes_on(st, sent, mid, told, after);
            if after.closed {
                assert((sent + out).take((sent + out).len() - 2) =~= sent + told);
                assert(sent + out =~= (sent + told) + closing_events(after));
            }
        }
    }
}

/// Whatever happens to a stream, it says that the response is complete at most
/// once: not before it is at its end, and then as the last it sends.
pub proof fn law_codex_completes_once(st: CodexState, events: Seq<UpstreamView>)
    requires
        !st.closed,
    ensures
        ({
            let after = codex_run(st, events);
            let sent = codex_sent(st, events);
            &&& !after.closed ==> none_of_type(sent, "response.completed"@)
            &&& after.closed ==> {
                &&& sent.len() > 0
                &&& sent.last() == data(completed_event(after))
                &&& has_type(sent.last(), "response.completed"@)
                &&& none_of_type(sent.drop_last(), "response.completed"@)
            }
        }),
{
    let after = codex_run(st, events);
    let sent = codex_sent(st, events);
    lemma_run_account(st, events);
    if after.closed {
        let told = before_the_end(st, events);
        lemma_types_differ();
        lemma_closing_events(after);
        assert(sent.drop_last() =~= told.push(data(message_event(after.content))));
    }
}

/// The message at the end of a stream is all the text that the stream has passed
/// on before, no less and no more.
pub proof fn law_codex_message_is_what_was_sent(id: Seq<char>, events: Seq<UpstreamView>)
    ensures
        ({
            let st = codex_start(id);
            let told = before_the_end(st, events);
            &&& codex_run(st, events).content == deltas(told)
            &&& codex_run(st, events).closed ==> {
                let sent = codex_sent(st, events);
                sent.len() >= 2 && sent[sent.len() - 2] == data(message_event(deltas(told)))
            }
        }),
{
    let st = codex_start(id);
    lemma_run_account(st, events);
    assert(Seq::<char>::empty() + deltas(before_the_end(st, events)) =~= deltas(
        before_the_end(st, events),
    ));
}

/// Every item that a stream adds it also finishes, in the same order. The items
/// are as many as the calls that the stream has listed, and no call is listed
/// twice.
pub proof fn law_codex_items_are_finished(id: Seq<char>, events: Seq<UpstreamView>)
    ensures
        ({
            let st = codex_start(id);
            let told = before_the_end(st, events);
            let calls = codex_run(st, events).calls;
            &&& items(told, "response.output_item.added"@) == items(
                told,
                "response.output_item.done"@,
            )
            &&& items(told, "response.output_item.added"@).len() == calls.len()
            &&& calls_differ(calls)
        }),
{
    lemma_run_account(codex_start(id), events);
}

/// A stream that is at its end does nothing more.
pub proof fn law_codex_closed_is_silent(st: CodexState, event: UpstreamView)
    requires
        st.closed,
    ensures
        codex_next(st, event) == st,
        codex_output(st, event) == Seq::<EventView>::empty(),
{
}

/// A failure and the end close a stream, and nothing else does.
pub proof fn law_codex_closes_at_the_end(st: CodexState, event: UpstreamView)
    ensures
        codex_next(st, event).closed <==> st.closed || event is Failed || event is Ended,
{
    match event {
        UpstreamView::Bytes(bytes) => {
            lemma_chunks_keep(st, codex_completed(st, bytes));
        },
        _ => {},
    }
}

proof fn lemma_parts_delta(calls: Seq<Seq<char>>, parts: Seq<JsonView>)
    ensures
        codex_after_parts(calls, parts).delta == straightened(parts_text(parts)),
    decreases parts.len(),
{
    if parts.len() == 0 {
        assert(straightened(parts_text(parts)) =~= Seq::empty());
    } else {
        lemma_parts_delta(calls, parts.drop_last());
        assert(straightened(parts_text(parts)) =~= straightened(parts_text(parts.drop_last()))
            + straightened(or_empty(parts.last().text_at("text"@))));
    }
}

/// Nothing that the first candidates say is lost, and nothing is added to it or
/// sent twice: a client that puts the deltas together has all of it, in order,
/// with straight quotation marks.
pub proof fn law_codex_says_what_came_in(st: CodexState, chunks: Seq<JsonView>)
    ensures
        deltas(codex_chunks_events(st, chunks)) == straightened(first_texts(chunks)),
        codex_after_chunks(st, chunks).content == st.content + straightened(first_texts(chunks)),
    decreases chunks.len(),
{
    if chunks.len() == 0 {
        assert(straightened(first_texts(chunks)) =~= Seq::empty());
        assert(st.content + Seq::<char>::empty() =~= st.content);
    } else {
        let front = chunks.drop_last();
        let before = codex_after_chunks(st, front);
        let text = parts_text(first_parts(chunks.last()));
        let events = codex_chunk_events(before, chunks.last());
        law_codex_says_what_came_in(st, front);
        lemma_parts_delta(before.calls, first_parts(chunks.last()));
        lemma_chunk_account(before, chunks.last());
        assert(before.content + straightened(text) == before.content + deltas(events));
        lemma_same_rest(before.content, straightened(text), deltas(events));
        lemma_concat(codex_chunks_events(st, front), events, "response.output_item.done"@);
        assert(straightened(first_texts(chunks)) =~= straightened(first_texts(front))
            + straightened(text));
        assert(st.content + straightened(first_texts(chunks)) =~= st.content + straightened(
            first_texts(front),
        ) + straightened(text));
    }
}

proof fn lemma_same_rest(a: Seq<char>, b: Seq<char>, c: Seq<char>)
    requires
        a + b == a + c,
    ensures
        b == c,
{
    assert(b =~= (a + b).skip(a.len() as int));
    assert(c =~= (a + c).skip(a.len() as int));
}

proof fn lemma_parts_hand_out(calls: Seq<Seq<char>>, parts: Seq<JsonView>)
    ensures
        handed_out(codex_after_parts(calls, parts).events) == signatures_of(parts),
    decreases parts.len(),
{
    if parts.len() > 0 {
        let acc = codex_after_parts(calls, parts.drop_last());
        let signatures = signature_events(parts.last());
        let made = item_events(acc.calls, parts.last());
        lemma_parts_hand_out(calls, parts.drop_last());
        lemma_signature_handed_out(parts);
        lemma_none_handed_out(made);
        lemma_handed_out_concat(acc.events, signatures);
        lemma_handed_out_concat(acc.events + signatures, made);
        assert(signatures_of(parts) + Seq::<Seq<char>>::empty() =~= signatures_of(parts));
    }
}

/// Every thought signature that comes in with a first candidate is handed out to
/// be stored, in order.
pub proof fn law_codex_hands_out_signatures(st: CodexState, chunks: Seq<JsonView>)
    ensures
        handed_out(codex_chunks_events(st, chunks)) == first_signatures(chunks),
    decreases chunks.len(),
{
    if chunks.len() > 0 {
        let front = chunks.drop_last();
        let before = codex_after_chunks(st, front);
        let parts = codex_after_parts(before.calls, first_parts(chunks.last()));
        let events = codex_chunk_events(before, chunks.last());
        law_codex_hands_out_signatures(st, front);
        lemma_parts_hand_out(before.calls, first_parts(chunks.last()));
        if parts.delta.len() > 0 {
            assert(events.drop_last() =~= parts.events);
        }
        lemma_handed_out_concat(codex_chunks_events(st, front), events);
    }
}

} // verus!
