//! A Gemini stream as a stream of OpenAI text completion chunks.
use vstd::prelude::*;
use vstd::string::StringExecFns;

use crate::chat::{
    empty_array, failure_body, failure_json, json_text_or_null, lemma_signature_handed_out,
    signature_events, text_or_null,
};
use crate::chat_laws::{first_of, none_done};
use crate::events::{
    data, emit, event_views, handed_out, lemma_handed_out_concat, EventView, FailureView,
    StreamEvent, Upstream, UpstreamView,
};
use crate::gemini::{
    first_finish_reason, first_parts, first_signatures, first_texts, map_text_finish_reason,
    or_empty, parts_text, read_first_candidate, read_parts, read_signature, signatures_of,
    text_finish_reason,
};
use crate::ids::{new_random_id, random_id, unix_seconds};
use crate::json::{items_view, lemma_next_item, Json, JsonView};
use crate::reader::{
    chunks_of, law_pieces_make_whole, lemma_chunks_of_more, lines_of, rest_of, ChunkReader,
};
use crate::usage::{extract_usage_metadata, usage_of, OpenAIUsage};

verus! {

/// The state of a text completion stream.
pub struct LegacyState {
    pub id: Seq<char>,
    pub created: int,
    pub model: Seq<char>,
    /// The start of a line that is not complete.
    pub buffer: Seq<u8>,
    /// The usage that goes along with the next chunk.
    pub usage: Option<OpenAIUsage>,
    /// Whether the stream is at its end.
    pub closed: bool,
}

/// The state of a stream that has seen nothing.
pub open spec fn legacy_start(id: Seq<char>, created: int, model: Seq<char>) -> LegacyState {
    LegacyState { id, created, model, buffer: Seq::empty(), usage: None, closed: false }
}

/// The members that every chunk of a stream begins with.
pub open spec fn legacy_head(st: LegacyState) -> JsonView {
    JsonView::object().with("id"@, JsonView::Text(st.id)).with(
        "object"@,
        JsonView::Text("text_completion"@),
    ).with("created"@, JsonView::integer(st.created)).with("model"@, JsonView::Text(st.model))
}

/// A chunk with one choice.
pub open spec fn legacy_chunk(
    st: LegacyState,
    text: Seq<char>,
    finish: Option<Seq<char>>,
) -> JsonView {
    let choice = JsonView::object().with("text"@, JsonView::Text(text)).with(
        "index"@,
        JsonView::integer(0),
    ).with("logprobs"@, JsonView::Null).with("finish_reason"@, text_or_null(finish));
    legacy_head(st).with("choices"@, JsonView::Array(seq![choice]))
}

/// The events of the thought signatures in the parts.
pub open spec fn signatures_events(parts: Seq<JsonView>) -> Seq<EventView>
    decreases parts.len(),
{
    if parts.len() == 0 {
        Seq::empty()
    } else {
        signatures_events(parts.drop_last()) + signature_events(parts.last())
    }
}

/// How a chunk says that its first candidate is at its end.
pub open spec fn legacy_finish(chunk: JsonView) -> Option<Seq<char>> {
    match first_finish_reason(chunk) {
        Some(reason) => Some(text_finish_reason(reason)),
        None => None,
    }
}

/// The usage once that in a chunk is noted.
pub open spec fn noted_usage(st: LegacyState, chunk: JsonView) -> Option<OpenAIUsage> {
    match chunk.get("usageMetadata"@) {
        Some(u) => Some(usage_of(u)),
        None => st.usage,
    }
}

/// The events of a chunk: its signatures, then the text of its first candidate.
pub open spec fn legacy_chunk_events(st: LegacyState, chunk: JsonView) -> Seq<EventView> {
    let parts = first_parts(chunk);
    signatures_events(parts).push(
        EventView::Data(
            legacy_chunk(st, parts_text(parts), legacy_finish(chunk)),
            noted_usage(st, chunk),
        ),
    )
}

/// The state after a chunk: with the last text the usage is used up.
pub open spec fn legacy_after_chunk(st: LegacyState, chunk: JsonView) -> LegacyState {
    LegacyState {
        usage: if legacy_finish(chunk) is Some {
            None
        } else {
            noted_usage(st, chunk)
        },
        ..st
    }
}

/// The state after these chunks.
pub open spec fn legacy_after_chunks(st: LegacyState, chunks: Seq<JsonView>) -> LegacyState
    decreases chunks.len(),
{
    if chunks.len() == 0 {
        st
    } else {
        legacy_after_chunk(legacy_after_chunks(st, chunks.drop_last()), chunks.last())
    }
}

/// The events of these chunks.
pub open spec fn legacy_chunks_events(st: LegacyState, chunks: Seq<JsonView>) -> Seq<EventView>
    decreases chunks.len(),
{
    if chunks.len() == 0 {
        Seq::empty()
    } else {
        legacy_chunks_events(st, chunks.drop_last()) + legacy_chunk_events(
            legacy_after_chunks(st, chunks.drop_last()),
            chunks.last(),
        )
    }
}

/// The chunk that tells of a failure.
pub open spec fn legacy_failure(st: LegacyState, failure: FailureView) -> JsonView {
    legacy_head(st).with("choices"@, JsonView::Array(Seq::empty())).with(
        "error"@,
        failure_body(failure),
    )
}

/// The chunks that become complete with these bytes.
pub open spec fn legacy_completed(st: LegacyState, bytes: Seq<u8>) -> Seq<JsonView> {
    chunks_of(lines_of(st.buffer + bytes))
}

/// The state with another start of a line.
pub open spec fn legacy_rebuffered(st: LegacyState, buffer: Seq<u8>) -> LegacyState {
    LegacyState { buffer, ..st }
}

/// The state after something happened. A stream at its end stays as it is.
pub open spec fn legacy_next(st: LegacyState, event: UpstreamView) -> LegacyState {
    if st.closed {
        st
    } else {
        match event {
            UpstreamView::Bytes(bytes) => legacy_rebuffered(
                legacy_after_chunks(st, legacy_completed(st, bytes)),
                rest_of(st.buffer + bytes),
            ),
            UpstreamView::Failed(_) => LegacyState { closed: true, ..st },
            UpstreamView::Ended => LegacyState { closed: true, ..st },
            UpstreamView::Tick => st,
        }
    }
}

/// What a stream does when something happens. A failure and the end close it,
/// each with the mark of the end.
pub open spec fn legacy_output(st: LegacyState, event: UpstreamView) -> Seq<EventView> {
    if st.closed {
        Seq::empty()
    } else {
        match event {
            UpstreamView::Bytes(bytes) => legacy_chunks_events(st, legacy_completed(st, bytes)),
            UpstreamView::Failed(failure) => seq![
                data(legacy_failure(st, failure)),
                EventView::Done,
            ],
            UpstreamView::Ended => seq![EventView::Done],
            UpstreamView::Tick => seq![EventView::Ping],
        }
    }
}

proof fn lemma_chunks_ignore_buffer(st: LegacyState, buffer: Seq<u8>, chunks: Seq<JsonView>)
    ensures
        legacy_after_chunks(legacy_rebuffered(st, buffer), chunks) == legacy_rebuffered(
            legacy_after_chunks(st, chunks),
            buffer,
        ),
        legacy_chunks_events(legacy_rebuffered(st, buffer), chunks) == legacy_chunks_events(
            st,
            chunks,
        ),
    decreases chunks.len(),
{
    if chunks.len() > 0 {
        lemma_chunks_ignore_buffer(st, buffer, chunks.drop_last());
    }
}

/// Makes OpenAI text completion chunks out of a Gemini stream.
pub struct LegacyStream {
    id: String,
    created: i64,
    model: String,
    reader: ChunkReader,
    usage: Option<OpenAIUsage>,
    closed: bool,
}

impl View for LegacyStream {
    type V = LegacyState;

    closed spec fn view(&self) -> LegacyState {
        LegacyState {
            id: self.id@,
            created: self.created as int,
            model: self.model@,
            buffer: self.reader@,
            usage: self.usage,
            closed: self.closed,
        }
    }
}

/// Begins a text completion stream for the model, under a new id of 28 random
/// characters and at the present time.
pub fn create_legacy_sse_stream(model: String) -> (r: LegacyStream)
    ensures
        r@ == legacy_start(r@.id, r@.created, model@),
        random_id(r@.id, "cmpl-"@, 28),
{
    let id = new_random_id("cmpl-", 28);
    let created = unix_seconds();
    LegacyStream::new(id, created, model)
}

impl LegacyStream {
    /// A stream that has seen nothing.
    pub fn new(id: String, created: i64, model: String) -> (r: LegacyStream)
        ensures
            r@ == legacy_start(id@, created as int, model@),
    {
        LegacyStream { id, created, model, reader: ChunkReader::new(), usage: None, closed: false }
    }

    /// Whether the stream is at its end.
    pub fn is_closed(&self) -> (r: bool)
        ensures
            r == self@.closed,
    {
        self.closed
    }

    fn head(&self) -> (r: Json)
        ensures
            r@ == legacy_head(self@),
    {
        Json::object().with("id", Json::text(self.id.as_str())).with(
            "object",
            Json::text("text_completion"),
        ).with("created", Json::Signed(self.created)).with("model", Json::text(self.model.as_str()))
    }

    /// Takes in a chunk: notes its usage, passes its signatures and its text on.
    pub fn take_chunk(&mut self, chunk: &Json, out: &mut Vec<StreamEvent>)
        ensures
            final(self)@ == legacy_after_chunk(old(self)@, chunk@),
            event_views(final(out)@) == event_views(old(out)@) + legacy_chunk_events(
                old(self)@,
                chunk@,
            ),
    {
        let ghost st = self@;
        let ghost sent = event_views(out@);
        match chunk.get("usageMetadata") {
            Some(u) => {
                self.usage = extract_usage_metadata(u);
            },
            None => {},
        }
        let mut text = String::new();
        let mut finish: Option<String> = None;
        assert(sent + Seq::<EventView>::empty() =~= sent);
        match read_first_candidate(chunk) {
            Some(candidate) => {
                match read_parts(candidate) {
                    Some(parts) => {
                        let mut i: usize = 0;
                        assert(items_view(parts@.take(0)) =~= Seq::empty());
                        while i < parts.len()
                            invariant
                                i <= parts@.len(),
                                text@ == parts_text(items_view(parts@.take(i as int))),
                                event_views(out@) == sent + signatures_events(
                                    items_view(parts@.take(i as int)),
                                ),
                            decreases parts.len() - i,
                        {
                            proof {
                                lemma_next_item(parts@, i as int);
                            }
                            match parts[i].text_at("text") {
                                Some(t) => {
                                    text.append(t);
                                },
                                None => {},
                            }
                            assert(text@ =~= parts_text(items_view(parts@.take(i + 1))));
                            match read_signature(&parts[i]) {
                                Some(sig) => {
                                    emit(out, StreamEvent::Signature(sig.to_owned()));
                                },
                                None => {},
                            }
                            assert(event_views(out@) =~= sent + signatures_events(
                                items_view(parts@.take(i + 1)),
                            ));
                            i = i + 1;
                        }
                        assert(parts@.take(i as int) =~= parts@);
                    },
                    None => {},
                }
                finish =
                match candidate.text_at("finishReason") {
                    Some(reason) => Some(map_text_finish_reason(reason)),
                    None => None,
                };
            },
            None => {},
        }
        let choice = Json::object().with("text", Json::Text(text)).with(
            "index",
            Json::Unsigned(0),
        ).with("logprobs", Json::Null).with("finish_reason", json_text_or_null(&finish));
        let body = self.head().with("choices", Json::array_of(choice));
        emit(out, StreamEvent::Data { body, usage: self.usage });
        if finish.is_some() {
            self.usage = None;
        }
        assert(event_views(out@) =~= sent + legacy_chunk_events(st, chunk@));
    }

    /// Takes in what happened and says what to do, in order.
    pub fn step(&mut self, event: Upstream) -> (r: Vec<StreamEvent>)
        ensures
            final(self)@ == legacy_next(old(self)@, event@),
            event_views(r@) == legacy_output(old(self)@, event@),
    {
        let mut out: Vec<StreamEvent> = Vec::new();
        let ghost st = self@;
        assert(event_views(out@) =~= Seq::empty());
        if self.closed {
            return out;
        }
        match event {
            Upstream::Bytes(bytes) => {
                let chunks = self.reader.push(bytes.as_slice());
                let mut i: usize = 0;
                assert(items_view(chunks@.take(0)) =~= Seq::empty());
                while i < chunks.len()
                    invariant
                        i <= chunks@.len(),
                        self@ == legacy_rebuffered(
                            legacy_after_chunks(st, items_view(chunks@.take(i as int))),
                            rest_of(st.buffer + bytes@),
                        ),
                        event_views(out@) == legacy_chunks_events(
                            st,
                            items_view(chunks@.take(i as int)),
                        ),
                    decreases chunks.len() - i,
                {
                    proof {
                        lemma_next_item(chunks@, i as int);
                    }
                    self.take_chunk(&chunks[i], &mut out);
                    i = i + 1;
                }
                assert(chunks@.take(i as int) =~= chunks@);
            },
            Upstream::Failed(failure) => {
                let body = self.head().with("choices", empty_array()).with(
                    "error",
                    failure_json(&failure),
                );
                emit(&mut out, StreamEvent::Data { body, usage: None });
                emit(&mut out, StreamEvent::Done);
                self.closed = true;
                assert(event_views(out@) =~= legacy_output(st, event@));
            },
            Upstream::Ended => {
                emit(&mut out, StreamEvent::Done);
                self.closed = true;
                assert(event_views(out@) =~= legacy_output(st, event@));
            },
            Upstream::Tick => {
                emit(&mut out, StreamEvent::Ping);
                assert(event_views(out@) =~= legacy_output(st, event@));
            },
        }
        out
    }
}

/// The state after all that happened.
pub open spec fn legacy_run(st: LegacyState, events: Seq<UpstreamView>) -> LegacyState
    decreases events.len(),
{
    if events.len() == 0 {
        st
    } else {
        legacy_next(legacy_run(st, events.drop_last()), events.last())
    }
}

/// What the stream has done about all that happened.
pub open spec fn legacy_sent(st: LegacyState, events: Seq<UpstreamView>) -> Seq<EventView>
    decreases events.len(),
{
    if events.len() == 0 {
        Seq::empty()
    } else {
        legacy_sent(st, events.drop_last()) + legacy_output(
            legacy_run(st, events.drop_last()),
            events.last(),
        )
    }
}

proof fn lemma_more_chunks(st: LegacyState, chunks: Seq<JsonView>, more: Seq<JsonView>)
    ensures
        legacy_after_chunks(st, chunks + more) == legacy_after_chunks(
            legacy_after_chunks(st, chunks),
            more,
        ),
        legacy_chunks_events(st, chunks + more) == legacy_chunks_events(st, chunks)
            + legacy_chunks_events(legacy_after_chunks(st, chunks), more),
    decreases more.len(),
{
    if more.len() == 0 {
        assert(chunks + more =~= chunks);
        assert(legacy_chunks_events(st, chunks) + Seq::<EventView>::empty()
            =~= legacy_chunks_events(st, chunks));
    } else {
        lemma_more_chunks(st, chunks, more.drop_last());
        assert((chunks + more).drop_last() =~= chunks + more.drop_last());
        assert(legacy_chunks_events(st, chunks + more) =~= legacy_chunks_events(st, chunks)
            + legacy_chunks_events(legacy_after_chunks(st, chunks), more));
    }
}

proof fn lemma_closed_kept(st: LegacyState, chunks: Seq<JsonView>)
    ensures
        legacy_after_chunks(st, chunks).closed == st.closed,
    decreases chunks.len(),
{
    if chunks.len() > 0 {
        lemma_closed_kept(st, chunks.drop_last());
    }
}

/// Where the upstream bytes are cut makes no difference: two pieces, one after
/// the other, lead to the same state and the same events as the whole at once.
pub proof fn law_legacy_ignores_cuts(st: LegacyState, first: Seq<u8>, second: Seq<u8>)
    ensures
        legacy_next(legacy_next(st, UpstreamView::Bytes(first)), UpstreamView::Bytes(second))
            == legacy_next(st, UpstreamView::Bytes(first + second)),
        legacy_output(st, UpstreamView::Bytes(first)) + legacy_output(
            legacy_next(st, UpstreamView::Bytes(first)),
            UpstreamView::Bytes(second),
        ) == legacy_output(st, UpstreamView::Bytes(first + second)),
{
    if st.closed {
        assert(Seq::<EventView>::empty() + Seq::<EventView>::empty() =~= Seq::empty());
    } else {
        let whole = st.buffer + first;
        assert(st.buffer + (first + second) =~= whole + second);
        law_pieces_make_whole(whole, second);
        lemma_chunks_of_more(lines_of(whole), lines_of(rest_of(whole) + second));
        let a = legacy_completed(st, first);
        let mid = legacy_next(st, UpstreamView::Bytes(first));
        let b = legacy_completed(mid, second);
        lemma_closed_kept(st, a);
        lemma_more_chunks(st, a, b);
        lemma_chunks_ignore_buffer(legacy_after_chunks(st, a), rest_of(whole), b);
        lemma_closed_kept(mid, b);
    }
}

proof fn lemma_signatures_none_done(parts: Seq<JsonView>)
    ensures
        none_done(signatures_events(parts)),
    decreases parts.len(),
{
    if parts.len() > 0 {
        lemma_signatures_none_done(parts.drop_last());
    }
}

proof fn lemma_chunks_none_done(st: LegacyState, chunks: Seq<JsonView>)
    ensures
        none_done(legacy_chunks_events(st, chunks)),
    decreases chunks.len(),
{
    if chunks.len() > 0 {
        lemma_chunks_none_done(st, chunks.drop_last());
        lemma_signatures_none_done(first_parts(chunks.last()));
    }
}

/// Whatever happens to a stream, it sends the mark of the end at most once: not
/// before it is at its end, and then as the last it sends.
pub proof fn law_legacy_one_done(st: LegacyState, events: Seq<UpstreamView>)
    requires
        !st.closed,
    ensures
        !legacy_run(st, events).closed ==> none_done(legacy_sent(st, events)),
        legacy_run(st, events).closed ==> {
            let sent = legacy_sent(st, events);
            sent.len() > 0 && sent.last() == EventView::Done && none_done(sent.drop_last())
        },
    decreases events.len(),
{
    if events.len() > 0 {
        let front = events.drop_last();
        law_legacy_one_done(st, front);
        let before = legacy_run(st, front);
        let sent = legacy_sent(st, front);
        let out = legacy_output(before, events.last());
        if before.closed {
            assert(sent + out =~= sent);
        } else {
            match events.last() {
                UpstreamView::Bytes(bytes) => {
                    lemma_chunks_none_done(before, legacy_completed(before, bytes));
                    lemma_closed_kept(before, legacy_completed(before, bytes));
                },
                UpstreamView::Failed(_) => {
                    assert((sent + out).drop_last() =~= sent + out.drop_last());
                },
                UpstreamView::Ended => {
                    assert((sent + out).drop_last() =~= sent);
                },
                UpstreamView::Tick => {},
            }
        }
    }
}

/// A usage goes along with each chunk until one says that it is the last; then
/// it is used up, and the chunks that follow have none until a new one comes.
pub proof fn law_legacy_usage_goes_with_the_end(st: LegacyState, last: JsonView, next: JsonView)
    requires
        legacy_finish(last) is Some,
        next.get("usageMetadata"@) is None,
    ensures
        legacy_chunk_events(st, last).last() matches EventView::Data(_, usage) && usage
            == noted_usage(st, last),
        legacy_chunk_events(legacy_after_chunk(st, last), next).last() matches EventView::Data(
            _,
            usage,
        ) && usage is None,
{
}

/// A failure and the end close a stream, and nothing else does.
pub proof fn law_legacy_closes_at_the_end(st: LegacyState, event: UpstreamView)
    ensures
        legacy_next(st, event).closed <==> st.closed || event is Failed || event is Ended,
{
    match event {
        UpstreamView::Bytes(bytes) => {
            lemma_closed_kept(st, legacy_completed(st, bytes));
        },
        _ => {},
    }
}

/// A stream that is at its end does nothing more.
pub proof fn law_legacy_closed_is_silent(st: LegacyState, event: UpstreamView)
    requires
        st.closed,
    ensures
        legacy_next(st, event) == st,
        legacy_output(st, event) == Seq::<EventView>::empty(),
{
}

/// The text of an event, as a client reads it.
pub open spec fn event_text(event: EventView) -> Seq<char> {
    match event {
        EventView::Data(body, _) => match first_of(body.array_at("choices"@)) {
            Some(choice) => or_empty(choice.text_at("text"@)),
            None => Seq::empty(),
        },
        _ => Seq::empty(),
    }
}

/// The texts of the events, put together.
pub open spec fn event_texts(events: Seq<EventView>) -> Seq<char>
    decreases events.len(),
{
    if events.len() == 0 {
        Seq::empty()
    } else {
        event_texts(events.drop_last()) + event_text(events.last())
    }
}

proof fn lemma_event_texts_concat(a: Seq<EventView>, b: Seq<EventView>)
    ensures
        event_texts(a + b) == event_texts(a) + event_texts(b),
    decreases b.len(),
{
    if b.len() == 0 {
        assert(a + b =~= a);
        assert(event_texts(a) + event_texts(b) =~= event_texts(a));
    } else {
        lemma_event_texts_concat(a, b.drop_last());
        assert((a + b).drop_last() =~= a + b.drop_last());
        assert(event_texts(a + b) =~= event_texts(a) + event_texts(b));
    }
}

proof fn lemma_signatures_say_nothing(parts: Seq<JsonView>)
    ensures
        event_texts(signatures_events(parts)) == Seq::<char>::empty(),
    decreases parts.len(),
{
    if parts.len() > 0 {
        let last = signature_events(parts.last());
        lemma_signatures_say_nothing(parts.drop_last());
        lemma_event_texts_concat(signatures_events(parts.drop_last()), last);
        reveal_with_fuel(event_texts, 2);
        if last.len() > 0 {
            assert(last.drop_last() =~= Seq::empty());
        }
        assert(event_texts(last) =~= Seq::empty());
        assert(event_texts(signatures_events(parts)) =~= Seq::empty());
    }
}

/// Nothing that the first candidates say is lost, and nothing is added to it or
/// sent twice: a client that puts the chunks together has all of it, in order.
pub proof fn law_legacy_says_what_came_in(st: LegacyState, chunks: Seq<JsonView>)
    ensures
        event_texts(legacy_chunks_events(st, chunks)) == first_texts(chunks),
    decreases chunks.len(),
{
    if chunks.len() > 0 {
        let front = chunks.drop_last();
        let before = legacy_after_chunks(st, front);
        let chunk = chunks.last();
        let parts = first_parts(chunk);
        let events = legacy_chunk_events(before, chunk);
        law_legacy_says_what_came_in(st, front);
        lemma_signatures_say_nothing(parts);
        lemma_event_texts_concat(legacy_chunks_events(st, front), events);
        assert(events.drop_last() =~= signatures_events(parts));
        reveal_strlit("text");
        reveal_strlit("index");
        reveal_strlit("logprobs");
        reveal_strlit("finish_reason");
        assert("text"@.len() == 4 && "index"@.len() == 5 && "logprobs"@.len() == 8);
        assert("finish_reason"@.len() == 13);
        assert(event_text(events.last()) == parts_text(parts));
        assert(event_texts(events) =~= parts_text(parts));
    }
}

proof fn lemma_parts_hand_out(parts: Seq<JsonView>)
    ensures
        handed_out(signatures_events(parts)) == signatures_of(parts),
    decreases parts.len(),
{
    if parts.len() > 0 {
        lemma_parts_hand_out(parts.drop_last());
        lemma_signature_handed_out(parts);
        lemma_handed_out_concat(
            signatures_events(parts.drop_last()),
            signature_events(parts.last()),
        );
    }
}

/// Every thought signature that comes in with a first candidate is handed out to
/// be stored, in order.
pub proof fn law_legacy_hands_out_signatures(st: LegacyState, chunks: Seq<JsonView>)
    ensures
        handed_out(legacy_chunks_events(st, chunks)) == first_signatures(chunks),
    decreases chunks.len(),
{
    if chunks.len() > 0 {
        let front = chunks.drop_last();
        let before = legacy_after_chunks(st, front);
        let parts = first_parts(chunks.last());
        let events = legacy_chunk_events(before, chunks.last());
        law_legacy_hands_out_signatures(st, front);
        lemma_parts_hand_out(parts);
        assert(events.drop_last() =~= signatures_events(parts));
        lemma_handed_out_concat(legacy_chunks_events(st, front), events);
    }
}

} // verus!
