//! A Gemini stream as a stream of OpenAI chat completion chunks.
use vstd::prelude::*;
use vstd::string::StringExecFns;

use crate::codec::{json_text, write_json};
use crate::events::{
    data, emit, event_views, handed_out, EventView, FailureView, StreamEvent, StreamFailure,
    Upstream, UpstreamView,
};
use crate::gemini::{
    call_arguments, call_name, chat_finish_reason, grounding_of, image_of, is_thought,
    map_chat_finish_reason, or_empty, parts_of, read_call_arguments, read_call_name,
    read_grounding, read_image, read_is_thought, read_parts, read_signature, signature_of,
    signatures_of,
};
use crate::ids::{chat_stream_id, unix_seconds, uuid_form};
use crate::json::{items_view, lemma_next_item, Json, JsonView};
use crate::reader::{chunks_of, lines_of, rest_of, ChunkReader};
use crate::tool_calls::{call_id, call_id_of, ToolCalls};
use crate::usage::{extract_usage_metadata, usage_of, OpenAIUsage};

verus! {

/// The state of a chat completion stream.
pub struct ChatState {
    pub id: Seq<char>,
    pub created: int,
    pub model: Seq<char>,
    /// The start of a line that is not complete.
    pub buffer: Seq<u8>,
    /// The tool calls that were passed on, each as its JSON text.
    pub calls: Seq<Seq<char>>,
    /// The usage that goes along with the next content.
    pub usage: Option<OpenAIUsage>,
    /// Whether the stream is at its end.
    pub closed: bool,
}

/// What the parts of a candidate come to.
pub struct PartsView {
    pub calls: Seq<Seq<char>>,
    pub events: Seq<EventView>,
    pub content: Seq<char>,
    pub thought: Seq<char>,
}

/// The members that every chunk of a stream begins with.
pub open spec fn chat_head(st: ChatState) -> JsonView {
    JsonView::object().with("id"@, JsonView::Text(st.id)).with(
        "object"@,
        JsonView::Text("chat.completion.chunk"@),
    ).with("created"@, JsonView::integer(st.created)).with("model"@, JsonView::Text(st.model))
}

/// A chunk with one choice.
pub open spec fn chat_chunk(
    st: ChatState,
    index: int,
    delta: JsonView,
    finish_reason: JsonView,
) -> JsonView {
    let choice = JsonView::object().with("index"@, JsonView::integer(index)).with(
        "delta"@,
        delta,
    ).with("finish_reason"@, finish_reason);
    chat_head(st).with("choices"@, JsonView::Array(seq![choice]))
}

/// The delta that passes on a tool call.
pub open spec fn tool_call_delta(call_index: int, call: JsonView) -> JsonView {
    let function = JsonView::object().with("name"@, JsonView::Text(call_name(call))).with(
        "arguments"@,
        JsonView::Text(call_arguments(call)),
    );
    let tool_call = JsonView::object().with("index"@, JsonView::integer(call_index)).with(
        "id"@,
        JsonView::Text(call_id_of(seq![json_text(call)])),
    ).with("type"@, JsonView::Text("function"@)).with("function"@, function);
    JsonView::object().with("role"@, JsonView::Text("assistant"@)).with(
        "tool_calls"@,
        JsonView::Array(seq![tool_call]),
    )
}

/// The delta that passes on a thought.
pub open spec fn reasoning_delta(thought: Seq<char>) -> JsonView {
    JsonView::object().with("role"@, JsonView::Text("assistant"@)).with(
        "content"@,
        JsonView::Null,
    ).with("reasoning_content"@, JsonView::Text(thought))
}

/// The delta that passes on content.
pub open spec fn content_delta(content: Seq<char>) -> JsonView {
    JsonView::object().with("content"@, JsonView::Text(content))
}

/// The text as JSON, or null.
pub open spec fn text_or_null(text: Option<Seq<char>>) -> JsonView {
    match text {
        Some(s) => JsonView::Text(s),
        None => JsonView::Null,
    }
}

/// The events of a function call in a part: none, where there is no call or it
/// was passed on before.
pub open spec fn call_events(
    st: ChatState,
    index: int,
    calls: Seq<Seq<char>>,
    part: JsonView,
) -> Seq<EventView> {
    match part.get("functionCall"@) {
        Some(call) => if calls.contains(json_text(call)) {
            Seq::empty()
        } else {
            seq![
                data(
                    chat_chunk(
                        st,
                        index,
                        tool_call_delta(calls.len() as int, call),
                        JsonView::Null,
                    ),
                ),
            ]
        },
        None => Seq::empty(),
    }
}

/// The calls that were passed on, with the one in a part.
pub open spec fn calls_after(calls: Seq<Seq<char>>, part: JsonView) -> Seq<Seq<char>> {
    match part.get("functionCall"@) {
        Some(call) => if calls.contains(json_text(call)) {
            calls
        } else {
            calls.push(json_text(call))
        },
        None => calls,
    }
}

/// The event of a thought signature in a part.
pub open spec fn signature_events(part: JsonView) -> Seq<EventView> {
    match signature_of(part) {
        Some(sig) => seq![EventView::Signature(sig)],
        None => Seq::empty(),
    }
}

/// One part hands out its signature, if it has one.
pub(crate) proof fn lemma_signature_handed_out(parts: Seq<JsonView>)
    requires
        parts.len() > 0,
    ensures
        signatures_of(parts) == signatures_of(parts.drop_last()) + handed_out(
            signature_events(parts.last()),
        ),
{
    let events = signature_events(parts.last());
    reveal_with_fuel(handed_out, 2);
    if events.len() > 0 {
        assert(events.drop_last() =~= Seq::empty());
        assert(handed_out(events) =~= seq![signature_of(parts.last())->0]);
    }
    assert(signatures_of(parts) =~= signatures_of(parts.drop_last()) + handed_out(events));
}

/// One part more.
pub open spec fn after_part(
    st: ChatState,
    index: int,
    acc: PartsView,
    part: JsonView,
) -> PartsView {
    let text = or_empty(part.text_at("text"@));
    PartsView {
        calls: calls_after(acc.calls, part),
        events: acc.events + signature_events(part) + call_events(st, index, acc.calls, part),
        content: acc.content + (if is_thought(part) {
            Seq::empty()
        } else {
            text
        }) + image_of(part),
        thought: acc.thought + (if is_thought(part) {
            text
        } else {
            Seq::empty()
        }),
    }
}

/// What the parts of a candidate come to.
pub open spec fn after_parts(st: ChatState, index: int, parts: Seq<JsonView>) -> PartsView
    decreases parts.len(),
{
    if parts.len() == 0 {
        PartsView {
            calls: st.calls,
            events: Seq::empty(),
            content: Seq::empty(),
            thought: Seq::empty(),
        }
    } else {
        after_part(st, index, after_parts(st, index, parts.drop_last()), parts.last())
    }
}

/// The index of a candidate as it is sent: its low 32 bits.
pub open spec fn sent_index(index: int) -> int {
    index % 0x1_0000_0000
}

/// How a candidate says that it is at its end.
pub open spec fn finish_of(candidate: JsonView) -> Option<Seq<char>> {
    match candidate.text_at("finishReason"@) {
        Some(reason) => Some(chat_finish_reason(reason)),
        None => None,
    }
}

/// The whole content of a candidate: that of its parts, then its grounding.
pub open spec fn candidate_content(st: ChatState, position: int, candidate: JsonView) -> Seq<char> {
    after_parts(st, sent_index(position), parts_of(candidate)).content + grounding_of(candidate)
}

/// The events of a thought: none, where it is empty.
pub open spec fn reasoning_events(st: ChatState, index: int, thought: Seq<char>) -> Seq<EventView> {
    if thought.len() == 0 {
        Seq::empty()
    } else {
        seq![data(chat_chunk(st, index, reasoning_delta(thought), JsonView::Null))]
    }
}

/// The events of content: none, where it is empty and not the last.
pub open spec fn content_events(
    st: ChatState,
    index: int,
    content: Seq<char>,
    finish: Option<Seq<char>>,
) -> Seq<EventView> {
    if content.len() == 0 && finish is None {
        Seq::empty()
    } else {
        seq![
            EventView::Data(
                chat_chunk(st, index, content_delta(content), text_or_null(finish)),
                st.usage,
            ),
        ]
    }
}

/// The events of the candidate at that position.
pub open spec fn candidate_events(
    st: ChatState,
    position: int,
    candidate: JsonView,
) -> Seq<EventView> {
    let index = sent_index(position);
    let parts = after_parts(st, index, parts_of(candidate));
    parts.events + reasoning_events(st, index, parts.thought) + content_events(
        st,
        index,
        candidate_content(st, position, candidate),
        finish_of(candidate),
    )
}

/// The state after the candidate at that position: its calls are passed on, and
/// with its last content the usage is.
pub open spec fn after_candidate(
    st: ChatState,
    position: int,
    candidate: JsonView,
) -> ChatState {
    ChatState {
        calls: after_parts(st, sent_index(position), parts_of(candidate)).calls,
        usage: if finish_of(candidate) is Some {
            None
        } else {
            st.usage
        },
        ..st
    }
}

/// The state after these candidates.
pub open spec fn after_candidates(st: ChatState, candidates: Seq<JsonView>) -> ChatState
    decreases candidates.len(),
{
    if candidates.len() == 0 {
        st
    } else {
        after_candidate(
            after_candidates(st, candidates.drop_last()),
            candidates.len() - 1,
            candidates.last(),
        )
    }
}

/// The events of these candidates.
pub open spec fn candidates_events(st: ChatState, candidates: Seq<JsonView>) -> Seq<EventView>
    decreases candidates.len(),
{
    if candidates.len() == 0 {
        Seq::empty()
    } else {
        candidates_events(st, candidates.drop_last()) + candidate_events(
            after_candidates(st, candidates.drop_last()),
            candidates.len() - 1,
            candidates.last(),
        )
    }
}

/// The state once the usage in a chunk is noted.
pub open spec fn with_usage(st: ChatState, chunk: JsonView) -> ChatState {
    match chunk.get("usageMetadata"@) {
        Some(u) => ChatState { usage: Some(usage_of(u)), ..st },
        None => st,
    }
}

/// The candidates of a chunk.
pub open spec fn candidates_of(chunk: JsonView) -> Seq<JsonView> {
    match chunk.array_at("candidates"@) {
        Some(candidates) => candidates,
        None => Seq::empty(),
    }
}

/// The state after a chunk.
pub open spec fn after_chunk(st: ChatState, chunk: JsonView) -> ChatState {
    after_candidates(with_usage(st, chunk), candidates_of(chunk))
}

/// The events of a chunk.
pub open spec fn chunk_events(st: ChatState, chunk: JsonView) -> Seq<EventView> {
    candidates_events(with_usage(st, chunk), candidates_of(chunk))
}

/// The state after these chunks.
pub open spec fn after_chunks(st: ChatState, chunks: Seq<JsonView>) -> ChatState
    decreases chunks.len(),
{
    if chunks.len() == 0 {
        st
    } else {
        after_chunk(after_chunks(st, chunks.drop_last()), chunks.last())
    }
}

/// The events of these chunks.
pub open spec fn chunks_events(st: ChatState, chunks: Seq<JsonView>) -> Seq<EventView>
    decreases chunks.len(),
{
    if chunks.len() == 0 {
        Seq::empty()
    } else {
        chunks_events(st, chunks.drop_last()) + chunk_events(
            after_chunks(st, chunks.drop_last()),
            chunks.last(),
        )
    }
}

/// The chunks that become complete with these bytes.
pub open spec fn completed(st: ChatState, bytes: Seq<u8>) -> Seq<JsonView> {
    chunks_of(lines_of(st.buffer + bytes))
}

/// The chunk that tells of a failure.
pub open spec fn failure_chunk(st: ChatState, failure: FailureView) -> JsonView {
    chat_head(st).with("choices"@, JsonView::Array(Seq::empty())).with(
        "error"@,
        failure_body(failure),
    )
}

/// What a client is told of a failure.
pub open spec fn failure_body(failure: FailureView) -> JsonView {
    JsonView::object().with("type"@, JsonView::Text(failure.error_type)).with(
        "message"@,
        JsonView::Text(failure.message),
    ).with("code"@, JsonView::Text("stream_error"@)).with(
        "i18n_key"@,
        JsonView::Text(failure.i18n_key),
    )
}

/// The state after something happened. A stream at its end stays as it is.
pub open spec fn chat_next(st: ChatState, event: UpstreamView) -> ChatState {
    if st.closed {
        st
    } else {
        match event {
            UpstreamView::Bytes(bytes) => rebuffered(
                after_chunks(st, completed(st, bytes)),
                rest_of(st.buffer + bytes),
            ),
            UpstreamView::Failed(_) => ChatState { closed: true, ..st },
            UpstreamView::Ended => ChatState { closed: true, ..st },
            UpstreamView::Tick => st,
        }
    }
}

/// What a stream does when something happens. A failure and the end close it,
/// each with the mark of the end.
pub open spec fn chat_output(st: ChatState, event: UpstreamView) -> Seq<EventView> {
    if st.closed {
        Seq::empty()
    } else {
        match event {
            UpstreamView::Bytes(bytes) => chunks_events(st, completed(st, bytes)),
            UpstreamView::Failed(failure) => seq![
                data(failure_chunk(st, failure)),
                EventView::Done,
            ],
            UpstreamView::Ended => seq![EventView::Done],
            UpstreamView::Tick => seq![EventView::Ping],
        }
    }
}

/// The state with another start of a line.
pub open spec fn rebuffered(st: ChatState, buffer: Seq<u8>) -> ChatState {
    ChatState { buffer, ..st }
}

proof fn lemma_parts_ignore_buffer(
    st: ChatState,
    buffer: Seq<u8>,
    index: int,
    parts: Seq<JsonView>,
)
    ensures
        after_parts(rebuffered(st, buffer), index, parts) == after_parts(st, index, parts),
    decreases parts.len(),
{
    if parts.len() > 0 {
        lemma_parts_ignore_buffer(st, buffer, index, parts.drop_last());
    }
}

proof fn lemma_candidates_ignore_buffer(
    st: ChatState,
    buffer: Seq<u8>,
    candidates: Seq<JsonView>,
)
    ensures
        after_candidates(rebuffered(st, buffer), candidates) == rebuffered(
            after_candidates(st, candidates),
            buffer,
        ),
        candidates_events(rebuffered(st, buffer), candidates) == candidates_events(st, candidates),
    decreases candidates.len(),
{
    if candidates.len() > 0 {
        let front = candidates.drop_last();
        lemma_candidates_ignore_buffer(st, buffer, front);
        lemma_parts_ignore_buffer(
            after_candidates(st, front),
            buffer,
            sent_index(candidates.len() - 1),
            parts_of(candidates.last()),
        );
    }
}

proof fn lemma_chunk_ignores_buffer(st: ChatState, buffer: Seq<u8>, chunk: JsonView)
    ensures
        after_chunk(rebuffered(st, buffer), chunk) == rebuffered(after_chunk(st, chunk), buffer),
        chunk_events(rebuffered(st, buffer), chunk) == chunk_events(st, chunk),
{
    lemma_candidates_ignore_buffer(with_usage(st, chunk), buffer, candidates_of(chunk));
}

pub(crate) proof fn lemma_chunks_ignore_buffer(
    st: ChatState,
    buffer: Seq<u8>,
    chunks: Seq<JsonView>,
)
    ensures
        after_chunks(rebuffered(st, buffer), chunks) == rebuffered(
            after_chunks(st, chunks),
            buffer,
        ),
        chunks_events(rebuffered(st, buffer), chunks) == chunks_events(st, chunks),
    decreases chunks.len(),
{
    if chunks.len() > 0 {
        lemma_chunks_ignore_buffer(st, buffer, chunks.drop_last());
        lemma_chunk_ignores_buffer(after_chunks(st, chunks.drop_last()), buffer, chunks.last());
    }
}

/// Makes OpenAI chat completion chunks out of a Gemini stream.
pub struct ChatStream {
    id: String,
    created: i64,
    model: String,
    reader: ChunkReader,
    calls: ToolCalls,
    usage: Option<OpenAIUsage>,
    closed: bool,
}

impl View for ChatStream {
    type V = ChatState;

    closed spec fn view(&self) -> ChatState {
        ChatState {
            id: self.id@,
            created: self.created as int,
            model: self.model@,
            buffer: self.reader@,
            calls: self.calls@,
            usage: self.usage,
            closed: self.closed,
        }
    }
}

/// The state of a stream that has seen nothing.
pub open spec fn chat_start(id: Seq<char>, created: int, model: Seq<char>) -> ChatState {
    ChatState {
        id,
        created,
        model,
        buffer: Seq::empty(),
        calls: Seq::empty(),
        usage: None,
        closed: false,
    }
}

/// What a client is told of a failure.
pub(crate) fn failure_json(failure: &StreamFailure) -> (r: Json)
    ensures
        r@ == failure_body(failure@),
{
    Json::object().with("type", Json::text(failure.error_type.as_str())).with(
        "message",
        Json::text(failure.message.as_str()),
    ).with("code", Json::text("stream_error")).with(
        "i18n_key",
        Json::text(failure.i18n_key.as_str()),
    )
}

/// An array without items.
pub(crate) fn empty_array() -> (r: Json)
    ensures
        r@ == JsonView::Array(Seq::empty()),
{
    let items: Vec<Json> = Vec::new();
    assert(items_view(items@) =~= Seq::empty());
    Json::Array(items)
}

/// The text as JSON, or null.
pub(crate) fn json_text_or_null(text: &Option<String>) -> (r: Json)
    ensures
        r@ == text_or_null(
            match *text {
                Some(s) => Some(s@),
                None => None,
            },
        ),
{
    match text {
        Some(s) => Json::text(s.as_str()),
        None => Json::Null,
    }
}

/// Begins a chat completion stream for the model, under a new id and at the
/// present time.
pub fn create_openai_sse_stream(model: String) -> (r: ChatStream)
    ensures
        r@ == chat_start(r@.id, r@.created, model@),
        exists|uuid: Seq<char>| #[trigger] uuid_form(uuid) && r@.id == "chatcmpl-"@ + uuid,
{
    let id = chat_stream_id();
    let created = unix_seconds();
    ChatStream::new(id, created, model)
}

impl ChatStream {
    /// A stream that has seen nothing.
    pub fn new(id: String, created: i64, model: String) -> (r: ChatStream)
        ensures
            r@ == chat_start(id@, created as int, model@),
    {
        ChatStream {
            id,
            created,
            model,
            reader: ChunkReader::new(),
            calls: ToolCalls::new(),
            usage: None,
            closed: false,
        }
    }

    /// Whether the stream is at its end.
    pub fn is_closed(&self) -> (r: bool)
        ensures
            r == self@.closed,
    {
        self.closed
    }

    fn head(&self) -> (r: Json)
        ensures
            r@ == chat_head(self@),
    {
        Json::object().with("id", Json::text(self.id.as_str())).with(
            "object",
            Json::text("chat.completion.chunk"),
        ).with("created", Json::Signed(self.created)).with("model", Json::text(self.model.as_str()))
    }

    fn chunk(&self, index: u64, delta: Json, finish_reason: Json) -> (r: Json)
        ensures
            r@ == chat_chunk(self@, index as int, delta@, finish_reason@),
    {
        let choice = Json::object().with("index", Json::Unsigned(index)).with("delta", delta).with(
            "finish_reason",
            finish_reason,
        );
        self.head().with("choices", Json::array_of(choice))
    }

    /// Passes on a function call that was not passed on before.
    fn pass_on_call(&mut self, index: u64, call: &Json, out: &mut Vec<StreamEvent>)
        ensures
            final(self)@ == (ChatState {
                calls: if old(self)@.calls.contains(json_text(call@)) {
                    old(self)@.calls
                } else {
                    old(self)@.calls.push(json_text(call@))
                },
                ..old(self)@
            }),
            event_views(final(out)@) == event_views(old(out)@) + (if old(self)@.calls.contains(
                json_text(call@),
            ) {
                Seq::empty()
            } else {
                seq![
                    data(
                        chat_chunk(
                            old(self)@,
                            index as int,
                            tool_call_delta(old(self)@.calls.len() as int, call@),
                            JsonView::Null,
                        ),
                    ),
                ]
            }),
    {
        let key = write_json(call);
        match self.calls.enlist(key.as_str()) {
            Some(call_index) => {
                let name = read_call_name(call);
                let arguments = read_call_arguments(call);
                let content: [&str; 1] = [key.as_str()];
                let id = call_id(&content);
                assert(content@.map_values(|t: &str| t@) =~= seq![json_text(call@)]);
                let function = Json::object().with("name", Json::text(name)).with(
                    "arguments",
                    Json::Text(arguments),
                );
                let tool_call = Json::object().with(
                    "index",
                    Json::Unsigned(call_index as u64),
                ).with("id", Json::Text(id)).with("type", Json::text("function")).with(
                    "function",
                    function,
                );
                let delta = Json::object().with("role", Json::text("assistant")).with(
                    "tool_calls",
                    Json::array_of(tool_call),
                );
                let body = self.chunk(index, delta, Json::Null);
                emit(out, StreamEvent::Data { body, usage: None });
            },
            None => {},
        }
    }

    /// Takes in one part of a candidate.
    fn take_part(
        &mut self,
        index: u64,
        part: &Json,
        content: &mut String,
        thought: &mut String,
        out: &mut Vec<StreamEvent>,
    )
        ensures
            final(self)@ == (ChatState {
                calls: calls_after(old(self)@.calls, part@),
                ..old(self)@
            }),
            event_views(final(out)@) == event_views(old(out)@) + signature_events(part@)
                + call_events(old(self)@, index as int, old(self)@.calls, part@),
            final(content)@ == old(content)@ + (if is_thought(part@) {
                Seq::empty()
            } else {
                or_empty(part@.text_at("text"@))
            }) + image_of(part@),
            final(thought)@ == old(thought)@ + (if is_thought(part@) {
                or_empty(part@.text_at("text"@))
            } else {
                Seq::empty()
            }),
    {
        let thinks = read_is_thought(part);
        match part.text_at("text") {
            Some(text) => {
                if thinks {
                    thought.append(text);
                } else {
                    content.append(text);
                }
            },
            None => {},
        }
        match read_signature(part) {
            Some(sig) => {
                emit(out, StreamEvent::Signature(sig.to_owned()));
            },
            None => {},
        }
        content.append(read_image(part).as_str());
        match part.get("functionCall") {
            Some(call) => {
                self.pass_on_call(index, call, out);
            },
            None => {},
        }
        assert(thought@ =~= old(thought)@ + (if is_thought(part@) {
            or_empty(part@.text_at("text"@))
        } else {
            Seq::empty()
        }));
        assert(content@ =~= old(content)@ + (if is_thought(part@) {
            Seq::empty()
        } else {
            or_empty(part@.text_at("text"@))
        }) + image_of(part@));
        assert(event_views(out@) =~= event_views(old(out)@) + signature_events(part@) + call_events(
            old(self)@,
            index as int,
            old(self)@.calls,
            part@,
        ));
    }

    /// Takes in the parts of a candidate; gives their content and their thought.
    fn take_parts(&mut self, index: u64, candidate: &Json, out: &mut Vec<StreamEvent>) -> (r: (
        String,
        String,
    ))
        ensures
            ({
                let parts = after_parts(old(self)@, index as int, parts_of(candidate@));
                &&& final(self)@ == (ChatState { calls: parts.calls, ..old(self)@ })
                &&& event_views(final(out)@) == event_views(old(out)@) + parts.events
                &&& r.0@ == parts.content
                &&& r.1@ == parts.thought
            }),
    {
        let mut content = String::new();
        let mut thought = String::new();
        let ghost st = self@;
        let ghost sent = event_views(out@);
        match read_parts(candidate) {
            Some(parts) => {
                let mut i: usize = 0;
                assert(items_view(parts@.take(0)) =~= Seq::empty());
                assert(sent + Seq::<EventView>::empty() =~= sent);
                while i < parts.len()
                    invariant
                        i <= parts@.len(),
                        ({
                            let acc = after_parts(
                                st,
                                index as int,
                                items_view(parts@.take(i as int)),
                            );
                            &&& self@ == (ChatState { calls: acc.calls, ..st })
                            &&& event_views(out@) == sent + acc.events
                            &&& content@ == acc.content
                            &&& thought@ == acc.thought
                        }),
                    decreases parts.len() - i,
                {
                    proof {
                        lemma_next_item(parts@, i as int);
                    }
                    let ghost acc = after_parts(
                        st,
                        index as int,
                        items_view(parts@.take(i as int)),
                    );
                    self.take_part(index, &parts[i], &mut content, &mut thought, out);
                    proof {
                        let next = after_parts(
                            st,
                            index as int,
                            items_view(parts@.take(i + 1)),
                        );
                        assert(next == after_part(st, index as int, acc, parts@[i as int]@));
                        assert(event_views(out@) =~= sent + next.events);
                    }
                    i = i + 1;
                }
                assert(parts@.take(i as int) =~= parts@);
            },
            None => {
                assert(sent + Seq::<EventView>::empty() =~= sent);
            },
        }
        (content, thought)
    }

    /// Takes in the candidate at that position.
    fn take_candidate(&mut self, position: usize, candidate: &Json, out: &mut Vec<StreamEvent>)
        ensures
            final(self)@ == after_candidate(old(self)@, position as int, candidate@),
            event_views(final(out)@) == event_views(old(out)@) + candidate_events(
                old(self)@,
                position as int,
                candidate@,
            ),
    {
        let index = (position as u64) % 0x1_0000_0000;
        let ghost sent = event_views(out@);
        let ghost st = self@;
        let (content, thought) = self.take_parts(index, candidate, out);
        let ghost parts = after_parts(st, index as int, parts_of(candidate@));
        let mut content = content;
        content.append(read_grounding(candidate).as_str());
        let finish: Option<String> = match candidate.text_at("finishReason") {
            Some(reason) => Some(map_chat_finish_reason(reason)),
            None => None,
        };
        if !thought.as_str().is_empty() {
            let delta = Json::object().with("role", Json::text("assistant")).with(
                "content",
                Json::Null,
            ).with("reasoning_content", Json::Text(thought));
            let body = self.chunk(index, delta, Json::Null);
            emit(out, StreamEvent::Data { body, usage: None });
        }
        assert(event_views(out@) =~= sent + parts.events + reasoning_events(
            st,
            index as int,
            parts.thought,
        ));
        if !content.as_str().is_empty() || finish.is_some() {
            let delta = Json::object().with("content", Json::Text(content));
            let body = self.chunk(index, delta, json_text_or_null(&finish));
            emit(out, StreamEvent::Data { body, usage: self.usage });
            if finish.is_some() {
                self.usage = None;
            }
        }
        assert(event_views(out@) =~= sent + candidate_events(st, position as int, candidate@));
    }

    /// Takes in a chunk: notes its usage and passes its candidates on.
    pub fn take_chunk(&mut self, chunk: &Json, out: &mut Vec<StreamEvent>)
        ensures
            final(self)@ == after_chunk(old(self)@, chunk@),
            event_views(final(out)@) == event_views(old(out)@) + chunk_events(old(self)@, chunk@),
    {
        match chunk.get("usageMetadata") {
            Some(u) => {
                self.usage = extract_usage_metadata(u);
            },
            None => {},
        }
        let ghost st = self@;
        let ghost sent = event_views(out@);
        match chunk.array_at("candidates") {
            Some(candidates) => {
                let mut i: usize = 0;
                assert(items_view(candidates@.take(0)) =~= Seq::empty());
                assert(sent + Seq::<EventView>::empty() =~= sent);
                while i < candidates.len()
                    invariant
                        i <= candidates@.len(),
                        self@ == after_candidates(st, items_view(candidates@.take(i as int))),
                        event_views(out@) == sent + candidates_events(
                            st,
                            items_view(candidates@.take(i as int)),
                        ),
                    decreases candidates.len() - i,
                {
                    proof {
                        lemma_next_item(candidates@, i as int);
                    }
                    self.take_candidate(i, &candidates[i], out);
                    assert(event_views(out@) =~= sent + candidates_events(
                        st,
                        items_view(candidates@.take(i + 1)),
                    ));
                    i = i + 1;
                }
                assert(candidates@.take(i as int) =~= candidates@);
            },
            None => {
                assert(sent + Seq::<EventView>::empty() =~= sent);
            },
        }
    }

    /// Takes in what happened and says what to do, in order.
    pub fn step(&mut self, event: Upstream) -> (r: Vec<StreamEvent>)
        ensures
            final(self)@ == chat_next(old(self)@, event@),
            event_views(r@) == chat_output(old(self)@, event@),
    {
        let mut out: Vec<StreamEvent> = Vec::new();
        let ghost st = self@;
        assert(event_views(out@) =~= Seq::empty());
        if self.closed {
            return out;
        }
        match event {
            Upstream::Bytes(bytes) => {
                let chunks = self.reader.push(bytes.as_slice());
                let mut i: usize = 0;
                assert(items_view(chunks@.take(0)) =~= Seq::empty());
                while i < chunks.len()
                    invariant
                        i <= chunks@.len(),
                        self@ == rebuffered(
                            after_chunks(st, items_view(chunks@.take(i as int))),
                            rest_of(st.buffer + bytes@),
                        ),
                        event_views(out@) == chunks_events(st, items_view(chunks@.take(i as int))),
                    decreases chunks.len() - i,
                {
                    let ghost before = after_chunks(st, items_view(chunks@.take(i as int)));
                    proof {
                        lemma_next_item(chunks@, i as int);
                        lemma_chunk_ignores_buffer(
                            before,
                            rest_of(st.buffer + bytes@),
                            chunks@[i as int]@,
                        );
                    }
                    self.take_chunk(&chunks[i], &mut out);
                    i = i + 1;
                }
                assert(chunks@.take(i as int) =~= chunks@);
            },
            Upstream::Failed(failure) => {
                let body = self.head().with("choices", empty_array()).with(
                    "error",
                    failure_json(&failure),
                );
                emit(&mut out, StreamEvent::Data { body, usage: None });
                emit(&mut out, StreamEvent::Done);
                self.closed = true;
                assert(event_views(out@) =~= chat_output(st, event@));
            },
            Upstream::Ended => {
                emit(&mut out, StreamEvent::Done);
                self.closed = true;
                assert(event_views(out@) =~= chat_output(st, event@));
            },
            Upstream::Tick => {
                emit(&mut out, StreamEvent::Ping);
                assert(event_views(out@) =~= chat_output(st, event@));
            },
        }
        out
    }
}

} // verus!
