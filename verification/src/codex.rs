//! A Gemini stream as a stream of OpenAI response events.
use vstd::prelude::*;
use vstd::string::StringExecFns;

use crate::chat::{calls_after, failure_body, failure_json, signature_events};
use crate::codec::{json_text, write_json};
use crate::events::{
    data, emit, event_views, EventView, FailureView, StreamEvent, Upstream,
    UpstreamView,
};
use crate::gemini::{
    call_name, first_finish_reason, first_parts, map_response_finish_reason,
    or_empty, read_call_name, read_first_candidate, read_parts, read_signature,
    read_texts, response_finish_reason, texts_of,
};
use crate::ids::{new_random_id, random_id};
use crate::json::{items_view, lemma_next_item, Json, JsonView};
use crate::reader::{chunks_of, lines_of, rest_of, ChunkReader};
use crate::text::{contains_char, straighten, straightened, text_eq, text_views};
use crate::tool_calls::{call_id, call_id_of, ToolCalls};
use crate::usage::{extract_usage_metadata, usage_of, OpenAIUsage};

verus! {

/// The state of a response stream.
pub struct CodexState {
    pub id: Seq<char>,
    /// The start of a line that is not complete.
    pub buffer: Seq<u8>,
    /// The tool calls that were passed on, each as its JSON text.
    pub calls: Seq<Seq<char>>,
    /// The text that was passed on.
    pub content: Seq<char>,
    /// How the response says that it is at its end.
    pub finish: Seq<char>,
    /// The usage that was reported last.
    pub usage: Option<OpenAIUsage>,
    /// Whether the stream is at its end.
    pub closed: bool,
}

/// The state of a stream that has seen nothing.
pub open spec fn codex_start(id: Seq<char>) -> CodexState {
    CodexState {
        id,
        buffer: Seq::empty(),
        calls: Seq::empty(),
        content: Seq::empty(),
        finish: "stop"@,
        usage: None,
        closed: false,
    }
}

/// The event that a stream begins with.
pub open spec fn created_event(id: Seq<char>) -> JsonView {
    let response = JsonView::object().with("id"@, JsonView::Text(id)).with(
        "object"@,
        JsonView::Text("response"@),
    );
    JsonView::object().with("type"@, JsonView::Text("response.created"@)).with(
        "response"@,
        response,
    )
}

/// The arguments of a call; an empty object, where it has none.
pub open spec fn arguments_of(call: JsonView) -> JsonView {
    match call.get("args"@) {
        Some(v) => v,
        None => JsonView::object(),
    }
}

/// A command for the shell of the client.
pub open spec fn shell_line(command: Seq<char>) -> Seq<Seq<char>> {
    seq!["powershell.exe"@, "-Command"@, command]
}

/// The command that a call to the shell stands for: a list as it is, a text with
/// spaces through the shell, one without as a program; and nothing to do, where
/// there is no command.
pub open spec fn shell_command(args: JsonView) -> Seq<Seq<char>> {
    if !args.has_members() {
        shell_line("exit 0"@)
    } else {
        match args.get("command"@) {
            Some(JsonView::Array(items)) => texts_of(items),
            Some(JsonView::Text(s)) => if s.contains(' ') {
                shell_line(s)
            } else {
                seq![s]
            },
            _ => shell_line("exit 0"@),
        }
    }
}

/// The id of a call: it depends on the name and the arguments.
pub open spec fn codex_call_id(call: JsonView) -> Seq<char> {
    call_id_of(seq![call_name(call), json_text(arguments_of(call))])
}

/// An item for which the client has an action of its own.
pub open spec fn action_item(kind: Seq<char>, call: JsonView, action: JsonView) -> JsonView {
    JsonView::object().with("type"@, JsonView::Text(kind)).with(
        "status"@,
        JsonView::Text("in_progress"@),
    ).with("call_id"@, JsonView::Text(codex_call_id(call))).with("action"@, action)
}

/// The item that a call becomes.
pub open spec fn call_item(call: JsonView) -> JsonView {
    let name = call_name(call);
    let args = arguments_of(call);
    if name == "shell"@ || name == "local_shell"@ {
        action_item(
            "local_shell_call"@,
            call,
            JsonView::object().with("type"@, JsonView::Text("exec"@)).with(
                "command"@,
                JsonView::texts(shell_command(args)),
            ),
        )
    } else if name == "googleSearch"@ || name == "web_search"@ || name == "google_search"@ {
        action_item(
            "web_search_call"@,
            call,
            JsonView::object().with("type"@, JsonView::Text("search"@)).with(
                "query"@,
                JsonView::Text(or_empty(args.text_at("query"@))),
            ),
        )
    } else {
        JsonView::object().with("type"@, JsonView::Text("function_call"@)).with(
            "name"@,
            JsonView::Text(name),
        ).with("arguments"@, JsonView::Text(json_text(args))).with(
            "call_id"@,
            JsonView::Text(codex_call_id(call)),
        )
    }
}

/// An event about an item.
pub open spec fn item_event(kind: Seq<char>, item: JsonView) -> JsonView {
    JsonView::object().with("type"@, JsonView::Text(kind)).with("item"@, item)
}

/// The events of a function call in a part: the item is added and is done. None,
/// where there is no call or it was passed on before.
pub open spec fn item_events(calls: Seq<Seq<char>>, part: JsonView) -> Seq<EventView> {
    match part.get("functionCall"@) {
        Some(call) => if calls.contains(json_text(call)) {
            Seq::empty()
        } else {
            seq![
                data(item_event("response.output_item.added"@, call_item(call))),
                data(item_event("response.output_item.done"@, call_item(call))),
            ]
        },
        None => Seq::empty(),
    }
}

/// What the parts of a candidate come to.
pub struct CodexParts {
    pub calls: Seq<Seq<char>>,
    pub events: Seq<EventView>,
    pub delta: Seq<char>,
}

/// What the parts of a candidate come to.
pub open spec fn codex_after_parts(
    calls: Seq<Seq<char>>,
    parts: Seq<JsonView>,
) -> CodexParts
    decreases parts.len(),
{
    if parts.len() == 0 {
        CodexParts { calls, events: Seq::empty(), delta: Seq::empty() }
    } else {
        let acc = codex_after_parts(calls, parts.drop_last());
        let part = parts.last();
        CodexParts {
            calls: calls_after(acc.calls, part),
            events: acc.events + signature_events(part) + item_events(acc.calls, part),
            delta: acc.delta + straightened(or_empty(part.text_at("text"@))),
        }
    }
}

/// The event that passes on text.
pub open spec fn delta_event(delta: Seq<char>) -> JsonView {
    JsonView::object().with("type"@, JsonView::Text("response.output_text.delta"@)).with(
        "delta"@,
        JsonView::Text(delta),
    )
}

/// The events of a chunk: those of its parts, then its text.
pub open spec fn codex_chunk_events(st: CodexState, chunk: JsonView) -> Seq<EventView> {
    let parts = codex_after_parts(st.calls, first_parts(chunk));
    if parts.delta.len() == 0 {
        parts.events
    } else {
        parts.events.push(data(delta_event(parts.delta)))
    }
}

/// The state after a chunk.
pub open spec fn codex_after_chunk(st: CodexState, chunk: JsonView) -> CodexState {
    let parts = codex_after_parts(st.calls, first_parts(chunk));
    CodexState {
        usage: match chunk.get("usageMetadata"@) {
            Some(u) => Some(usage_of(u)),
            None => st.usage,
        },
        finish: match first_finish_reason(chunk) {
            Some(reason) => response_finish_reason(reason),
            None => st.finish,
        },
        calls: parts.calls,
        content: st.content + parts.delta,
        ..st
    }
}

/// The state after these chunks.
pub open spec fn codex_after_chunks(st: CodexState, chunks: Seq<JsonView>) -> CodexState
    decreases chunks.len(),
{
    if chunks.len() == 0 {
        st
    } else {
        codex_after_chunk(codex_after_chunks(st, chunks.drop_last()), chunks.last())
    }
}

/// The events of these chunks.
pub open spec fn codex_chunks_events(st: CodexState, chunks: Seq<JsonView>) -> Seq<EventView>
    decreases chunks.len(),
{
    if chunks.len() == 0 {
        Seq::empty()
    } else {
        codex_chunks_events(st, chunks.drop_last()) + codex_chunk_events(
            codex_after_chunks(st, chunks.drop_last()),
            chunks.last(),
        )
    }
}

/// The event that tells of a failure.
pub open spec fn codex_failure(failure: FailureView) -> JsonView {
    JsonView::object().with("type"@, JsonView::Text("error"@)).with(
        "error"@,
        failure_body(failure),
    )
}

/// The event that the whole message is done.
pub open spec fn message_event(content: Seq<char>) -> JsonView {
    let text = JsonView::object().with("type"@, JsonView::Text("output_text"@)).with(
        "text"@,
        JsonView::Text(content),
    );
    let message = JsonView::object().with("type"@, JsonView::Text("message"@)).with(
        "role"@,
        JsonView::Text("assistant"@),
    ).with("content"@, JsonView::Array(seq![text]));
    item_event("response.output_item.done"@, message)
}

/// A usage as a response reports it.
pub open spec fn response_usage(usage: Option<OpenAIUsage>) -> JsonView {
    let (input, output, total) = match usage {
        Some(u) => (u.prompt_tokens as int, u.completion_tokens as int, u.total_tokens as int),
        None => (0, 0, 0),
    };
    JsonView::object().with("input_tokens"@, JsonView::integer(input)).with(
        "input_tokens_details"@,
        JsonView::object().with("cached_tokens"@, JsonView::integer(0)),
    ).with("output_tokens"@, JsonView::integer(output)).with(
        "output_tokens_details"@,
        JsonView::object().with("reasoning_tokens"@, JsonView::integer(0)),
    ).with("total_tokens"@, JsonView::integer(total))
}

/// The event that a stream ends with.
pub open spec fn completed_event(st: CodexState) -> JsonView {
    let response = JsonView::object().with("id"@, JsonView::Text(st.id)).with(
        "object"@,
        JsonView::Text("response"@),
    ).with("status"@, JsonView::Text("completed"@)).with(
        "finish_reason"@,
        JsonView::Text(st.finish),
    ).with("usage"@, response_usage(st.usage));
    JsonView::object().with("type"@, JsonView::Text("response.completed"@)).with(
        "response"@,
        response,
    )
}

/// The events of the end: the message is done, and the response is complete.
pub open spec fn closing_events(st: CodexState) -> Seq<EventView> {
    seq![data(message_event(st.content)), data(completed_event(st))]
}

/// The chunks that become complete with these bytes.
pub open spec fn codex_completed(st: CodexState, bytes: Seq<u8>) -> Seq<JsonView> {
    chunks_of(lines_of(st.buffer + bytes))
}

/// The state with another start of a line.
pub open spec fn codex_rebuffered(st: CodexState, buffer: Seq<u8>) -> CodexState {
    CodexState { buffer, ..st }
}

/// The state after something happened. A stream at its end stays as it is.
pub open spec fn codex_next(st: CodexState, event: UpstreamView) -> CodexState {
    if st.closed {
        st
    } else {
        match event {
            UpstreamView::Bytes(bytes) => codex_rebuffered(
                codex_after_chunks(st, codex_completed(st, bytes)),
                rest_of(st.buffer + bytes),
            ),
            UpstreamView::Failed(_) => CodexState { closed: true, ..st },
            UpstreamView::Ended => CodexState { closed: true, ..st },
            UpstreamView::Tick => st,
        }
    }
}

/// What a stream does when something happens. A failure and the end close it,
/// each with the events of the end.
pub open spec fn codex_output(st: CodexState, event: UpstreamView) -> Seq<EventView> {
    if st.closed {
        Seq::empty()
    } else {
        match event {
            UpstreamView::Bytes(bytes) => codex_chunks_events(st, codex_completed(st, bytes)),
            UpstreamView::Failed(failure) => seq![data(codex_failure(failure))] + closing_events(
                st,
            ),
            UpstreamView::Ended => closing_events(st),
            UpstreamView::Tick => seq![EventView::Ping],
        }
    }
}

pub(crate) proof fn lemma_chunks_ignore_buffer(
    st: CodexState,
    buffer: Seq<u8>,
    chunks: Seq<JsonView>,
)
    ensures
        codex_after_chunks(codex_rebuffered(st, buffer), chunks) == codex_rebuffered(
            codex_after_chunks(st, chunks),
            buffer,
        ),
        codex_chunks_events(codex_rebuffered(st, buffer), chunks) == codex_chunks_events(
            st,
            chunks,
        ),
    decreases chunks.len(),
{
    if chunks.len() > 0 {
        lemma_chunks_ignore_buffer(st, buffer, chunks.drop_last());
    }
}

fn shell_line_texts(command: &str) -> (r: Vec<String>)
    ensures
        text_views(r@) == shell_line(command@),
{
    let r: Vec<String> = vec![
        "powershell.exe".to_owned(),
        "-Command".to_owned(),
        command.to_owned(),
    ];
    assert(text_views(r@) =~= shell_line(command@));
    r
}

/// The command that a call to the shell with these arguments stands for.
pub fn read_shell_command(args: &Json) -> (r: Vec<String>)
    ensures
        text_views(r@) == shell_command(args@),
{
    if !args.has_members() {
        return shell_line_texts("exit 0");
    }
    match args.get("command") {
        Some(command) => match command {
            Json::Array(items) => read_texts(items),
            Json::Text(s) => {
                if contains_char(s.as_str(), ' ') {
                    shell_line_texts(s.as_str())
                } else {
                    let r: Vec<String> = vec![s.clone()];
                    assert(text_views(r@) =~= seq![s@]);
                    r
                }
            },
            _ => shell_line_texts("exit 0"),
        },
        None => shell_line_texts("exit 0"),
    }
}

fn read_arguments(call: &Json) -> (r: Json)
    ensures
        r@ == arguments_of(call@),
{
    match call.get("args") {
        Some(v) => v.duplicate(),
        None => Json::object(),
    }
}

/// The item that a call becomes.
pub fn item_of_call(call: &Json) -> (r: Json)
    ensures
        r@ == call_item(call@),
{
    let name = read_call_name(call);
    let args = read_arguments(call);
    let args_text = write_json(&args);
    let content: [&str; 2] = [name, args_text.as_str()];
    let id = call_id(&content);
    assert(content@.map_values(|t: &str| t@) =~= seq![
        call_name(call@),
        json_text(arguments_of(call@)),
    ]);
    if text_eq(name, "shell") || text_eq(name, "local_shell") {
        let action = Json::object().with("type", Json::text("exec")).with(
            "command",
            Json::texts(&read_shell_command(&args)),
        );
        Json::object().with("type", Json::text("local_shell_call")).with(
            "status",
            Json::text("in_progress"),
        ).with("call_id", Json::Text(id)).with("action", action)
    } else if text_eq(name, "googleSearch") || text_eq(name, "web_search") || text_eq(
        name,
        "google_search",
    ) {
        let query = match args.text_at("query") {
            Some(s) => Json::text(s),
            None => Json::Text(String::new()),
        };
        let action = Json::object().with("type", Json::text("search")).with("query", query);
        Json::object().with("type", Json::text("web_search_call")).with(
            "status",
            Json::text("in_progress"),
        ).with("call_id", Json::Text(id)).with("action", action)
    } else {
        Json::object().with("type", Json::text("function_call")).with(
            "name",
            Json::text(name),
        ).with("arguments", Json::Text(args_text)).with("call_id", Json::Text(id))
    }
}

fn usage_json(usage: &Option<OpenAIUsage>) -> (r: Json)
    ensures
        r@ == response_usage(*usage),
{
    let (input, output, total) = match usage {
        Some(u) => (u.prompt_tokens as u64, u.completion_tokens as u64, u.total_tokens as u64),
        None => (0u64, 0u64, 0u64),
    };
    Json::object().with("input_tokens", Json::Unsigned(input)).with(
        "input_tokens_details",
        Json::object().with("cached_tokens", Json::Unsigned(0)),
    ).with("output_tokens", Json::Unsigned(output)).with(
        "output_tokens_details",
        Json::object().with("reasoning_tokens", Json::Unsigned(0)),
    ).with("total_tokens", Json::Unsigned(total))
}

/// Makes OpenAI response events out of a Gemini stream.
pub struct CodexStream {
    id: String,
    reader: ChunkReader,
    calls: ToolCalls,
    content: String,
    finish: String,
    usage: Option<OpenAIUsage>,
    closed: bool,
}

impl View for CodexStream {
    type V = CodexState;

    closed spec fn view(&self) -> CodexState {
        CodexState {
            id: self.id@,
            buffer: self.reader@,
            calls: self.calls@,
            content: self.content@,
            finish: self.finish@,
            usage: self.usage,
            closed: self.closed,
        }
    }
}

/// Begins a response stream under a new id of 24 random characters. The events
/// of a response do not name the model.
pub fn create_codex_sse_stream(_model: String) -> (r: CodexStream)
    ensures
        r@ == codex_start(r@.id),
        random_id(r@.id, "resp-"@, 24),
{
    let id = new_random_id("resp-", 24);
    CodexStream::new(id)
}

impl CodexStream {
    /// A stream that has seen nothing.
    pub fn new(id: String) -> (r: CodexStream)
        ensures
            r@ == codex_start(id@),
    {
        CodexStream {
            id,
            reader: ChunkReader::new(),
            calls: ToolCalls::new(),
            content: String::new(),
            finish: "stop".to_owned(),
            usage: None,
            closed: false,
        }
    }

    /// Whether the stream is at its end.
    pub fn is_closed(&self) -> (r: bool)
        ensures
            r == self@.closed,
    {
        self.closed
    }

    /// What the stream begins with, before anything happens.
    pub fn opening(&self) -> (r: StreamEvent)
        ensures
            r@ == data(created_event(self@.id)),
    {
        let response = Json::object().with("id", Json::text(self.id.as_str())).with(
            "object",
            Json::text("response"),
        );
        let body = Json::object().with("type", Json::text("response.created")).with(
            "response",
            response,
        );
        StreamEvent::Data { body, usage: None }
    }

    /// Passes on the function call in a part, if it was not passed on before.
    fn pass_on_call(&mut self, part: &Json, out: &mut Vec<StreamEvent>)
        ensures
            final(self)@ == (CodexState {
                calls: calls_after(old(self)@.calls, part@),
                ..old(self)@
            }),
            event_views(final(out)@) == event_views(old(out)@) + item_events(
                old(self)@.calls,
                part@,
            ),
    {
        let ghost sent = event_views(out@);
        match part.get("functionCall") {
            Some(call) => {
                let key = write_json(call);
                match self.calls.enlist(key.as_str()) {
                    Some(_) => {
                        let item = item_of_call(call);
                        let added = Json::object().with(
                            "type",
                            Json::text("response.output_item.added"),
                        ).with("item", item.duplicate());
                        emit(out, StreamEvent::Data { body: added, usage: None });
                        let done = Json::object().with(
                            "type",
                            Json::text("response.output_item.done"),
                        ).with("item", item);
                        emit(out, StreamEvent::Data { body: done, usage: None });
                    },
                    None => {},
                }
            },
            None => {},
        }
        assert(event_views(out@) =~= sent + item_events(old(self)@.calls, part@));
    }

    /// Takes in a chunk: notes its usage and its end, and passes its calls and
    /// its text on.
    pub fn take_chunk(&mut self, chunk: &Json, out: &mut Vec<StreamEvent>)
        ensures
            final(self)@ == codex_after_chunk(old(self)@, chunk@),
            event_views(final(out)@) == event_views(old(out)@) + codex_chunk_events(
                old(self)@,
                chunk@,
            ),
    {
        let ghost st = self@;
        let ghost sent = event_views(out@);
        match chunk.get("usageMetadata") {
            Some(u) => {
                self.usage = extract_usage_metadata(u);
            },
            None => {},
        }
        let mut delta = String::new();
        assert(sent + Seq::<EventView>::empty() =~= sent);
        match read_first_candidate(chunk) {
            Some(candidate) => {
                match candidate.text_at("finishReason") {
                    Some(reason) => {
                        self.finish = map_response_finish_reason(reason);
                    },
                    None => {},
                }
                let ghost noted = self@;
                match read_parts(candidate) {
                    Some(parts) => {
                        let mut i: usize = 0;
                        assert(items_view(parts@.take(0)) =~= Seq::empty());
                        while i < parts.len()
                            invariant
                                i <= parts@.len(),
                                ({
                                    let acc = codex_after_parts(
                                        st.calls,
                                        items_view(parts@.take(i as int)),
                                    );
                                    &&& self@ == (CodexState { calls: acc.calls, ..noted })
                                    &&& delta@ == acc.delta
                                    &&& event_views(out@) == sent + acc.events
                                }),
                            decreases parts.len() - i,
                        {
                            proof {
                                lemma_next_item(parts@, i as int);
                            }
                            let ghost acc = codex_after_parts(
                                st.calls,
                                items_view(parts@.take(i as int)),
                            );
                            match parts[i].text_at("text") {
                                Some(t) => {
                                    delta.append(straighten(t).as_str());
                                },
                                None => {},
                            }
                            match read_signature(&parts[i]) {
                                Some(sig) => {
                                    emit(out, StreamEvent::Signature(sig.to_owned()));
                                },
                                None => {},
                            }
                            self.pass_on_call(&parts[i], out);
                            proof {
                                let next = codex_after_parts(
                                    st.calls,
                                    items_view(parts@.take(i + 1)),
                                );
                                assert(straightened(Seq::<char>::empty()) =~= Seq::empty());
                                assert(delta@ =~= next.delta);
                                assert(event_views(out@) =~= sent + next.events);
                            }
                            i = i + 1;
                        }
                        assert(parts@.take(i as int) =~= parts@);
                    },
                    None => {},
                }
            },
            None => {},
        }
        let ghost parts = codex_after_parts(st.calls, first_parts(chunk@));
        assert(event_views(out@) == sent + parts.events);
        assert(delta@ == parts.delta);
        if !delta.as_str().is_empty() {
            self.content.append(delta.as_str());
            let body = Json::object().with("type", Json::text("response.output_text.delta")).with(
                "delta",
                Json::Text(delta),
            );
            emit(out, StreamEvent::Data { body, usage: None });
        }
        assert(self@.content =~= st.content + parts.delta);
        assert(event_views(out@) =~= sent + codex_chunk_events(st, chunk@));
    }

    fn close(&mut self, out: &mut Vec<StreamEvent>)
        ensures
            final(self)@ == (CodexState { closed: true, ..old(self)@ }),
            event_views(final(out)@) == event_views(old(out)@) + closing_events(old(self)@),
    {
        let text = Json::object().with("type", Json::text("output_text")).with(
            "text",
            Json::text(self.content.as_str()),
        );
        let message = Json::object().with("type", Json::text("message")).with(
            "role",
            Json::text("assistant"),
        ).with("content", Json::array_of(text));
        let done = Json::object().with("type", Json::text("response.output_item.done")).with(
            "item",
            message,
        );
        emit(out, StreamEvent::Data { body: done, usage: None });
        let response = Json::object().with("id", Json::text(self.id.as_str())).with(
            "object",
            Json::text("response"),
        ).with("status", Json::text("completed")).with(
            "finish_reason",
            Json::text(self.finish.as_str()),
        ).with("usage", usage_json(&self.usage));
        let completed = Json::object().with("type", Json::text("response.completed")).with(
            "response",
            response,
        );
        emit(out, StreamEvent::Data { body: completed, usage: None });
        self.closed = true;
        assert(event_views(out@) =~= event_views(old(out)@) + closing_events(old(self)@));
    }

    /// Takes in what happened and says what to do, in order.
    pub fn step(&mut self, event: Upstream) -> (r: Vec<StreamEvent>)
        ensures
            final(self)@ == codex_next(old(self)@, event@),
            event_views(r@) == codex_output(old(self)@, event@),
    {
        let mut out: Vec<StreamEvent> = Vec::new();
        let ghost st = self@;
        assert(event_views(out@) =~= Seq::empty());
        if self.closed {
            return out;
        }
        match event {
            Upstream::Bytes(bytes) => {
                let chunks = self.reader.push(bytes.as_slice());
                let mut i: usize = 0;
                assert(items_view(chunks@.take(0)) =~= Seq::empty());
                while i < chunks.len()
                    invariant
                        i <= chunks@.len(),
                        self@ == codex_rebuffered(
                            codex_after_chunks(st, items_view(chunks@.take(i as int))),
                            rest_of(st.buffer + bytes@),
                        ),
                        event_views(out@) == codex_chunks_events(
                            st,
                            items_view(chunks@.take(i as int)),
                        ),
                    decreases chunks.len() - i,
                {
                    proof {
                        lemma_next_item(chunks@, i as int);
                    }
                    self.take_chunk(&chunks[i], &mut out);
                    i = i + 1;
                }
                assert(chunks@.take(i as int) =~= chunks@);
            },
            Upstream::Failed(failure) => {
                let body = Json::object().with("type", Json::text("error")).with(
                    "error",
                    failure_json(&failure),
                );
                emit(&mut out, StreamEvent::Data { body, usage: None });
                self.close(&mut out);
                assert(event_views(out@) =~= codex_output(st, event@));
            },
            Upstream::Ended => {
                self.close(&mut out);
                assert(event_views(out@) =~= codex_output(st, event@));
            },
            Upstream::Tick => {
                emit(&mut out, StreamEvent::Ping);
                assert(event_views(out@) =~= codex_output(st, event@));
            },
        }
        out
    }
}

} // verus!
