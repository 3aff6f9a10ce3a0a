//! What a client reads in the events of a response stream, over the members of the
//! chunks that come in.
use std::collections::hash_map::DefaultHasher;

use vstd::prelude::*;
use vstd::std_specs::hash::DefaultHasherAdditionalSpecFns;

use crate::chat_event_laws::counts_are;
use crate::codec::json_text;
use crate::codex::{
    call_item, closing_events, codex_after_chunk, codex_after_chunks, codex_after_parts,
    codex_chunk_events, codex_chunks_events, codex_next, codex_output, codex_start, created_event,
    item_events, shell_command, CodexParts, CodexState,
};
use crate::events::{EventView, FailureView, UpstreamView};
use crate::gemini::{parts_of, texts_of};
use crate::gemini_laws::{are_texts_of, is_text_of, law_counts};
use crate::json::{JsonView, NumberView};
use crate::reader::{chunks_of, lines_of, rest_of};
use crate::text::{numeral, straightened};
use crate::tool_calls::{all_hashed, hashed};

verus! {

/// A stream begins under its id, with nothing seen, and as if it were stopped.
pub proof fn law_codex_begins(id: Seq<char>)
    ensures
        ({
            let st = codex_start(id);
            &&& st.id == id
            &&& st.buffer.len() == 0
            &&& st.calls.len() == 0
            &&& st.content.len() == 0
            &&& st.finish == "stop"@
            &&& st.usage is None
            &&& !st.closed
        }),
        created_event(id) == JsonView::Object(
            map![
                "type"@ => JsonView::Text("response.created"@),
                "response"@ => JsonView::Object(
                    map![
                        "id"@ => JsonView::Text(id),
                        "object"@ => JsonView::Text("response"@),
                    ],
                ),
            ],
        ),
{
}

/// Whether the text is the id of a call with that name and those arguments: the hash
/// of the name and then of the arguments as JSON text, in hexadecimal.
pub open spec fn is_id_of(id: Seq<char>, name: Seq<char>, arguments: JsonView) -> bool {
    id == "call_"@ + numeral(
        DefaultHasher::spec_finish(
            hashed(hashed(Seq::empty(), name), json_text(arguments)),
        ) as nat,
        16,
    )
}

/// Whether the call has that name and those arguments: those under `name` and
/// `args`, or else `unknown` and an empty object.
pub open spec fn is_call_of(call: JsonView, name: Seq<char>, arguments: JsonView) -> bool {
    &&& match call.get("name"@) {
        Some(JsonView::Text(s)) => name == s,
        _ => name == "unknown"@,
    }
    &&& match call.get("args"@) {
        Some(v) => arguments == v,
        None => arguments == JsonView::Object(Map::empty()),
    }
}

proof fn lemma_call_hash(name: Seq<char>, text: Seq<char>)
    ensures
        all_hashed(seq![name, text]) == hashed(hashed(Seq::empty(), name), text),
{
    assert(seq![name, text].drop_last() =~= seq![name]);
    assert(seq![name].drop_last() =~= Seq::empty());
    reveal_with_fuel(all_hashed, 3);
}

/// Every call becomes an item under the id that its name and its arguments give,
/// whatever kind of item it becomes. So calls with other arguments have another id,
/// but for a clash of the hash.
pub proof fn law_codex_call_id(call: JsonView, name: Seq<char>, arguments: JsonView)
    requires
        is_call_of(call, name, arguments),
    ensures
        call_item(call).get("call_id"@) matches Some(JsonView::Text(id)) && id == "call_"@
            + numeral(
            DefaultHasher::spec_finish(
                hashed(hashed(Seq::empty(), name), json_text(arguments)),
            ) as nat,
            16,
        ),
{
    lemma_call_hash(name, json_text(arguments));
    reveal_strlit("call_id");
    reveal_strlit("action");
    assert("call_id"@.len() == 7 && "action"@.len() == 6);
}

/// A call of the shell becomes an item that the client's shell is to execute, a call
/// for a search one that the client is to search with, and any other call one with
/// its name and its arguments as JSON text.
pub proof fn law_codex_call_item(
    call: JsonView,
    name: Seq<char>,
    arguments: JsonView,
    id: Seq<char>,
)
    requires
        is_call_of(call, name, arguments),
        is_id_of(id, name, arguments),
    ensures
        name == "shell"@ || name == "local_shell"@ ==> call_item(call) == JsonView::Object(
            map![
                "type"@ => JsonView::Text("local_shell_call"@),
                "status"@ => JsonView::Text("in_progress"@),
                "call_id"@ => JsonView::Text(id),
                "action"@ => JsonView::Object(
                    map![
                        "type"@ => JsonView::Text("exec"@),
                        "command"@ => JsonView::Array(
                            Seq::new(
                                shell_command(arguments).len(),
                                |i: int| JsonView::Text(shell_command(arguments)[i]),
                            ),
                        ),
                    ],
                ),
            ],
        ),
        name == "googleSearch"@ || name == "web_search"@ || name == "google_search"@ ==> call_item(
            call,
        ) == JsonView::Object(
            map![
                "type"@ => JsonView::Text("web_search_call"@),
                "status"@ => JsonView::Text("in_progress"@),
                "call_id"@ => JsonView::Text(id),
                "action"@ => JsonView::Object(
                    map![
                        "type"@ => JsonView::Text("search"@),
                        "query"@ => JsonView::Text(
                            match arguments.get("query"@) {
                                Some(JsonView::Text(query)) => query,
                                _ => Seq::empty(),
                            },
                        ),
                    ],
                ),
            ],
        ),
        name != "shell"@ && name != "local_shell"@ && name != "googleSearch"@ && name
            != "web_search"@ && name != "google_search"@ ==> call_item(call) == JsonView::Object(
            map![
                "type"@ => JsonView::Text("function_call"@),
                "name"@ => JsonView::Text(name),
                "arguments"@ => JsonView::Text(json_text(arguments)),
                "call_id"@ => JsonView::Text(id),
            ],
        ),
{
    lemma_call_hash(name, json_text(arguments));
    reveal_strlit("shell");
    reveal_strlit("local_shell");
    reveal_strlit("googleSearch");
    reveal_strlit("web_search");
    reveal_strlit("google_search");
    assert("shell"@.len() == 5 && "local_shell"@.len() == 11);
    assert("googleSearch"@.len() == 12 && "web_search"@.len() == 10);
    assert("google_search"@.len() == 13);
    let command = shell_command(arguments);
    assert(command.map_values(|s: Seq<char>| JsonView::Text(s)) =~= Seq::new(
        command.len(),
        |i: int| JsonView::Text(command[i]),
    ));
}

/// The command of a call of the shell: the texts of a list as they are; a text with
/// a space in it through the shell, one without as a program; and anything else is
/// nothing to do.
pub proof fn law_codex_shell_command(arguments: JsonView, items: Seq<JsonView>, s: Seq<char>)
    ensures
        arguments.get("command"@) == Some(JsonView::Array(items)) ==> shell_command(arguments)
            == texts_of(items),
        arguments.get("command"@) == Some(JsonView::Text(s)) && (exists|i: int|
            0 <= i < s.len() && #[trigger] s[i] == ' ') ==> shell_command(arguments) == seq![
            "powershell.exe"@,
            "-Command"@,
            s,
        ],
        arguments.get("command"@) == Some(JsonView::Text(s)) && (forall|i: int|
            0 <= i < s.len() ==> #[trigger] s[i] != ' ') ==> shell_command(arguments) == seq![s],
        !(arguments.get("command"@) matches Some(JsonView::Array(_))) && !(arguments.get(
            "command"@,
        ) matches Some(JsonView::Text(_))) ==> shell_command(arguments) == seq![
            "powershell.exe"@,
            "-Command"@,
            "exit 0"@,
        ],
{
    if arguments.get("command"@) is Some {
        assert(arguments->Object_0.dom().contains("command"@));
        assert(arguments.has_members());
    }
}

/// What one part comes to: its text with straight quotation marks, its signature
/// handed out, and then its call added and done, unless the same call was before.
pub proof fn law_codex_part(calls: Seq<Seq<char>>, part: JsonView, text: Seq<char>)
    requires
        is_text_of(part, text),
    ensures
        ({
            let r = codex_after_parts(calls, seq![part]);
            let signature = match part.get("thoughtSignature"@) {
                Some(JsonView::Text(s)) => seq![EventView::Signature(s)],
                Some(_) => Seq::empty(),
                None => match part.get("thought_signature"@) {
                    Some(JsonView::Text(s)) => seq![EventView::Signature(s)],
                    _ => Seq::empty(),
                },
            };
            &&& r.delta == straightened(text)
            &&& match part.get("functionCall"@) {
                Some(call) => if exists|i: int|
                    0 <= i < calls.len() && #[trigger] calls[i] == json_text(call) {
                    r.calls == calls && r.events == signature
                } else {
                    &&& r.calls == calls.push(json_text(call))
                    &&& r.events == signature + seq![
                        EventView::Data(
                            JsonView::Object(
                                map![
                                    "type"@ => JsonView::Text("response.output_item.added"@),
                                    "item"@ => call_item(call),
                                ],
                            ),
                            None,
                        ),
                        EventView::Data(
                            JsonView::Object(
                                map![
                                    "type"@ => JsonView::Text("response.output_item.done"@),
                                    "item"@ => call_item(call),
                                ],
                            ),
                            None,
                        ),
                    ]
                },
                None => r.calls == calls && r.events == signature,
            }
        }),
{
    let r = codex_after_parts(calls, seq![part]);
    assert(seq![part].drop_last() =~= Seq::empty());
    assert(seq![part].last() == part);
    reveal_with_fuel(codex_after_parts, 2);
    let raw = match part.get("text"@) {
        Some(JsonView::Text(s)) => s,
        _ => Seq::empty(),
    };
    assert(text =~= raw);
    assert(Seq::<char>::empty() + straightened(text) =~= straightened(text));
    let signature = match part.get("thoughtSignature"@) {
        Some(JsonView::Text(s)) => seq![EventView::Signature(s)],
        Some(_) => Seq::empty(),
        None => match part.get("thought_signature"@) {
            Some(JsonView::Text(s)) => seq![EventView::Signature(s)],
            _ => Seq::empty(),
        },
    };
    match part.get("functionCall"@) {
        Some(call) => {
            assert(calls.contains(json_text(call)) <==> exists|i: int|
                0 <= i < calls.len() && #[trigger] calls[i] == json_text(call));
            if calls.contains(json_text(call)) {
                assert(r.events =~= signature);
            } else {
                assert(r.events =~= signature + r.events.skip(signature.len() as int));
                assert(r.events.skip(signature.len() as int) =~= item_events(calls, part));
            }
        },
        None => {
            assert(r.events =~= signature);
        },
    }
}

/// Parts add up: what some parts and others behind them come to is what the first
/// come to, and then what the others come to.
pub proof fn law_codex_parts_add_up(
    calls: Seq<Seq<char>>,
    first: Seq<JsonView>,
    second: Seq<JsonView>,
)
    ensures
        ({
            let a = codex_after_parts(calls, first);
            let b = codex_after_parts(a.calls, second);
            codex_after_parts(calls, first + second) == (CodexParts {
                calls: b.calls,
                events: a.events + b.events,
                delta: a.delta + b.delta,
            })
        }),
    decreases second.len(),
{
    let a = codex_after_parts(calls, first);
    let b = codex_after_parts(a.calls, second);
    let all = codex_after_parts(calls, first + second);
    if second.len() == 0 {
        assert(first + second =~= first);
        assert(a.events + b.events =~= a.events);
        assert(a.delta + b.delta =~= a.delta);
    } else {
        law_codex_parts_add_up(calls, first, second.drop_last());
        assert((first + second).drop_last() =~= first + second.drop_last());
        assert((first + second).last() == second.last());
        assert(all.events =~= a.events + b.events);
        assert(all.delta =~= a.delta + b.delta);
    }
}

/// The text of parts is what they say, one behind the other, with nothing taken off
/// or added, and with straight quotation marks in place of curly ones.
pub proof fn law_codex_texts(
    calls: Seq<Seq<char>>,
    parts: Seq<JsonView>,
    texts: Seq<Seq<char>>,
)
    requires
        are_texts_of(parts, texts),
    ensures
        ({
            let delta = codex_after_parts(calls, parts).delta;
            let said = texts.flatten();
            &&& delta.len() == said.len()
            &&& forall|i: int|
                0 <= i < said.len() ==> #[trigger] delta[i] == (if said[i] as int == 0x201c
                    || said[i] as int == 0x201d {
                    '"'
                } else {
                    said[i]
                })
        }),
    decreases parts.len(),
{
    if parts.len() > 0 {
        let front = parts.drop_last();
        let n = parts.len() - 1;
        assert(is_text_of(parts[n], texts[n]));
        assert(are_texts_of(front, texts.drop_last())) by {
            assert forall|i: int| 0 <= i < front.len() implies is_text_of(
                #[trigger] front[i],
                texts.drop_last()[i],
            ) by {
                assert(is_text_of(parts[i], texts[i]));
            }
        }
        law_codex_texts(calls, front, texts.drop_last());
        texts.drop_last().lemma_flatten_push(texts.last());
        assert(texts.drop_last().push(texts.last()) =~= texts);
        assert(parts.last() == parts[n]);
        let raw = match parts[n].get("text"@) {
            Some(JsonView::Text(s)) => s,
            _ => Seq::empty(),
        };
        assert(texts.last() =~= raw);
        let before = codex_after_parts(calls, front).delta;
        let delta = codex_after_parts(calls, parts).delta;
        let said = texts.flatten();
        assert(delta == before + straightened(raw));
        assert(said == texts.drop_last().flatten() + raw);
        assert forall|i: int| 0 <= i < said.len() implies #[trigger] delta[i] == (if said[i] as int
            == 0x201c || said[i] as int == 0x201d {
            '"'
        } else {
            said[i]
        }) by {
            if i < before.len() {
                assert(delta[i] == before[i]);
                assert(said[i] == texts.drop_last().flatten()[i]);
            } else {
                assert(delta[i] == straightened(raw)[i - before.len()]);
                assert(said[i] == raw[i - before.len()]);
            }
        }
    }
}

/// A chunk is passed on as its first candidate: the events of the parts, and then
/// their text, if there is any. The stream notes the calls and the text, the usage
/// that the chunk reports, and the reason that the candidate gives for its end:
/// `length` for `MAX_TOKENS`, and else `stop`.
pub proof fn law_codex_chunk(
    st: CodexState,
    chunk: JsonView,
    candidates: Seq<JsonView>,
)
    requires
        chunk.get("candidates"@) == Some(JsonView::Array(candidates)),
        candidates.len() > 0,
    ensures
        ({
            let parts = codex_after_parts(st.calls, parts_of(candidates[0]));
            let after = codex_after_chunk(st, chunk);
            &&& codex_chunk_events(st, chunk) == parts.events + (if parts.delta.len() == 0 {
                Seq::empty()
            } else {
                seq![
                    EventView::Data(
                        JsonView::Object(
                            map![
                                "type"@ => JsonView::Text("response.output_text.delta"@),
                                "delta"@ => JsonView::Text(parts.delta),
                            ],
                        ),
                        None,
                    ),
                ]
            })
            &&& after.calls == parts.calls
            &&& after.content == st.content + parts.delta
            &&& match candidates[0].get("finishReason"@) {
                Some(JsonView::Text(reason)) => if reason == "MAX_TOKENS"@ {
                    after.finish == "length"@
                } else {
                    after.finish == "stop"@
                },
                _ => after.finish == st.finish,
            }
        }),
{
    let parts = codex_after_parts(st.calls, parts_of(candidates[0]));
    if parts.delta.len() == 0 {
        assert(codex_chunk_events(st, chunk) =~= parts.events + Seq::empty());
    } else {
        assert(codex_chunk_events(st, chunk) =~= parts.events + codex_chunk_events(st, chunk).skip(
            parts.events.len() as int,
        ));
        assert(codex_chunk_events(st, chunk).skip(parts.events.len() as int) =~= seq![
            codex_chunk_events(st, chunk).last(),
        ]);
    }
}

/// A chunk without candidates passes nothing on. A usage that a chunk reports
/// replaces the one before; nothing else does. What the stream is called, what it
/// has not read yet and whether it is open stay.
pub proof fn law_codex_notes(st: CodexState, chunk: JsonView)
    ensures
        ({
            let after = codex_after_chunk(st, chunk);
            &&& match chunk.get("usageMetadata"@) {
                Some(u) => after.usage is Some && counts_are(after.usage->0, u),
                None => after.usage == st.usage,
            }
            &&& after.id == st.id
            &&& after.buffer == st.buffer
            &&& after.closed == st.closed
            &&& !(chunk.get("candidates"@) matches Some(JsonView::Array(_))) || chunk.get(
                "candidates"@,
            ) == Some(JsonView::Array(Seq::empty())) ==> {
                &&& codex_chunk_events(st, chunk) == Seq::<EventView>::empty()
                &&& after == (CodexState { usage: after.usage, ..st })
            }
        }),
{
    match chunk.get("usageMetadata"@) {
        Some(u) => {
            law_counts(u);
        },
        None => {},
    }
    assert(st.content + Seq::<char>::empty() =~= st.content);
}

/// Chunks are passed on one after the other.
pub proof fn law_codex_chunks_in_order(st: CodexState, chunks: Seq<JsonView>, chunk: JsonView)
    ensures
        codex_chunks_events(st, Seq::empty()) == Seq::<EventView>::empty(),
        codex_after_chunks(st, Seq::empty()) == st,
        codex_chunks_events(st, chunks.push(chunk)) == codex_chunks_events(st, chunks)
            + codex_chunk_events(codex_after_chunks(st, chunks), chunk),
        codex_after_chunks(st, chunks.push(chunk)) == codex_after_chunk(
            codex_after_chunks(st, chunks),
            chunk,
        ),
{
    assert(chunks.push(chunk).drop_last() =~= chunks);
}

/// What an open stream does with bytes: it passes on the chunks of all lines that
/// are complete, and keeps the rest.
pub proof fn law_codex_takes_bytes(st: CodexState, bytes: Seq<u8>)
    requires
        !st.closed,
    ensures
        ({
            let chunks = chunks_of(lines_of(st.buffer + bytes));
            let after = codex_after_chunks(st, chunks);
            &&& codex_output(st, UpstreamView::Bytes(bytes)) == codex_chunks_events(st, chunks)
            &&& codex_next(st, UpstreamView::Bytes(bytes)) == (CodexState {
                buffer: rest_of(st.buffer + bytes),
                ..after
            })
        }),
{
}

/// The events of the end: the message with all the text, and the response with its
/// reason for the end and the counts that were reported last, or zeros.
pub proof fn law_codex_end(st: CodexState, input: int, output: int, total: int)
    requires
        match st.usage {
            Some(u) => input == u.prompt_tokens && output == u.completion_tokens && total
                == u.total_tokens,
            None => input == 0 && output == 0 && total == 0,
        },
    ensures
        closing_events(st) == seq![
            EventView::Data(
                JsonView::Object(
                    map![
                        "type"@ => JsonView::Text("response.output_item.done"@),
                        "item"@ => JsonView::Object(
                            map![
                                "type"@ => JsonView::Text("message"@),
                                "role"@ => JsonView::Text("assistant"@),
                                "content"@ => JsonView::Array(
                                    seq![
                                        JsonView::Object(
                                            map![
                                                "type"@ => JsonView::Text("output_text"@),
                                                "text"@ => JsonView::Text(st.content),
                                            ],
                                        ),
                                    ],
                                ),
                            ],
                        ),
                    ],
                ),
                None,
            ),
            EventView::Data(
                JsonView::Object(
                    map![
                        "type"@ => JsonView::Text("response.completed"@),
                        "response"@ => JsonView::Object(
                            map![
                                "id"@ => JsonView::Text(st.id),
                                "object"@ => JsonView::Text("response"@),
                                "status"@ => JsonView::Text("completed"@),
                                "finish_reason"@ => JsonView::Text(st.finish),
                                "usage"@ => JsonView::Object(
                                    map![
                                        "input_tokens"@ => JsonView::Number(
                                            NumberView::Integer(input),
                                        ),
                                        "input_tokens_details"@ => JsonView::Object(
                                            map![
                                                "cached_tokens"@ => JsonView::Number(
                                                    NumberView::Integer(0),
                                                ),
                                            ],
                                        ),
                                        "output_tokens"@ => JsonView::Number(
                                            NumberView::Integer(output),
                                        ),
                                        "output_tokens_details"@ => JsonView::Object(
                                            map![
                                                "reasoning_tokens"@ => JsonView::Number(
                                                    NumberView::Integer(0),
                                                ),
                                            ],
                                        ),
                                        "total_tokens"@ => JsonView::Number(
                                            NumberView::Integer(total),
                                        ),
                                    ],
                                ),
                            ],
                        ),
                    ],
                ),
                None,
            ),
        ],
{
}

/// What an open stream does when upstream fails, when it has sent everything, and
/// when it is time for a sign of life. A failure is told, and then the response ends
/// as it does without one.
pub proof fn law_codex_takes_the_rest(st: CodexState, failure: FailureView)
    requires
        !st.closed,
    ensures
        codex_output(st, UpstreamView::Failed(failure)) == seq![
            EventView::Data(
                JsonView::Object(
                    map![
                        "type"@ => JsonView::Text("error"@),
                        "error"@ => JsonView::Object(
                            map![
                                "type"@ => JsonView::Text(failure.error_type),
                                "message"@ => JsonView::Text(failure.message),
                                "code"@ => JsonView::Text("stream_error"@),
                                "i18n_key"@ => JsonView::Text(failure.i18n_key),
                            ],
                        ),
                    ],
                ),
                None,
            ),
        ] + closing_events(st),
        codex_output(st, UpstreamView::Ended) == closing_events(st),
        codex_output(st, UpstreamView::Tick) == seq![EventView::Ping],
        codex_next(st, UpstreamView::Failed(failure)) == (CodexState { closed: true, ..st }),
        codex_next(st, UpstreamView::Ended) == (CodexState { closed: true, ..st }),
        codex_next(st, UpstreamView::Tick) == st,
{
}

} // verus!
