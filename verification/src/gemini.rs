//! What the chunks of a Gemini stream say, read off their JSON.
use vstd::prelude::*;
use vstd::string::StringExecFns;

use crate::codec::{json_text, write_json};
use crate::json::{items_view, lemma_next_item, text_of, Json, JsonView};
use crate::text::{decimal, join, joined, numeral, text_eq, text_views};

verus! {

/// The parts of a candidate's content; none, where it has no such array.
pub open spec fn parts_of(candidate: JsonView) -> Seq<JsonView> {
    match candidate.get("content"@) {
        Some(content) => match content.array_at("parts"@) {
            Some(parts) => parts,
            None => Seq::empty(),
        },
        None => Seq::empty(),
    }
}

/// The first candidate of a chunk.
pub open spec fn first_candidate(chunk: JsonView) -> Option<JsonView> {
    match chunk.array_at("candidates"@) {
        Some(candidates) => if candidates.len() > 0 {
            Some(candidates[0])
        } else {
            None
        },
        None => None,
    }
}

/// The parts of the first candidate of a chunk.
pub open spec fn first_parts(chunk: JsonView) -> Seq<JsonView> {
    match first_candidate(chunk) {
        Some(candidate) => parts_of(candidate),
        None => Seq::empty(),
    }
}

/// The reason that the first candidate of a chunk gives for its end.
pub open spec fn first_finish_reason(chunk: JsonView) -> Option<Seq<char>> {
    match first_candidate(chunk) {
        Some(candidate) => candidate.text_at("finishReason"@),
        None => None,
    }
}

/// The thought signature in a part: the member `thoughtSignature`, or where there
/// is none `thought_signature`, if it is a text.
pub open spec fn signature_of(part: JsonView) -> Option<Seq<char>> {
    match part.get("thoughtSignature"@) {
        Some(v) => v.as_text(),
        None => part.text_at("thought_signature"@),
    }
}

/// The thought signatures in the parts, in order.
pub open spec fn signatures_of(parts: Seq<JsonView>) -> Seq<Seq<char>>
    decreases parts.len(),
{
    if parts.len() == 0 {
        Seq::empty()
    } else {
        match signature_of(parts.last()) {
            Some(sig) => signatures_of(parts.drop_last()).push(sig),
            None => signatures_of(parts.drop_last()),
        }
    }
}

/// The thought signatures in the first candidates of the chunks, in order.
pub open spec fn first_signatures(chunks: Seq<JsonView>) -> Seq<Seq<char>>
    decreases chunks.len(),
{
    if chunks.len() == 0 {
        Seq::empty()
    } else {
        first_signatures(chunks.drop_last()) + signatures_of(first_parts(chunks.last()))
    }
}

/// Whether the part is a thought.
pub open spec fn is_thought(part: JsonView) -> bool {
    match part.get("thought"@) {
        Some(v) => v.as_bool() == Some(true),
        None => false,
    }
}

/// The text, or nothing of it.
pub open spec fn or_empty(text: Option<Seq<char>>) -> Seq<char> {
    match text {
        Some(s) => s,
        None => Seq::empty(),
    }
}

/// The text, or else a stand-in.
pub open spec fn or_text(text: Option<Seq<char>>, default: Seq<char>) -> Seq<char> {
    match text {
        Some(s) => s,
        None => default,
    }
}

/// The image in a part as Markdown; nothing, where there is none or it is empty.
pub open spec fn image_of(part: JsonView) -> Seq<char> {
    match part.get("inlineData"@) {
        Some(image) => {
            let data = or_empty(image.text_at("data"@));
            if data.len() == 0 {
                Seq::empty()
            } else {
                "![image](data:"@ + or_text(image.text_at("mimeType"@), "image/png"@) + ";base64,"@
                    + data + ")"@
            }
        },
        None => Seq::empty(),
    }
}

/// The name of the function that a call calls.
pub open spec fn call_name(call: JsonView) -> Seq<char> {
    or_text(call.text_at("name"@), "unknown"@)
}

/// The arguments of a call as JSON text: a text as it is, anything else written
/// out, and an empty object where there are none.
pub open spec fn call_arguments(call: JsonView) -> Seq<char> {
    match call.get("args"@) {
        Some(JsonView::Text(s)) => s,
        Some(JsonView::Null) => "{}"@,
        Some(v) => json_text(v),
        None => "{}"@,
    }
}

/// The texts among the items.
pub open spec fn texts_of(items: Seq<JsonView>) -> Seq<Seq<char>>
    decreases items.len(),
{
    if items.len() == 0 {
        Seq::empty()
    } else {
        match items.last().as_text() {
            Some(s) => texts_of(items.drop_last()).push(s),
            None => texts_of(items.drop_last()),
        }
    }
}

/// The source with that number as a Markdown link.
pub open spec fn link_of(number: int, web: JsonView) -> Seq<char> {
    "["@ + numeral(number as nat, 10) + "] ["@ + or_text(web.text_at("title"@), "网页来源"@)
        + "]("@ + or_text(web.text_at("uri"@), "#"@) + ")"@
}

/// The web sources among the items, each under its number in the whole list.
pub open spec fn links_of(items: Seq<JsonView>) -> Seq<Seq<char>>
    decreases items.len(),
{
    if items.len() == 0 {
        Seq::empty()
    } else {
        match items.last().get("web"@) {
            Some(web) => links_of(items.drop_last()).push(link_of(items.len() as int, web)),
            None => links_of(items.drop_last()),
        }
    }
}

/// The searches that a grounding names.
pub open spec fn searches_text(grounding: JsonView) -> Seq<char> {
    match grounding.array_at("webSearchQueries"@) {
        Some(queries) => if texts_of(queries).len() == 0 {
            Seq::empty()
        } else {
            "\n\n---\n**🔍 已为您搜索：** "@ + joined(texts_of(queries), ", "@)
        },
        None => Seq::empty(),
    }
}

/// The sources that a grounding names.
pub open spec fn sources_text(grounding: JsonView) -> Seq<char> {
    match grounding.array_at("groundingChunks"@) {
        Some(chunks) => if links_of(chunks).len() == 0 {
            Seq::empty()
        } else {
            "\n\n**🌐 来源引文：**\n"@ + joined(links_of(chunks), "\n"@)
        },
        None => Seq::empty(),
    }
}

/// The searches and sources that a candidate names.
pub open spec fn grounding_of(candidate: JsonView) -> Seq<char> {
    match candidate.get("groundingMetadata"@) {
        Some(grounding) => searches_text(grounding) + sources_text(grounding),
        None => Seq::empty(),
    }
}

/// The text of the parts, one behind the other.
pub open spec fn parts_text(parts: Seq<JsonView>) -> Seq<char>
    decreases parts.len(),
{
    if parts.len() == 0 {
        Seq::empty()
    } else {
        parts_text(parts.drop_last()) + or_empty(parts.last().text_at("text"@))
    }
}

/// The text of the first candidates of the chunks, one behind the other.
pub open spec fn first_texts(chunks: Seq<JsonView>) -> Seq<char>
    decreases chunks.len(),
{
    if chunks.len() == 0 {
        Seq::empty()
    } else {
        first_texts(chunks.drop_last()) + parts_text(first_parts(chunks.last()))
    }
}

/// The parts of a candidate's content.
pub fn read_parts(candidate: &Json) -> (r: Option<&Vec<Json>>)
    ensures
        match r {
            Some(parts) => parts_of(candidate@) == items_view(parts@),
            None => parts_of(candidate@) == Seq::<JsonView>::empty(),
        },
{
    match candidate.get("content") {
        Some(content) => content.array_at("parts"),
        None => None,
    }
}

/// The first candidate of a chunk.
pub fn read_first_candidate(chunk: &Json) -> (r: Option<&Json>)
    ensures
        match r {
            Some(candidate) => first_candidate(chunk@) == Some(candidate@),
            None => first_candidate(chunk@) is None,
        },
{
    match chunk.array_at("candidates") {
        Some(candidates) => {
            proof {
                crate::json::lemma_items_view(candidates@);
            }
            if candidates.len() > 0 {
                Some(&candidates[0])
            } else {
                None
            }
        },
        None => None,
    }
}

/// The thought signature in a part.
pub fn read_signature(part: &Json) -> (r: Option<&str>)
    ensures
        text_of(r) == signature_of(part@),
{
    match part.get("thoughtSignature") {
        Some(v) => v.as_text(),
        None => part.text_at("thought_signature"),
    }
}

/// Whether the part is a thought.
pub fn read_is_thought(part: &Json) -> (r: bool)
    ensures
        r == is_thought(part@),
{
    match part.get("thought") {
        Some(v) => match v.as_bool() {
            Some(b) => b,
            None => false,
        },
        None => false,
    }
}

/// The image in a part as Markdown.
pub fn read_image(part: &Json) -> (r: String)
    ensures
        r@ == image_of(part@),
{
    let mut out = String::new();
    match part.get("inlineData") {
        Some(image) => {
            let mime_type = match image.text_at("mimeType") {
                Some(s) => s,
                None => "image/png",
            };
            match image.text_at("data") {
                Some(data) => {
                    if !data.is_empty() {
                        out.append("![image](data:");
                        out.append(mime_type);
                        out.append(";base64,");
                        out.append(data);
                        out.append(")");
                        assert(out@ =~= image_of(part@));
                    }
                },
                None => {},
            }
        },
        None => {},
    }
    assert(out@ =~= image_of(part@));
    out
}

/// The name of the function that a call calls.
pub fn read_call_name(call: &Json) -> (r: &str)
    ensures
        r@ == call_name(call@),
{
    match call.text_at("name") {
        Some(s) => s,
        None => "unknown",
    }
}

/// The arguments of a call as JSON text.
pub fn read_call_arguments(call: &Json) -> (r: String)
    ensures
        r@ == call_arguments(call@),
{
    match call.get("args") {
        Some(v) => match v {
            Json::Text(s) => s.clone(),
            Json::Null => "{}".to_owned(),
            _ => write_json(v),
        },
        None => "{}".to_owned(),
    }
}

/// The texts among the items.
pub fn read_texts(items: &Vec<Json>) -> (r: Vec<String>)
    ensures
        text_views(r@) == texts_of(items_view(items@)),
{
    let mut out: Vec<String> = Vec::new();
    let mut i: usize = 0;
    assert(text_views(out@) =~= texts_of(items_view(items@.take(0))));
    while i < items.len()
        invariant
            i <= items@.len(),
            text_views(out@) == texts_of(items_view(items@.take(i as int))),
        decreases items.len() - i,
    {
        proof {
            lemma_next_item(items@, i as int);
        }
        match items[i].as_text() {
            Some(s) => {
                let ghost before = out@;
                out.push(s.to_owned());
                assert(text_views(out@) =~= text_views(before).push(s@));
            },
            None => {},
        }
        i = i + 1;
    }
    assert(items@.take(i as int) =~= items@);
    out
}

fn read_links(items: &Vec<Json>) -> (r: Vec<String>)
    ensures
        text_views(r@) == links_of(items_view(items@)),
{
    let mut out: Vec<String> = Vec::new();
    let mut i: usize = 0;
    assert(text_views(out@) =~= links_of(items_view(items@.take(0))));
    while i < items.len()
        invariant
            i <= items@.len(),
            text_views(out@) == links_of(items_view(items@.take(i as int))),
        decreases items.len() - i,
    {
        proof {
            lemma_next_item(items@, i as int);
        }
        match items[i].get("web") {
            Some(web) => {
                let title = match web.text_at("title") {
                    Some(s) => s,
                    None => "网页来源",
                };
                let uri = match web.text_at("uri") {
                    Some(s) => s,
                    None => "#",
                };
                let number = decimal(i as u64 + 1);
                let mut link = "[".to_owned();
                link.append(number.as_str());
                link.append("] [");
                link.append(title);
                link.append("](");
                link.append(uri);
                link.append(")");
                assert(link@ == link_of(i + 1, web@));
                let ghost before = out@;
                out.push(link);
                assert(text_views(out@) =~= text_views(before).push(link@));
            },
            None => {},
        }
        i = i + 1;
    }
    assert(items@.take(i as int) =~= items@);
    out
}

/// The searches and sources that a candidate names.
pub fn read_grounding(candidate: &Json) -> (r: String)
    ensures
        r@ == grounding_of(candidate@),
{
    let mut out = String::new();
    match candidate.get("groundingMetadata") {
        Some(grounding) => {
            match grounding.array_at("webSearchQueries") {
                Some(queries) => {
                    let texts = read_texts(queries);
                    if texts.len() > 0 {
                        out.append("\n\n---\n**🔍 已为您搜索：** ");
                        out.append(join(&texts, ", ").as_str());
                    }
                },
                None => {},
            }
            assert(out@ =~= searches_text(grounding@));
            match grounding.array_at("groundingChunks") {
                Some(chunks) => {
                    let links = read_links(chunks);
                    if links.len() > 0 {
                        out.append("\n\n**🌐 来源引文：**\n");
                        out.append(join(&links, "\n").as_str());
                    }
                },
                None => {},
            }
            assert(out@ =~= searches_text(grounding@) + sources_text(grounding@));
        },
        None => {},
    }
    assert(out@ =~= grounding_of(candidate@));
    out
}

/// How OpenAI names the reason for the end of a chat completion.
pub open spec fn chat_finish_reason(reason: Seq<char>) -> Seq<char> {
    if reason == "STOP"@ {
        "stop"@
    } else if reason == "MAX_TOKENS"@ {
        "length"@
    } else if reason == "SAFETY"@ || reason == "RECITATION"@ {
        "content_filter"@
    } else {
        reason
    }
}

pub fn map_chat_finish_reason(reason: &str) -> (r: String)
    ensures
        r@ == chat_finish_reason(reason@),
{
    if text_eq(reason, "STOP") {
        "stop".to_owned()
    } else if text_eq(reason, "MAX_TOKENS") {
        "length".to_owned()
    } else if text_eq(reason, "SAFETY") || text_eq(reason, "RECITATION") {
        "content_filter".to_owned()
    } else {
        reason.to_owned()
    }
}

/// How OpenAI names the reason for the end of a text completion.
pub open spec fn text_finish_reason(reason: Seq<char>) -> Seq<char> {
    if reason == "STOP"@ {
        "stop"@
    } else if reason == "MAX_TOKENS"@ {
        "length"@
    } else if reason == "SAFETY"@ {
        "content_filter"@
    } else {
        reason
    }
}

pub fn map_text_finish_reason(reason: &str) -> (r: String)
    ensures
        r@ == text_finish_reason(reason@),
{
    if text_eq(reason, "STOP") {
        "stop".to_owned()
    } else if text_eq(reason, "MAX_TOKENS") {
        "length".to_owned()
    } else if text_eq(reason, "SAFETY") {
        "content_filter".to_owned()
    } else {
        reason.to_owned()
    }
}

/// How a response names the reason for its end.
pub open spec fn response_finish_reason(reason: Seq<char>) -> Seq<char> {
    if reason == "MAX_TOKENS"@ {
        "length"@
    } else {
        "stop"@
    }
}

pub fn map_response_finish_reason(reason: &str) -> (r: String)
    ensures
        r@ == response_finish_reason(reason@),
{
    if text_eq(reason, "MAX_TOKENS") {
        "length".to_owned()
    } else {
        "stop".to_owned()
    }
}

} // verus!
