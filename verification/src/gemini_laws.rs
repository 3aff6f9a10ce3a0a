//! What holds of the readings of a Gemini chunk, over the members of its JSON.
use vstd::prelude::*;

use crate::codec::json_text;
use crate::gemini::{
    call_arguments, call_name, chat_finish_reason, first_candidate, first_finish_reason,
    first_parts, first_signatures, first_texts, grounding_of, image_of, is_thought, links_of,
    parts_of, parts_text, response_finish_reason, searches_text, signature_of,
    signatures_of, sources_text, text_finish_reason, texts_of,
};
use crate::json::{items_view, members_view, Json, JsonView, NumberView};
use crate::text::{joined, numeral};
use crate::usage::usage_of;

verus! {

/// An object has the members that its map has, and nothing else has any.
pub proof fn law_members(v: JsonView, name: Seq<char>)
    ensures
        match v {
            JsonView::Object(members) => {
                &&& members.dom().contains(name) ==> v.get(name) == Some(members[name])
                &&& !members.dom().contains(name) ==> v.get(name) is None
            },
            _ => v.get(name) is None,
        },
        match v.get(name) {
            Some(JsonView::Text(s)) => v.text_at(name) == Some(s) && v.array_at(name) is None,
            Some(JsonView::Array(items)) => v.array_at(name) == Some(items) && v.text_at(name)
                is None,
            _ => v.text_at(name) is None && v.array_at(name) is None,
        },
{
}

/// A member that is put into an object is there, and all others stay.
pub proof fn law_with_member(v: JsonView, name: Seq<char>, value: JsonView, other: Seq<char>)
    requires
        v is Object,
    ensures
        v.with(name, value).get(name) == Some(value),
        other != name ==> v.with(name, value).get(other) == v.get(other),
        JsonView::object().get(name) is None,
        v.has_members() <==> exists|n: Seq<char>| #[trigger] v.get(n) is Some,
{
    let members = v->Object_0;
    if v.has_members() {
        if forall|n: Seq<char>| !members.dom().contains(n) {
            assert(members =~= Map::empty());
        }
        let n = choose|n: Seq<char>| members.dom().contains(n);
        assert(v.get(n) is Some);
    }
}

/// What a JSON value in memory is: its kind, its items in order, and of its members
/// with one name the last.
pub proof fn law_json_views(
    items: Vec<Json>,
    members: Vec<(String, Json)>,
    n: u64,
    i: i64,
    s: String,
)
    ensures
        Json::Null@ == JsonView::Null,
        Json::Unsigned(n)@ == JsonView::Number(NumberView::Integer(n as int)),
        Json::Signed(i)@ == JsonView::Number(NumberView::Integer(i as int)),
        Json::Text(s)@ == JsonView::Text(s@),
        Json::Array(items)@ is Array,
        Json::Array(items)@->Array_0 == Seq::new(items@.len(), |k: int| items@[k]@),
        Json::Object(members)@ is Object,
        members@.len() == 0 ==> Json::Object(members)@->Object_0 == Map::<
            Seq<char>,
            JsonView,
        >::empty(),
        members@.len() > 0 ==> Json::Object(members)@->Object_0 == members_view(
            members@.drop_last(),
        ).insert(members@.last().0@, members@.last().1@),
{
    crate::json::lemma_items_view(items@);
    assert(items_view(items@) =~= Seq::new(items@.len(), |k: int| items@[k]@));
}

/// A count is the integer under its name, in 32 bits: for a count below 2^32 the
/// count itself. What is no integer of 64 bits, or is negative, counts for nothing.
pub proof fn law_counts(u: JsonView)
    ensures
        ({
            let r = usage_of(u);
            &&& match u.get("promptTokenCount"@) {
                Some(JsonView::Number(NumberView::Integer(n))) => if 0 <= n <= u64::MAX {
                    r.prompt_tokens == n % 0x1_0000_0000
                } else {
                    r.prompt_tokens == 0
                },
                _ => r.prompt_tokens == 0,
            }
            &&& match u.get("candidatesTokenCount"@) {
                Some(JsonView::Number(NumberView::Integer(n))) => if 0 <= n <= u64::MAX {
                    r.completion_tokens == n % 0x1_0000_0000
                } else {
                    r.completion_tokens == 0
                },
                _ => r.completion_tokens == 0,
            }
            &&& match u.get("totalTokenCount"@) {
                Some(JsonView::Number(NumberView::Integer(n))) => if 0 <= n <= u64::MAX {
                    r.total_tokens == n % 0x1_0000_0000
                } else {
                    r.total_tokens == 0
                },
                _ => r.total_tokens == 0,
            }
            &&& match u.get("cachedContentTokenCount"@) {
                Some(JsonView::Number(NumberView::Integer(n))) => if 0 <= n <= u64::MAX {
                    &&& r.prompt_tokens_details is Some
                    &&& r.prompt_tokens_details->0.cached_tokens is Some
                    &&& r.prompt_tokens_details->0.cached_tokens->0 == n % 0x1_0000_0000
                } else {
                    r.prompt_tokens_details is None
                },
                _ => r.prompt_tokens_details is None,
            }
            &&& r.completion_tokens_details is None
        }),
{
}

/// The parts of a candidate are the array `parts` in its `content`.
pub proof fn law_parts(candidate: JsonView, content: JsonView, parts: Seq<JsonView>)
    ensures
        candidate.get("content"@) == Some(content) && content.get("parts"@) == Some(
            JsonView::Array(parts),
        ) ==> parts_of(candidate) == parts,
        candidate.get("content"@) == Some(content) && !(content.get("parts"@) matches Some(
            JsonView::Array(_),
        )) ==> parts_of(candidate) == Seq::<JsonView>::empty(),
        candidate.get("content"@) is None ==> parts_of(candidate) == Seq::<JsonView>::empty(),
{
}

/// The first candidate is the first item of the array `candidates`; its parts and
/// its reason for the end are those of a chunk.
pub proof fn law_first_candidate(chunk: JsonView, candidates: Seq<JsonView>)
    ensures
        chunk.get("candidates"@) == Some(JsonView::Array(candidates)) && candidates.len() > 0 ==> {
            &&& first_candidate(chunk) == Some(candidates[0])
            &&& first_parts(chunk) == parts_of(candidates[0])
            &&& match candidates[0].get("finishReason"@) {
                Some(JsonView::Text(reason)) => first_finish_reason(chunk) == Some(reason),
                _ => first_finish_reason(chunk) is None,
            }
        },
        (chunk.get("candidates"@) == Some(JsonView::Array(candidates)) && candidates.len() == 0)
            || !(chunk.get("candidates"@) matches Some(JsonView::Array(_))) ==> {
            &&& first_candidate(chunk) is None
            &&& first_parts(chunk) == Seq::<JsonView>::empty()
            &&& first_finish_reason(chunk) is None
        },
{
}

/// Whether the text is what the part says: its member `text`, character for
/// character, or nothing, where that is no text.
pub open spec fn is_text_of(part: JsonView, text: Seq<char>) -> bool {
    match part.get("text"@) {
        Some(JsonView::Text(s)) => text == s,
        _ => text.len() == 0,
    }
}

/// Whether the texts are what the parts say, one for each part.
pub open spec fn are_texts_of(parts: Seq<JsonView>, texts: Seq<Seq<char>>) -> bool {
    &&& texts.len() == parts.len()
    &&& forall|i: int| 0 <= i < parts.len() ==> is_text_of(#[trigger] parts[i], texts[i])
}

/// The text of the parts is what they say, one behind the other, with nothing taken
/// off, added or changed.
pub proof fn law_text_of_parts(parts: Seq<JsonView>, texts: Seq<Seq<char>>)
    requires
        are_texts_of(parts, texts),
    ensures
        parts_text(parts) == texts.flatten(),
    decreases parts.len(),
{
    if parts.len() > 0 {
        let front = parts.drop_last();
        assert(is_text_of(parts[parts.len() - 1], texts[parts.len() - 1]));
        assert(are_texts_of(front, texts.drop_last())) by {
            assert forall|i: int| 0 <= i < front.len() implies is_text_of(
                #[trigger] front[i],
                texts.drop_last()[i],
            ) by {
                assert(is_text_of(parts[i], texts[i]));
            }
        }
        law_text_of_parts(front, texts.drop_last());
        texts.drop_last().lemma_flatten_push(texts.last());
        assert(texts.drop_last().push(texts.last()) =~= texts);
        assert(texts.last() =~= (match parts.last().get("text"@) {
            Some(JsonView::Text(s)) => s,
            _ => Seq::empty(),
        }));
    }
}

/// The first candidates of some chunks and of one more behind them say what those
/// say, and then what the parts of the last say.
pub proof fn law_first_texts(chunks: Seq<JsonView>, chunk: JsonView)
    ensures
        first_texts(Seq::empty()) == Seq::<char>::empty(),
        first_texts(chunks.push(chunk)) == first_texts(chunks) + parts_text(first_parts(chunk)),
        first_signatures(Seq::empty()) == Seq::<Seq<char>>::empty(),
        first_signatures(chunks.push(chunk)) == first_signatures(chunks) + signatures_of(
            first_parts(chunk),
        ),
{
    assert(chunks.push(chunk).drop_last() =~= chunks);
}

/// A signature stands under `thoughtSignature`, or, only where there is no such
/// member, under `thought_signature`; what is no text is none.
pub proof fn law_signature(part: JsonView)
    ensures
        match part.get("thoughtSignature"@) {
            Some(JsonView::Text(s)) => signature_of(part) == Some(s),
            Some(_) => signature_of(part) is None,
            None => match part.get("thought_signature"@) {
                Some(JsonView::Text(s)) => signature_of(part) == Some(s),
                _ => signature_of(part) is None,
            },
        },
{
}

/// The signatures of parts are those of each, in order.
pub proof fn law_signatures(parts: Seq<JsonView>, part: JsonView)
    ensures
        signatures_of(Seq::empty()) == Seq::<Seq<char>>::empty(),
        signature_of(part) is None ==> signatures_of(parts.push(part)) == signatures_of(parts),
        signature_of(part) matches Some(s) ==> signatures_of(parts.push(part)) == signatures_of(
            parts,
        ).push(s),
{
    assert(parts.push(part).drop_last() =~= parts);
}

/// A part is a thought where its member `thought` is true, and only there.
pub proof fn law_thought(part: JsonView)
    ensures
        is_thought(part) <==> part.get("thought"@) == Some(JsonView::Bool(true)),
{
}

/// An image is its data as a Markdown image, of its type or else a PNG; without data
/// there is no image.
pub proof fn law_image(part: JsonView, image: JsonView, data: Seq<char>)
    ensures
        part.get("inlineData"@) is None ==> image_of(part) == Seq::<char>::empty(),
        part.get("inlineData"@) == Some(image) && !(image.get("data"@) matches Some(
            JsonView::Text(_),
        )) ==> image_of(part) == Seq::<char>::empty(),
        part.get("inlineData"@) == Some(image) && image.get("data"@) == Some(JsonView::Text(data))
            ==> {
            if data.len() == 0 {
                image_of(part) == Seq::<char>::empty()
            } else {
                match image.get("mimeType"@) {
                    Some(JsonView::Text(kind)) => image_of(part) == "![image](data:"@ + kind
                        + ";base64,"@ + data + ")"@,
                    _ => image_of(part) == "![image](data:"@ + "image/png"@ + ";base64,"@ + data
                        + ")"@,
                }
            }
        },
{
}

/// A call has the name under `name`. Its arguments are what stands under `args`: a
/// text as it is, anything else as JSON text, and an empty object for nothing or
/// null.
pub proof fn law_call(call: JsonView)
    ensures
        match call.get("name"@) {
            Some(JsonView::Text(name)) => call_name(call) == name,
            _ => call_name(call) == "unknown"@,
        },
        match call.get("args"@) {
            Some(JsonView::Text(s)) => call_arguments(call) == s,
            Some(JsonView::Null) => call_arguments(call) == "{}"@,
            Some(v) => call_arguments(call) == json_text(v),
            None => call_arguments(call) == "{}"@,
        },
{
}

/// Of items, the texts stay, in order, and nothing else.
pub proof fn law_texts(items: Seq<JsonView>, item: JsonView)
    ensures
        texts_of(Seq::empty()) == Seq::<Seq<char>>::empty(),
        match item {
            JsonView::Text(s) => texts_of(items.push(item)) == texts_of(items).push(s),
            _ => texts_of(items.push(item)) == texts_of(items),
        },
{
    assert(items.push(item).drop_last() =~= items);
}

/// Of sources, those with a member `web` become links, in order, each under its
/// number in the whole list, which counts from one.
pub proof fn law_links(items: Seq<JsonView>, item: JsonView, web: JsonView)
    ensures
        links_of(Seq::empty()) == Seq::<Seq<char>>::empty(),
        item.get("web"@) is None ==> links_of(items.push(item)) == links_of(items),
        item.get("web"@) == Some(web) ==> {
            let number = numeral((items.len() + 1) as nat, 10);
            let title = match web.get("title"@) {
                Some(JsonView::Text(s)) => s,
                _ => "网页来源"@,
            };
            let uri = match web.get("uri"@) {
                Some(JsonView::Text(s)) => s,
                _ => "#"@,
            };
            links_of(items.push(item)) == links_of(items).push(
                "["@ + number + "] ["@ + title + "]("@ + uri + ")"@,
            )
        },
{
    assert(items.push(item).drop_last() =~= items);
}

/// What a candidate searched for, and the sources it names: each list stands behind
/// its heading, and an empty one is left out.
pub proof fn law_grounding(
    candidate: JsonView,
    grounding: JsonView,
    queries: Seq<JsonView>,
    sources: Seq<JsonView>,
)
    ensures
        candidate.get("groundingMetadata"@) is None ==> grounding_of(candidate) == Seq::<
            char,
        >::empty(),
        candidate.get("groundingMetadata"@) == Some(grounding) ==> grounding_of(candidate)
            == searches_text(grounding) + sources_text(grounding),
        !(grounding.get("webSearchQueries"@) matches Some(JsonView::Array(_))) ==> searches_text(
            grounding,
        ) == Seq::<char>::empty(),
        grounding.get("webSearchQueries"@) == Some(JsonView::Array(queries)) ==> searches_text(
            grounding,
        ) == (if texts_of(queries).len() == 0 {
            Seq::empty()
        } else {
            "\n\n---\n**🔍 已为您搜索：** "@ + joined(texts_of(queries), ", "@)
        }),
        !(grounding.get("groundingChunks"@) matches Some(JsonView::Array(_))) ==> sources_text(
            grounding,
        ) == Seq::<char>::empty(),
        grounding.get("groundingChunks"@) == Some(JsonView::Array(sources)) ==> sources_text(
            grounding,
        ) == (if links_of(sources).len() == 0 {
            Seq::empty()
        } else {
            "\n\n**🌐 来源引文：**\n"@ + joined(links_of(sources), "\n"@)
        }),
{
}

/// The reasons for an end that OpenAI knows, under its names; any other stays as it
/// is, but for a response, which was stopped.
pub proof fn law_finish_reasons(reason: Seq<char>)
    ensures
        chat_finish_reason("STOP"@) == "stop"@,
        chat_finish_reason("MAX_TOKENS"@) == "length"@,
        chat_finish_reason("SAFETY"@) == "content_filter"@,
        chat_finish_reason("RECITATION"@) == "content_filter"@,
        reason != "STOP"@ && reason != "MAX_TOKENS"@ && reason != "SAFETY"@ && reason
            != "RECITATION"@ ==> chat_finish_reason(reason) == reason,
        text_finish_reason("STOP"@) == "stop"@,
        text_finish_reason("MAX_TOKENS"@) == "length"@,
        text_finish_reason("SAFETY"@) == "content_filter"@,
        reason != "STOP"@ && reason != "MAX_TOKENS"@ && reason != "SAFETY"@
            ==> text_finish_reason(reason) == reason,
        response_finish_reason("MAX_TOKENS"@) == "length"@,
        reason != "MAX_TOKENS"@ ==> response_finish_reason(reason) == "stop"@,
{
    reveal_strlit("STOP");
    reveal_strlit("MAX_TOKENS");
    reveal_strlit("SAFETY");
    reveal_strlit("RECITATION");
    assert("STOP"@.len() == 4 && "SAFETY"@.len() == 6);
    assert("MAX_TOKENS"@.len() == 10 && "RECITATION"@.len() == 10);
    assert("MAX_TOKENS"@[0] == 'M' && "RECITATION"@[0] == 'R');
}

} // verus!
