//! Token usage: from the counts that Gemini reports to those of OpenAI.
use vstd::prelude::*;

use crate::json::{Json, JsonView};

verus! {

#[derive(Clone, Copy, Debug, PartialEq, Eq, Structural)]
pub struct PromptTokensDetails {
    pub cached_tokens: Option<u32>,
}

#[derive(Clone, Copy, Debug, PartialEq, Eq, Structural)]
pub struct CompletionTokensDetails {
    pub reasoning_tokens: Option<u32>,
}

/// Token usage as OpenAI reports it.
#[derive(Clone, Copy, Debug, PartialEq, Eq, Structural)]
pub struct OpenAIUsage {
    pub prompt_tokens: u32,
    pub completion_tokens: u32,
    pub total_tokens: u32,
    pub prompt_tokens_details: Option<PromptTokensDetails>,
    pub completion_tokens_details: Option<CompletionTokensDetails>,
}

/// The low 32 bits of a count.
pub open spec fn low_bits(n: u64) -> u32 {
    (n % 0x1_0000_0000) as u32
}

/// The count of that name, where it is an integer that is not negative.
pub open spec fn count_at(u: JsonView, name: Seq<char>) -> Option<u32> {
    match u.get(name) {
        Some(v) => match v.as_u64() {
            Some(n) => Some(low_bits(n)),
            None => None,
        },
        None => None,
    }
}

/// The count of that name, or zero.
pub open spec fn count_or_zero(u: JsonView, name: Seq<char>) -> u32 {
    match count_at(u, name) {
        Some(n) => n,
        None => 0,
    }
}

/// The usage in a `usageMetadata` object.
pub open spec fn usage_of(u: JsonView) -> OpenAIUsage {
    OpenAIUsage {
        prompt_tokens: count_or_zero(u, "promptTokenCount"@),
        completion_tokens: count_or_zero(u, "candidatesTokenCount"@),
        total_tokens: count_or_zero(u, "totalTokenCount"@),
        prompt_tokens_details: match count_at(u, "cachedContentTokenCount"@) {
            Some(n) => Some(PromptTokensDetails { cached_tokens: Some(n) }),
            None => None,
        },
        completion_tokens_details: None,
    }
}

fn read_count(u: &Json, name: &str) -> (r: Option<u32>)
    ensures
        r == count_at(u@, name@),
{
    match u.get(name) {
        Some(v) => match v.as_u64() {
            Some(n) => Some((n % 0x1_0000_0000) as u32),
            None => None,
        },
        None => None,
    }
}

/// Converts a `usageMetadata` object. A count that is missing, or is no integer,
/// counts as zero; only the cached tokens are then left out. Of a count, the low
/// 32 bits stay.
pub fn extract_usage_metadata(u: &Json) -> (r: Option<OpenAIUsage>)
    ensures
        r == Some(usage_of(u@)),
{
    let prompt_tokens = read_count(u, "promptTokenCount").unwrap_or(0);
    let completion_tokens = read_count(u, "candidatesTokenCount").unwrap_or(0);
    let total_tokens = read_count(u, "totalTokenCount").unwrap_or(0);
    let prompt_tokens_details = match read_count(u, "cachedContentTokenCount") {
        Some(n) => Some(PromptTokensDetails { cached_tokens: Some(n) }),
        None => None,
    };
    Some(
        OpenAIUsage {
            prompt_tokens,
            completion_tokens,
            total_tokens,
            prompt_tokens_details,
            completion_tokens_details: None,
        },
    )
}

} // verus!
