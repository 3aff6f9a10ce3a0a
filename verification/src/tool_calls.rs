//! Tool calls: each is passed on once, under an index of its own and a stable id.
use std::collections::hash_map::DefaultHasher;

use vstd::prelude::*;
use vstd::std_specs::hash::DefaultHasherAdditionalSpecFns;
use vstd::string::StringExecFns;

use crate::text::{hexadecimal, numeral, text_eq};

verus! {

/// What a `DefaultHasher` has taken in once a text was hashed into it.
pub uninterp spec fn hashed(before: Seq<Seq<u8>>, text: Seq<char>) -> Seq<Seq<u8>>;

/// `Hash::hash` of std for a text, into a `DefaultHasher`. What the hasher has
/// taken in then depends on what it had taken in and on the text alone.
#[verifier::external_body]
fn hash_text(text: &str, hasher: &mut DefaultHasher)
    ensures
        final(hasher)@ == hashed(old(hasher)@, text@),
{
    std::hash::Hash::hash(text, hasher)
}

/// The hash of some texts, one behind the other.
pub open spec fn hash_of(texts: Seq<Seq<char>>) -> u64 {
    DefaultHasher::spec_finish(all_hashed(texts))
}

/// What a fresh hasher has taken in once the texts were hashed into it.
pub open spec fn all_hashed(texts: Seq<Seq<char>>) -> Seq<Seq<u8>>
    decreases texts.len(),
{
    if texts.len() == 0 {
        Seq::empty()
    } else {
        hashed(all_hashed(texts.drop_last()), texts.last())
    }
}

/// The id of the tool call with that content.
pub open spec fn call_id_of(content: Seq<Seq<char>>) -> Seq<char> {
    "call_"@ + numeral(hash_of(content) as nat, 16)
}

/// The id of the tool call with that content. It depends on the content alone.
pub fn call_id(content: &[&str]) -> (r: String)
    ensures
        r@ == call_id_of(content@.map_values(|t: &str| t@)),
{
    let ghost views = content@.map_values(|t: &str| t@);
    let mut hasher = DefaultHasher::new();
    let mut i: usize = 0;
    assert(views.take(0) =~= Seq::empty());
    while i < content.len()
        invariant
            i <= content@.len(),
            views == content@.map_values(|t: &str| t@),
            hasher@ == all_hashed(views.take(i as int)),
        decreases content.len() - i,
    {
        hash_text(content[i], &mut hasher);
        assert(views.take(i + 1).drop_last() =~= views.take(i as int));
        i = i + 1;
    }
    assert(views.take(i as int) =~= views);
    let hash = std::hash::Hasher::finish(&hasher);
    let digits = hexadecimal(hash);
    let mut id = "call_".to_owned();
    id.append(digits.as_str());
    id
}

/// The tool calls of a stream, in the order in which they came up.
pub struct ToolCalls {
    keys: Vec<String>,
}

/// Whether no call is listed twice.
pub open spec fn calls_differ(keys: Seq<Seq<char>>) -> bool {
    forall|i: int, j: int| 0 <= i < j < keys.len() ==> #[trigger] keys[i] != #[trigger] keys[j]
}

impl View for ToolCalls {
    type V = Seq<Seq<char>>;

    closed spec fn view(&self) -> Seq<Seq<char>> {
        self.keys@.map_values(|k: String| k@)
    }
}

impl ToolCalls {
    pub fn new() -> (r: ToolCalls)
        ensures
            r@ == Seq::<Seq<char>>::empty(),
    {
        let r = ToolCalls { keys: Vec::new() };
        assert(r@ =~= Seq::<Seq<char>>::empty());
        r
    }

    /// Lists a call that is not listed yet, and gives its index; of one that is,
    /// nothing.
    pub fn enlist(&mut self, key: &str) -> (r: Option<usize>)
        ensures
            old(self)@.contains(key@) ==> r is None && final(self)@ == old(self)@,
            !old(self)@.contains(key@) ==> r is Some && r->0 == old(self)@.len() && final(self)@
                == old(self)@.push(key@),
            calls_differ(old(self)@) ==> calls_differ(final(self)@),
    {
        let ghost before = self@;
        let mut i: usize = 0;
        while i < self.keys.len()
            invariant
                i <= self.keys@.len(),
                self@ == before,
                before == self.keys@.map_values(|k: String| k@),
                forall|k: int| 0 <= k < i ==> before[k] != key@,
            decreases self.keys.len() - i,
        {
            if text_eq(self.keys[i].as_str(), key) {
                assert(before[i as int] == key@);
                return None;
            }
            i = i + 1;
        }
        let index = self.keys.len();
        self.keys.push(key.to_owned());
        assert(self@ =~= before.push(key@));
        Some(index)
    }
}

/// An id is the hash of the texts, one hashed behind the other from a fresh hasher,
/// in hexadecimal.
pub proof fn law_call_id(texts: Seq<Seq<char>>, text: Seq<char>)
    ensures
        call_id_of(texts) == "call_"@ + numeral(
            DefaultHasher::spec_finish(all_hashed(texts)) as nat,
            16,
        ),
        all_hashed(Seq::empty()) == Seq::<Seq<u8>>::empty(),
        all_hashed(texts.push(text)) == hashed(all_hashed(texts), text),
{
    assert(texts.push(text).drop_last() =~= texts);
}

} // verus!
