//! The storage of the thought signature, which later requests send back.
use vstd::prelude::*;
use vstd::utf8::encode_utf8;

verus! {

/// The signature that is stored, if any.
pub open spec fn stored(storage: Option<String>) -> Option<Seq<char>> {
    match storage {
        Some(s) => Some(s@),
        None => None,
    }
}

/// The storage after an attempt to store: a signature replaces another only if
/// it is longer, in bytes.
pub open spec fn after_store(storage: Option<Seq<char>>, sig: Seq<char>) -> Option<Seq<char>> {
    match storage {
        None => Some(sig),
        Some(existing) => if encode_utf8(sig).len() > encode_utf8(existing).len() {
            Some(sig)
        } else {
            Some(existing)
        },
    }
}

/// The storage after attempts to store these signatures, in order.
pub open spec fn after_stores(storage: Option<Seq<char>>, sigs: Seq<Seq<char>>) -> Option<Seq<char>>
    decreases sigs.len(),
{
    if sigs.len() == 0 {
        storage
    } else {
        after_store(after_stores(storage, sigs.drop_last()), sigs.last())
    }
}

/// A storage without a signature.
pub fn get_thought_sig_storage() -> (r: Option<String>)
    ensures
        stored(r) is None,
{
    None
}

/// Stores a thought signature. A shorter one does not replace a longer one, nor
/// one of the same length.
pub fn store_thought_signature(storage: &mut Option<String>, sig: &str)
    ensures
        stored(*final(storage)) == after_store(stored(*old(storage)), sig@),
{
    let should_store = match storage {
        None => true,
        Some(existing) => sig.as_bytes().len() > existing.as_str().as_bytes().len(),
    };
    if should_store {
        *storage = Some(sig.to_owned());
    }
}

/// The signature that is stored; it stays.
pub fn get_thought_signature(storage: &Option<String>) -> (r: Option<String>)
    ensures
        stored(r) == stored(*storage),
{
    match storage {
        Some(s) => Some(s.clone()),
        None => None,
    }
}

/// Removes the signature that is stored, for it is no longer valid.
pub fn clear_thought_signature(storage: &mut Option<String>)
    ensures
        stored(*final(storage)) is None,
{
    if storage.is_some() {
        *storage = None;
    }
}

/// The length in bytes of what is stored; nothing counts as less than anything.
pub open spec fn stored_len(storage: Option<Seq<char>>) -> int {
    match storage {
        None => -1,
        Some(s) => encode_utf8(s).len() as int,
    }
}

/// Whatever is stored one after the other: the storage then holds what it held,
/// or one of the new signatures; and nothing that was stored, before or since,
/// is longer than what it holds.
pub proof fn law_longest_signature_stays(storage: Option<Seq<char>>, sigs: Seq<Seq<char>>)
    ensures
        after_stores(storage, sigs) == storage || exists|i: int|
            0 <= i < sigs.len() && after_stores(storage, sigs) == Some(#[trigger] sigs[i]),
        stored_len(storage) <= stored_len(after_stores(storage, sigs)),
        forall|i: int|
            0 <= i < sigs.len() ==> encode_utf8(#[trigger] sigs[i]).len() <= stored_len(
                after_stores(storage, sigs),
            ),
    decreases sigs.len(),
{
    if sigs.len() > 0 {
        let front = sigs.drop_last();
        law_longest_signature_stays(storage, front);
        assert forall|i: int| 0 <= i < sigs.len() implies encode_utf8(#[trigger] sigs[i]).len()
            <= stored_len(after_stores(storage, sigs)) by {
            if i < front.len() {
                assert(front[i] == sigs[i]);
            }
        }
        if after_stores(storage, front) != storage {
            let i = choose|i: int|
                0 <= i < front.len() && after_stores(storage, front) == Some(#[trigger] front[i]);
            assert(front[i] == sigs[i]);
        }
        assert(sigs.last() == sigs[sigs.len() - 1]);
    }
}

/// After the storage was cleared, the next signature is stored, however short.
pub proof fn law_store_after_clear(sig: Seq<char>)
    ensures
        after_store(None, sig) == Some(sig),
{
}

/// To store a signature again changes nothing.
pub proof fn law_store_twice(storage: Option<Seq<char>>, sig: Seq<char>)
    ensures
        after_store(after_store(storage, sig), sig) == after_store(storage, sig),
{
}

/// A signature is stored where there is none, and where it has more bytes than the
/// one that is there; one with as many bytes or fewer changes nothing.
pub proof fn law_store(existing: Seq<char>, sig: Seq<char>)
    ensures
        after_store(None, sig) == Some(sig),
        encode_utf8(sig).len() > encode_utf8(existing).len() ==> after_store(Some(existing), sig)
            == Some(sig),
        encode_utf8(sig).len() <= encode_utf8(existing).len() ==> after_store(Some(existing), sig)
            == Some(existing),
{
}

} // verus!
