//! Identifiers of streams, and the time at which a stream was created.
use vstd::prelude::*;
use vstd::string::{StrSliceExecFns, StringExecFns};

verus! {

/// The characters of a random identifier.
pub open spec fn charset() -> Seq<char> {
    "abcdefghijklmnopqrstuvwxyzABCDEFGHIJKLMNOPQRSTUVWXYZ0123456789"@
}

/// Whether the text has the form of a random (version 4) UUID: groups of 8, 4,
/// 4, 4 and 12 small hexadecimal digits with hyphens between them.
pub open spec fn uuid_form(s: Seq<char>) -> bool {
    &&& s.len() == 36
    &&& forall|i: int|
        0 <= i < 36 ==> if i == 8 || i == 13 || i == 18 || i == 23 {
            #[trigger] s[i] == '-'
        } else {
            '0' <= s[i] <= '9' || 'a' <= s[i] <= 'f'
        }
    &&& s[14] == '4'
    &&& s[19] == '8' || s[19] == '9' || s[19] == 'a' || s[19] == 'b'
}

/// `Uuid::new_v4` of the crate `uuid`, as text. Which one it is, is left to
/// chance; its form is not.
#[verifier::external_body]
fn random_uuid() -> (r: String)
    ensures
        uuid_form(r@),
{
    uuid::Uuid::new_v4().to_string()
}

/// `Rng::gen_range` of the crate `rand`, with the generator of the thread: any
/// number below the bound. An empty range would make it panic.
#[verifier::external_body]
fn random_below(bound: usize) -> (r: usize)
    requires
        bound > 0,
    ensures
        r < bound,
{
    rand::Rng::gen_range(&mut rand::thread_rng(), 0..bound)
}

/// `Utc::now` of the crate `chrono`, in seconds. Nothing is claimed of the time.
#[verifier::external_body]
pub(crate) fn unix_seconds() -> i64 {
    chrono::Utc::now().timestamp()
}

/// The id of a chat completion stream.
pub fn chat_stream_id() -> (r: String)
    ensures
        exists|uuid: Seq<char>| #[trigger] uuid_form(uuid) && r@ == "chatcmpl-"@ + uuid,
{
    let uuid = random_uuid();
    let mut id = "chatcmpl-".to_owned();
    id.append(uuid.as_str());
    id
}

/// The characters at those places in the character set.
pub open spec fn chars_at(places: Seq<usize>) -> Seq<char> {
    places.map_values(|p: usize| charset()[p as int])
}

/// The identifier with that prefix whose characters stand at those places in the
/// character set.
pub fn id_of_places(prefix: &str, places: &Vec<usize>) -> (r: String)
    requires
        forall|i: int| 0 <= i < places@.len() ==> #[trigger] places@[i] < charset().len(),
    ensures
        r@ == prefix@ + chars_at(places@),
{
    let letters = "abcdefghijklmnopqrstuvwxyzABCDEFGHIJKLMNOPQRSTUVWXYZ0123456789";
    let mut id = prefix.to_owned();
    let mut i: usize = 0;
    assert(chars_at(places@.take(0)) =~= Seq::empty());
    assert(id@ =~= prefix@ + chars_at(places@.take(0)));
    while i < places.len()
        invariant
            i <= places@.len(),
            letters@ == charset(),
            forall|i: int| 0 <= i < places@.len() ==> #[trigger] places@[i] < charset().len(),
            id@ == prefix@ + chars_at(places@.take(i as int)),
        decreases places.len() - i,
    {
        id.push(letters.get_char(places[i]));
        assert(id@ =~= prefix@ + chars_at(places@.take(i + 1)));
        i = i + 1;
    }
    assert(places@.take(i as int) =~= places@);
    id
}

/// Whether the text is the prefix and so many characters of the character set.
pub open spec fn random_id(id: Seq<char>, prefix: Seq<char>, len: nat) -> bool {
    &&& id.len() == prefix.len() + len
    &&& id.take(prefix.len() as int) == prefix
    &&& forall|i: int| prefix.len() <= i < id.len() ==> charset().contains(#[trigger] id[i])
}

/// An identifier of that prefix and so many random characters.
pub fn new_random_id(prefix: &str, len: usize) -> (r: String)
    ensures
        random_id(r@, prefix@, len as nat),
{
    let mut places: Vec<usize> = Vec::new();
    proof {
        reveal_strlit("abcdefghijklmnopqrstuvwxyzABCDEFGHIJKLMNOPQRSTUVWXYZ0123456789");
    }
    while places.len() < len
        invariant
            places@.len() <= len,
            charset().len() == 62,
            forall|i: int| 0 <= i < places@.len() ==> #[trigger] places@[i] < charset().len(),
        decreases len - places@.len(),
    {
        places.push(random_below(62));
    }
    let id = id_of_places(prefix, &places);
    proof {
        assert(id@.take(prefix@.len() as int) =~= prefix@);
        assert forall|i: int| prefix@.len() <= i < id@.len() implies charset().contains(
            #[trigger] id@[i],
        ) by {
            let p = places@[i - prefix@.len()];
            assert(id@[i] == charset()[p as int]);
        }
    }
    id
}

/// The characters of a random identifier: the small letters, the capital letters and
/// the digits, in that order.
pub proof fn law_charset(p: int)
    ensures
        charset().len() == 62,
        0 <= p < 26 ==> charset()[p] as int == 97 + p,
        26 <= p < 52 ==> charset()[p] as int == 65 + (p - 26),
        52 <= p < 62 ==> charset()[p] as int == 48 + (p - 52),
{
    reveal_strlit("abcdefghijklmnopqrstuvwxyzABCDEFGHIJKLMNOPQRSTUVWXYZ0123456789");
}

/// A random identifier is its prefix, and behind it so many letters and digits.
pub proof fn law_random_id(id: Seq<char>, prefix: Seq<char>, len: nat, i: int)
    requires
        random_id(id, prefix, len),
        0 <= i < len,
    ensures
        id.len() == prefix.len() + len,
        id.take(prefix.len() as int) == prefix,
        ({
            let c = id[prefix.len() + i];
            'a' <= c <= 'z' || 'A' <= c <= 'Z' || '0' <= c <= '9'
        }),
{
    let c = id[prefix.len() + i];
    assert(charset().contains(c));
    let p = choose|p: int| 0 <= p < charset().len() && charset()[p] == c;
    law_charset(p);
}

/// The characters at places are those that stand there, one for each place.
pub proof fn law_chars_at(places: Seq<usize>, i: int)
    requires
        0 <= i < places.len(),
    ensures
        chars_at(places).len() == places.len(),
        chars_at(places)[i] == charset()[places[i] as int],
{
}

} // verus!
