//! Operations on text, stated over sequences of characters.
use vstd::prelude::*;
use vstd::string::{StrSliceExecFns, StringExecFns};
use vstd::utf8::encode_utf8;

verus! {

/// `String::push` of std appends the character.
pub assume_specification[ String::push ](s: &mut String, c: char)
    ensures
        final(s)@ == old(s)@.push(c),
;

/// The function `from_utf8` of `std::str`: it succeeds exactly on valid UTF-8,
/// and then gives the text that those bytes encode.
#[verifier::external_body]
pub(crate) fn utf8_text(bytes: &[u8]) -> (r: Option<&str>)
    ensures
        r is Some <==> vstd::utf8::valid_utf8(bytes@),
        r matches Some(s) ==> s@ == vstd::utf8::decode_utf8(bytes@),
{
    std::str::from_utf8(bytes).ok()
}

/// Whether two texts are the same.
pub fn text_eq(a: &str, b: &str) -> (r: bool)
    ensures
        r == (a@ == b@),
{
    let x = a.as_bytes();
    let y = b.as_bytes();
    proof {
        vstd::utf8::encode_utf8_decode_utf8(a@);
        vstd::utf8::encode_utf8_decode_utf8(b@);
    }
    if x.len() != y.len() {
        return false;
    }
    let mut i: usize = 0;
    while i < x.len()
        invariant
            i <= x@.len(),
            x@.len() == y@.len(),
            forall|k: int| 0 <= k < i ==> x@[k] == y@[k],
            x@ == encode_utf8(a@),
            y@ == encode_utf8(b@),
        decreases x.len() - i,
    {
        if x[i] != y[i] {
            return false;
        }
        i = i + 1;
    }
    assert(x@ =~= y@);
    true
}

/// A text behind another.
pub fn prefixed(prefix: &str, s: &str) -> (r: String)
    ensures
        r@ == prefix@ + s@,
{
    let mut out = prefix.to_owned();
    out.append(s);
    out
}

/// The parts with a separator between each two.
pub open spec fn joined(parts: Seq<Seq<char>>, separator: Seq<char>) -> Seq<char>
    decreases parts.len(),
{
    if parts.len() == 0 {
        Seq::empty()
    } else if parts.len() == 1 {
        parts[0]
    } else {
        joined(parts.drop_last(), separator) + separator + parts.last()
    }
}

/// The views of a vector of texts.
pub open spec fn text_views(parts: Seq<String>) -> Seq<Seq<char>> {
    parts.map_values(|p: String| p@)
}

/// The parts with a separator between each two.
pub fn join(parts: &Vec<String>, separator: &str) -> (r: String)
    ensures
        r@ == joined(text_views(parts@), separator@),
{
    let mut out = String::new();
    let ghost views = text_views(parts@);
    let mut i: usize = 0;
    assert(views.take(0) =~= Seq::empty());
    while i < parts.len()
        invariant
            i <= parts@.len(),
            views == text_views(parts@),
            out@ == joined(views.take(i as int), separator@),
        decreases parts.len() - i,
    {
        assert(views.take(i + 1).drop_last() =~= views.take(i as int));
        if i > 0 {
            out.append(separator);
        }
        out.append(parts[i].as_str());
        assert(out@ =~= joined(views.take(i + 1), separator@));
        i = i + 1;
    }
    assert(views.take(i as int) =~= views);
    out
}

/// Whether the character has the Unicode property White_Space.
pub open spec fn white_space(c: char) -> bool {
    ||| '\u{9}' <= c <= '\u{d}'
    ||| c == ' '
    ||| c == '\u{85}'
    ||| c == '\u{a0}'
    ||| c == '\u{1680}'
    ||| '\u{2000}' <= c <= '\u{200a}'
    ||| c == '\u{2028}'
    ||| c == '\u{2029}'
    ||| c == '\u{202f}'
    ||| c == '\u{205f}'
    ||| c == '\u{3000}'
}

/// Whether the character has the Unicode property White_Space.
pub fn is_white_space(c: char) -> (r: bool)
    ensures
        r == white_space(c),
{
    ('\u{9}' <= c && c <= '\u{d}') || c == ' ' || c == '\u{85}' || c == '\u{a0}' || c == '\u{1680}'
        || ('\u{2000}' <= c && c <= '\u{200a}') || c == '\u{2028}' || c == '\u{2029}' || c
        == '\u{202f}' || c == '\u{205f}' || c == '\u{3000}'
}

/// The text without the white space at its start.
pub open spec fn trimmed_start(s: Seq<char>) -> Seq<char>
    decreases s.len(),
{
    if s.len() > 0 && white_space(s[0]) {
        trimmed_start(s.drop_first())
    } else {
        s
    }
}

/// The text without the white space at its end.
pub open spec fn trimmed_end(s: Seq<char>) -> Seq<char>
    decreases s.len(),
{
    if s.len() > 0 && white_space(s.last()) {
        trimmed_end(s.drop_last())
    } else {
        s
    }
}

/// The text without the white space at either end.
pub open spec fn trimmed(s: Seq<char>) -> Seq<char> {
    trimmed_end(trimmed_start(s))
}

/// The text without the white space at either end.
pub fn trim<'a>(s: &'a str) -> (r: &'a str)
    ensures
        r@ == trimmed(s@),
{
    let len = s.unicode_len();
    let mut from: usize = 0;
    assert(s@.skip(0) =~= s@);
    while from < len && is_white_space(s.get_char(from))
        invariant
            from <= len == s@.len(),
            trimmed_start(s@) == trimmed_start(s@.skip(from as int)),
        decreases len - from,
    {
        assert(s@.skip(from as int).drop_first() =~= s@.skip(from + 1));
        from = from + 1;
    }
    let mut to: usize = len;
    assert(s@.skip(from as int) =~= s@.subrange(from as int, to as int));
    while to > from && is_white_space(s.get_char(to - 1))
        invariant
            from <= to <= len == s@.len(),
            trimmed(s@) == trimmed_end(s@.subrange(from as int, to as int)),
        decreases to,
    {
        assert(s@.subrange(from as int, to as int).drop_last() =~= s@.subrange(
            from as int,
            to - 1,
        ));
        to = to - 1;
    }
    s.substring_char(from, to)
}

/// Whether the text starts with the prefix.
pub open spec fn has_prefix(s: Seq<char>, prefix: Seq<char>) -> bool {
    prefix.len() <= s.len() && s.take(prefix.len() as int) == prefix
}

/// Whether the text starts with the prefix.
pub fn starts_with(s: &str, prefix: &str) -> (r: bool)
    ensures
        r == has_prefix(s@, prefix@),
{
    let n = prefix.unicode_len();
    if s.unicode_len() < n {
        return false;
    }
    let mut i: usize = 0;
    while i < n
        invariant
            i <= n == prefix@.len(),
            n <= s@.len(),
            forall|k: int| 0 <= k < i ==> s@[k] == prefix@[k],
        decreases n - i,
    {
        if s.get_char(i) != prefix.get_char(i) {
            assert(s@.take(n as int)[i as int] != prefix@[i as int]);
            return false;
        }
        i = i + 1;
    }
    assert(s@.take(n as int) =~= prefix@);
    true
}

/// The text without the prefix, as often as it stands at the start.
pub open spec fn without_prefixes(s: Seq<char>, prefix: Seq<char>) -> Seq<char>
    decreases s.len(),
{
    if prefix.len() > 0 && has_prefix(s, prefix) {
        without_prefixes(s.skip(prefix.len() as int), prefix)
    } else {
        s
    }
}

/// The text without the prefix, as often as it stands at the start.
pub fn strip_prefixes<'a>(s: &'a str, prefix: &str) -> (r: &'a str)
    requires
        prefix@.len() > 0,
    ensures
        r@ == without_prefixes(s@, prefix@),
{
    let n = prefix.unicode_len();
    let mut rest = s;
    while starts_with(rest, prefix)
        invariant
            n == prefix@.len() > 0,
            without_prefixes(s@, prefix@) == without_prefixes(rest@, prefix@),
        decreases rest@.len(),
    {
        let len = rest.unicode_len();
        let ghost before = rest@;
        rest = rest.substring_char(n, len);
        assert(rest@ =~= before.skip(n as int));
    }
    rest
}

/// The character of a digit below sixteen.
pub open spec fn digit_char(d: nat) -> char {
    if d < 10 {
        (('0' as nat) + d) as char
    } else {
        (('a' as nat) + (d - 10)) as char
    }
}

/// The number written in that base, without leading zeros.
pub open spec fn numeral(n: nat, base: nat) -> Seq<char>
    decreases n,
{
    if base < 2 {
        Seq::empty()
    } else if n < base {
        seq![digit_char(n)]
    } else {
        proof {
            assert(n / base < n) by (nonlinear_arith)
                requires
                    n >= base >= 2,
            ;
        }
        numeral(n / base, base).push(digit_char(n % base))
    }
}

fn digit(d: u64) -> (r: char)
    requires
        d < 16,
    ensures
        r == digit_char(d as nat),
{
    if d < 10 {
        (48 + d as u8) as char
    } else {
        (97 + (d - 10) as u8) as char
    }
}

fn numeral_text(n: u64, base: u64) -> (r: String)
    requires
        2 <= base <= 16,
    ensures
        r@ == numeral(n as nat, base as nat),
    decreases n,
{
    if n < base {
        let mut out = String::new();
        out.push(digit(n));
        assert(out@ =~= numeral(n as nat, base as nat));
        out
    } else {
        assert(n / base < n) by (nonlinear_arith)
            requires
                n >= base >= 2,
        ;
        let mut out = numeral_text(n / base, base);
        out.push(digit(n % base));
        out
    }
}

/// The number in decimal.
pub fn decimal(n: u64) -> (r: String)
    ensures
        r@ == numeral(n as nat, 10),
{
    numeral_text(n, 10)
}

/// The number in hexadecimal, with small letters.
pub fn hexadecimal(n: u64) -> (r: String)
    ensures
        r@ == numeral(n as nat, 16),
{
    numeral_text(n, 16)
}

/// Whether the character occurs in the text.
pub fn contains_char(s: &str, c: char) -> (r: bool)
    ensures
        r == s@.contains(c),
{
    for d in it: s.chars()
        invariant
            it.seq() == s@,
            forall|k: int| 0 <= k < it.index() ==> s@[k] != c,
    {
        if d == c {
            assert(s@[it.index() as int] == c);
            return true;
        }
    }
    false
}

/// The text with straight quotation marks in place of curly ones.
pub open spec fn straightened(s: Seq<char>) -> Seq<char> {
    s.map_values(
        |c: char|
            if c == '“' || c == '”' {
                '"'
            } else {
                c
            },
    )
}

/// The text with straight quotation marks in place of curly ones.
pub fn straighten(s: &str) -> (r: String)
    ensures
        r@ == straightened(s@),
{
    let mut out = String::new();
    assert(out@ =~= straightened(s@).take(0));
    for c in it: s.chars()
        invariant
            it.seq() == s@,
            out@ == straightened(s@).take(it.index() as int),
    {
        let ghost i = it.index() as int;
        if c == '“' || c == '”' {
            out.push('"');
        } else {
            out.push(c);
        }
        assert(out@ =~= straightened(s@).take(i + 1));
    }
    assert(straightened(s@).take(s@.len() as int) =~= straightened(s@));
    out
}

/// Whether the part stands somewhere in the text.
pub open spec fn has_part(s: Seq<char>, part: Seq<char>) -> bool {
    exists|i: int| 0 <= i <= s.len() && has_prefix(#[trigger] s.skip(i), part)
}

/// Whether the part stands somewhere in the text.
pub fn contains_text(s: &str, part: &str) -> (r: bool)
    ensures
        r == has_part(s@, part@),
{
    let len = s.unicode_len();
    let mut i: usize = 0;
    while i <= len
        invariant
            i <= len + 1,
            len == s@.len(),
            forall|k: int| 0 <= k < i ==> !has_prefix(#[trigger] s@.skip(k), part@),
        decreases len + 1 - i,
    {
        let rest = s.substring_char(i, len);
        assert(rest@ =~= s@.skip(i as int));
        if starts_with(rest, part) {
            return true;
        }
        if i == len {
            return false;
        }
        i = i + 1;
    }
    false
}

/// The text up to the first line feed.
pub open spec fn first_line(s: Seq<char>) -> Seq<char>
    decreases s.len(),
{
    if s.len() == 0 || s[0] == '\n' {
        Seq::empty()
    } else {
        seq![s[0]] + first_line(s.drop_first())
    }
}

/// The text up to the first line feed.
pub fn read_first_line<'a>(s: &'a str) -> (r: &'a str)
    ensures
        r@ == first_line(s@),
{
    let len = s.unicode_len();
    let mut i: usize = 0;
    assert(s@.skip(0) =~= s@);
    assert(s@.take(0) + first_line(s@) =~= first_line(s@));
    while i < len && s.get_char(i) != '\n'
        invariant
            i <= len == s@.len(),
            first_line(s@) == s@.take(i as int) + first_line(s@.skip(i as int)),
        decreases len - i,
    {
        assert(s@.skip(i as int).drop_first() =~= s@.skip(i + 1));
        assert(s@.take(i + 1) =~= s@.take(i as int).push(s@[i as int]));
        assert(first_line(s@) =~= s@.take(i + 1) + first_line(s@.skip(i + 1)));
        i = i + 1;
    }
    assert(first_line(s@) =~= s@.take(i as int));
    let r = s.substring_char(0, i);
    assert(r@ =~= s@.take(i as int));
    r
}

/// How many characters the text has before its first white space.
pub open spec fn word_len(s: Seq<char>) -> nat
    decreases s.len(),
{
    if s.len() == 0 || white_space(s[0]) {
        0
    } else {
        1 + word_len(s.drop_first())
    }
}

proof fn lemma_shorter(s: Seq<char>)
    ensures
        word_len(s) <= s.len(),
        s.len() > 0 && !white_space(s[0]) ==> word_len(s) > 0,
        trimmed_start(s).len() <= s.len(),
        trimmed_start(s).len() > 0 ==> !white_space(trimmed_start(s)[0]),
    decreases s.len(),
{
    if s.len() > 0 {
        lemma_shorter(s.drop_first());
    }
}

/// The words of a text: what stands between white space.
pub open spec fn words(s: Seq<char>) -> Seq<Seq<char>>
    decreases s.len(),
    via words_end
{
    let rest = trimmed_start(s);
    if rest.len() == 0 {
        Seq::empty()
    } else {
        let n = word_len(rest) as int;
        seq![rest.take(n)] + words(rest.skip(n))
    }
}

#[via_fn]
proof fn words_end(s: Seq<char>) {
    lemma_shorter(s);
    lemma_shorter(trimmed_start(s));
}

/// The first word of a text and the rest of the text.
pub fn next_word<'a>(s: &'a str) -> (r: Option<(&'a str, &'a str)>)
    ensures
        match r {
            Some((word, rest)) => words(s@) == seq![word@] + words(rest@),
            None => words(s@) == Seq::<Seq<char>>::empty(),
        },
{
    let len = s.unicode_len();
    let mut from: usize = 0;
    assert(s@.skip(0) =~= s@);
    while from < len && is_white_space(s.get_char(from))
        invariant
            from <= len == s@.len(),
            trimmed_start(s@) == trimmed_start(s@.skip(from as int)),
        decreases len - from,
    {
        assert(s@.skip(from as int).drop_first() =~= s@.skip(from + 1));
        from = from + 1;
    }
    let ghost rest = s@.skip(from as int);
    assert(trimmed_start(s@) == rest);
    if from == len {
        return None;
    }
    let mut to: usize = from;
    assert(rest.skip(0) =~= rest);
    while to < len && !is_white_space(s.get_char(to))
        invariant
            from <= to <= len == s@.len(),
            rest == s@.skip(from as int),
            word_len(rest) == (to - from) + word_len(rest.skip(to - from)),
        decreases len - to,
    {
        assert(rest.skip(to - from).drop_first() =~= rest.skip(to + 1 - from));
        to = to + 1;
    }
    let word = s.substring_char(from, to);
    let tail = s.substring_char(to, len);
    assert(word@ =~= rest.take(to - from));
    assert(tail@ =~= rest.skip(to - from));
    Some((word, tail))
}

} // verus!
