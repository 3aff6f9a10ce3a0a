//! What holds of the operations on text.
use vstd::prelude::*;

use crate::text::{
    digit_char, first_line, has_part, has_prefix, joined, numeral, straightened, trimmed,
    trimmed_end, trimmed_start, white_space, without_prefixes, word_len, words,
};

verus! {

/// White space is what Unicode gives the property White_Space, by code points.
pub proof fn law_white_space(c: char)
    ensures
        white_space(c) <==> {
            let n = c as int;
            ||| 9 <= n <= 13
            ||| n == 32
            ||| n == 133
            ||| n == 160
            ||| n == 5760
            ||| 8192 <= n <= 8202
            ||| n == 8232
            ||| n == 8233
            ||| n == 8239
            ||| n == 8287
            ||| n == 12288
        },
{
}

/// Whether all of the text is white space.
pub open spec fn blank(s: Seq<char>) -> bool {
    forall|i: int| 0 <= i < s.len() ==> white_space(#[trigger] s[i])
}

/// Whether the text has characters, and neither the first nor the last is white
/// space.
pub open spec fn solid(s: Seq<char>) -> bool {
    s.len() > 0 && !white_space(s[0]) && !white_space(s[s.len() - 1])
}

pub(crate) proof fn lemma_trimmed_start(before: Seq<char>, s: Seq<char>)
    requires
        blank(before),
        s.len() > 0 ==> !white_space(s[0]),
    ensures
        trimmed_start(before + s) == s,
    decreases before.len(),
{
    let all = before + s;
    if before.len() == 0 {
        assert(all =~= s);
    } else {
        let rest = before.drop_first();
        assert(white_space(before[0]));
        assert(all[0] == before[0]);
        assert forall|i: int| 0 <= i < rest.len() implies white_space(#[trigger] rest[i]) by {
            assert(rest[i] == before[i + 1]);
        }
        assert(all.drop_first() =~= rest + s);
        lemma_trimmed_start(rest, s);
    }
}

pub(crate) proof fn lemma_trimmed_end(s: Seq<char>, after: Seq<char>)
    requires
        blank(after),
        s.len() > 0 ==> !white_space(s[s.len() - 1]),
    ensures
        trimmed_end(s + after) == s,
    decreases after.len(),
{
    let all = s + after;
    if after.len() == 0 {
        assert(all =~= s);
    } else {
        let rest = after.drop_last();
        assert(white_space(after[after.len() - 1]));
        assert(all.last() == after[after.len() - 1]);
        assert forall|i: int| 0 <= i < rest.len() implies white_space(#[trigger] rest[i]) by {
            assert(rest[i] == after[i]);
        }
        assert(all.drop_last() =~= s + rest);
        lemma_trimmed_end(s, rest);
    }
}

/// Trimming takes the white space off both ends and leaves everything between as
/// it is; of white space alone it leaves nothing.
pub proof fn law_trim(before: Seq<char>, s: Seq<char>, after: Seq<char>)
    requires
        blank(before),
        blank(after),
        solid(s),
    ensures
        trimmed(before + s + after) == s,
        trimmed(before) == Seq::<char>::empty(),
{
    assert(before + s + after =~= before + (s + after));
    assert((s + after)[0] == s[0]);
    lemma_trimmed_start(before, s + after);
    lemma_trimmed_end(s, after);
    assert(before + Seq::<char>::empty() =~= before);
    lemma_trimmed_start(before, Seq::empty());
}

/// A prefix is what the rest of the text stands behind.
pub proof fn law_prefix(s: Seq<char>, prefix: Seq<char>)
    ensures
        has_prefix(s, prefix) <==> exists|rest: Seq<char>| s == #[trigger] (prefix + rest),
{
    if has_prefix(s, prefix) {
        let rest = s.skip(prefix.len() as int);
        assert(s =~= prefix + rest);
    }
    if exists|rest: Seq<char>| s == #[trigger] (prefix + rest) {
        let rest = choose|rest: Seq<char>| s == #[trigger] (prefix + rest);
        assert(s.take(prefix.len() as int) =~= prefix);
    }
}

/// Prefixes are stripped one after the other, until there is none.
pub proof fn law_strip_prefixes(s: Seq<char>, prefix: Seq<char>)
    requires
        prefix.len() > 0,
    ensures
        without_prefixes(prefix + s, prefix) == without_prefixes(s, prefix),
        (forall|rest: Seq<char>| s != #[trigger] (prefix + rest)) ==> without_prefixes(s, prefix)
            == s,
{
    law_prefix(s, prefix);
    law_prefix(prefix + s, prefix);
    assert((prefix + s).skip(prefix.len() as int) =~= s);
}

/// A part of a text is what stands between the rest of it.
pub proof fn law_part(s: Seq<char>, part: Seq<char>)
    ensures
        has_part(s, part) <==> exists|before: Seq<char>, after: Seq<char>|
            s == #[trigger] (before + part + after),
{
    if has_part(s, part) {
        let i = choose|i: int| 0 <= i <= s.len() && has_prefix(#[trigger] s.skip(i), part);
        let before = s.take(i);
        let after = s.skip(i).skip(part.len() as int);
        assert(s.skip(i).take(part.len() as int) == part);
        assert(s =~= before + part + after);
    }
    if exists|before: Seq<char>, after: Seq<char>| s == #[trigger] (before + part + after) {
        let (before, after) = choose|before: Seq<char>, after: Seq<char>|
            s == #[trigger] (before + part + after);
        let i = before.len() as int;
        assert(s.skip(i).take(part.len() as int) =~= part);
        assert(has_prefix(s.skip(i), part));
    }
}

/// The value of a digit: 0 to 9, then a to f.
pub open spec fn digit_value(c: char) -> int {
    if '0' <= c <= '9' {
        c as int - 48
    } else if 'a' <= c <= 'f' {
        c as int - 87
    } else {
        -1
    }
}

/// The number that the digits stand for in that base.
pub open spec fn number_of(digits: Seq<char>, base: int) -> int
    decreases digits.len(),
{
    if digits.len() == 0 {
        0
    } else {
        number_of(digits.drop_last(), base) * base + digit_value(digits.last())
    }
}

/// A number that is written out reads back as itself. It is written in digits of
/// its base, and begins with a zero only where it is zero.
pub proof fn law_numeral(n: nat, base: nat)
    requires
        2 <= base <= 16,
    ensures
        number_of(numeral(n, base), base as int) == n,
        numeral(n, base).len() > 0,
        forall|i: int|
            0 <= i < numeral(n, base).len() ==> 0 <= digit_value(#[trigger] numeral(n, base)[i])
                < base,
        n > 0 ==> numeral(n, base)[0] != '0',
        n == 0 ==> numeral(n, base) == seq!['0'],
    decreases n,
{
    let digits = numeral(n, base);
    if n < base {
        assert(digits.drop_last() =~= Seq::empty());
        assert(digits.last() == digit_char(n));
        assert(number_of(digits.drop_last(), base as int) == 0);
        assert(0 * (base as int) == 0);
    } else {
        let front = n / base;
        let last = n % base;
        assert(0 < front < n) by (nonlinear_arith)
            requires
                n >= base >= 2,
                front == n / base,
        ;
        assert(last < base && front * base + last == n) by (nonlinear_arith)
            requires
                base >= 2,
                front == n / base,
                last == n % base,
        ;
        law_numeral(front, base);
        assert(digits.drop_last() =~= numeral(front, base));
        assert(digits.last() == digit_char(last));
        assert(number_of(digits, base as int) == number_of(digits.drop_last(), base as int)
            * base as int + digit_value(digits.last()));
        assert forall|i: int| 0 <= i < digits.len() implies 0 <= digit_value(#[trigger] digits[i])
            < base by {
            if i < digits.len() - 1 {
                assert(digits[i] == numeral(front, base)[i]);
            }
        }
        assert(digits[0] == numeral(front, base)[0]);
    }
}

/// Parts that are joined stand in order, with the separator between each two.
pub proof fn law_join(parts: Seq<Seq<char>>, part: Seq<char>, separator: Seq<char>)
    ensures
        joined(Seq::empty(), separator) == Seq::<char>::empty(),
        joined(seq![part], separator) == part,
        parts.len() > 0 ==> joined(parts.push(part), separator) == joined(parts, separator)
            + separator + part,
{
    assert(parts.push(part).drop_last() =~= parts);
}

/// Straightening keeps every character but the two curly quotation marks, which
/// become straight ones.
pub proof fn law_straighten(s: Seq<char>, i: int)
    requires
        0 <= i < s.len(),
    ensures
        straightened(s).len() == s.len(),
        s[i] as int == 0x201c || s[i] as int == 0x201d ==> straightened(s)[i] == '"',
        s[i] as int != 0x201c && s[i] as int != 0x201d ==> straightened(s)[i] == s[i],
{
}

/// The first line ends at the first line feed, or with the text.
pub proof fn law_first_line(line: Seq<char>, more: Seq<char>)
    requires
        !line.contains('\n'),
    ensures
        first_line(line.push('\n') + more) == line,
        first_line(line) == line,
    decreases line.len(),
{
    let s = line.push('\n') + more;
    if line.len() == 0 {
        assert(s[0] == '\n');
        assert(first_line(s) =~= line);
        assert(first_line(line) =~= line);
    } else {
        let rest = line.drop_first();
        assert(line.contains(line[0]));
        assert(!rest.contains('\n')) by {
            if rest.contains('\n') {
                let i = choose|i: int| 0 <= i < rest.len() && rest[i] == '\n';
                assert(line[i + 1] == '\n');
            }
        }
        law_first_line(rest, more);
        assert(s.drop_first() =~= rest.push('\n') + more);
        assert(first_line(s) =~= line);
        assert(first_line(line) =~= line);
    }
}

/// Whether the text has characters, and none of them is white space.
pub open spec fn is_word(s: Seq<char>) -> bool {
    s.len() > 0 && forall|i: int| 0 <= i < s.len() ==> !white_space(#[trigger] s[i])
}

pub(crate) proof fn lemma_word_len(word: Seq<char>, rest: Seq<char>)
    requires
        forall|i: int| 0 <= i < word.len() ==> !white_space(#[trigger] word[i]),
        rest.len() > 0 ==> white_space(rest[0]),
    ensures
        word_len(word + rest) == word.len(),
    decreases word.len(),
{
    let s = word + rest;
    if word.len() == 0 {
        assert(s =~= rest);
    } else {
        assert(s[0] == word[0]);
        assert(s.drop_first() =~= word.drop_first() + rest);
        assert forall|i: int| 0 <= i < word.drop_first().len() implies !white_space(
            #[trigger] word.drop_first()[i],
        ) by {
            assert(word.drop_first()[i] == word[i + 1]);
        }
        lemma_word_len(word.drop_first(), rest);
    }
}

/// The words of a text are what stands between white space: white space before a
/// word does not count, a word ends at the white space behind it or with the text,
/// and white space alone has no words.
pub proof fn law_words(before: Seq<char>, word: Seq<char>, rest: Seq<char>)
    requires
        blank(before),
        is_word(word),
        rest.len() > 0 ==> white_space(rest[0]),
    ensures
        words(before + word + rest) == seq![word] + words(rest),
        words(before) == Seq::<Seq<char>>::empty(),
{
    let tail = word + rest;
    assert(before + word + rest =~= before + tail);
    assert(tail[0] == word[0]);
    lemma_trimmed_start(before, tail);
    lemma_word_len(word, rest);
    assert(tail.take(word.len() as int) =~= word);
    assert(tail.skip(word.len() as int) =~= rest);
    assert(before + Seq::<char>::empty() =~= before);
    lemma_trimmed_start(before, Seq::empty());
}

} // verus!
