//! What can be relied on of numbers and texts that are read and written.

use vstd::prelude::*;
use vstd::utf8::*;

use crate::text::{
    bytes_lt, decimal_of, digit_char, digit_value, digits_value, is_white, parsed_unsigned,
    replaced, text_lt, trimmed, trimmed_end, trimmed_left, trimmed_right,
};

verus! {

proof fn lemma_digits_read_back(n: nat)
    ensures
        digits_value(decimal_of(n)) == Some(n as int),
        decimal_of(n).len() > 0,
        decimal_of(n)[0] != '+',
        n >= 10 ==> decimal_of(n)[0] != '0',
        n > 0 ==> decimal_of(n)[0] != '0',
    decreases n,
{
    let s = decimal_of(n);
    if n < 10 {
        assert(s.drop_last() =~= Seq::<char>::empty());
        assert(digits_value(s.drop_last()) == Some(0int));
        assert(digit_value(s.last()) == Some(n as int));
    } else {
        lemma_digits_read_back(n / 10);
        let d = (n % 10) as int;
        assert(s.drop_last() =~= decimal_of(n / 10));
        assert(digit_value(digit_char(d)) == Some(d));
        assert(s[0] == decimal_of(n / 10)[0]);
    }
}

/// A number that is written out reads back as itself, with a `+` in front or without, unless it
/// is too great; and is written without leading zeros.
pub proof fn lemma_number_reads_back(n: nat, max: int)
    ensures
        parsed_unsigned(decimal_of(n), max) == if n <= max {
            Some(n as int)
        } else {
            None
        },
        parsed_unsigned(seq!['+'] + decimal_of(n), max) == parsed_unsigned(decimal_of(n), max),
        n > 0 ==> decimal_of(n)[0] != '0',
{
    lemma_digits_read_back(n);
    let signed = seq!['+'] + decimal_of(n);
    assert(signed.drop_first() =~= decimal_of(n));
}

proof fn lemma_no_digits(s: Seq<char>, i: int)
    requires
        0 <= i < s.len(),
        !('0' <= s[i] && s[i] <= '9'),
    ensures
        digits_value(s) is None,
    decreases s.len(),
{
    if i < s.len() - 1 {
        lemma_no_digits(s.drop_last(), i);
    }
}

/// A text that holds anything but digits, behind one `+` at most, is no number; nor is an empty
/// one, or a `+` alone.
pub proof fn lemma_no_number(s: Seq<char>, i: int, max: int)
    requires
        0 <= i < s.len(),
        !('0' <= s[i] && s[i] <= '9'),
        !(i == 0 && s[i] == '+'),
    ensures
        parsed_unsigned(s, max) is None,
        parsed_unsigned(Seq::empty(), max) is None,
        parsed_unsigned(seq!['+'], max) is None,
{
    if s[0] == '+' {
        assert(s.drop_first()[i - 1] == s[i]);
        lemma_no_digits(s.drop_first(), i - 1);
    } else {
        lemma_no_digits(s, i);
    }
    assert(seq!['+'].drop_first() =~= Seq::<char>::empty());
}

/// Different numbers are written differently.
pub proof fn lemma_numbers_differ(m: nat, n: nat)
    requires
        decimal_of(m) == decimal_of(n),
    ensures
        m == n,
{
    lemma_digits_read_back(m);
    lemma_digits_read_back(n);
}

proof fn lemma_trimmed_left(s: Seq<char>)
    ensures
        trimmed_left(s).len() <= s.len(),
        trimmed_left(s) == s.skip(s.len() - trimmed_left(s).len()),
        forall|i: int| 0 <= i < s.len() - trimmed_left(s).len() ==> is_white(#[trigger] s[i]),
        trimmed_left(s).len() > 0 ==> !is_white(trimmed_left(s)[0]),
    decreases s.len(),
{
    if s.len() > 0 && is_white(s[0]) {
        let rest = s.drop_first();
        lemma_trimmed_left(rest);
        let n = trimmed_left(s).len();
        assert(rest.skip(rest.len() - n) =~= s.skip(s.len() - n));
        assert forall|i: int| 0 <= i < s.len() - n implies is_white(#[trigger] s[i]) by {
            if i > 0 {
                assert(s[i] == rest[i - 1]);
            }
        }
    } else {
        assert(s.skip(0) =~= s);
    }
}

proof fn lemma_trimmed_right(s: Seq<char>)
    ensures
        trimmed_right(s).len() <= s.len(),
        trimmed_right(s) == s.take(trimmed_right(s).len() as int),
        forall|i: int| trimmed_right(s).len() <= i < s.len() ==> is_white(#[trigger] s[i]),
        trimmed_right(s).len() > 0 ==> !is_white(trimmed_right(s).last()),
    decreases s.len(),
{
    if s.len() > 0 && is_white(s.last()) {
        let rest = s.drop_last();
        lemma_trimmed_right(rest);
        let n = trimmed_right(s).len() as int;
        assert(rest.take(n) =~= s.take(n));
        assert forall|i: int| n <= i < s.len() implies is_white(#[trigger] s[i]) by {
            if i < s.len() - 1 {
                assert(s[i] == rest[i]);
            }
        }
    } else {
        assert(s.take(s.len() as int) =~= s);
    }
}

/// Whether a text is white space, then the other text, then white space.
pub open spec fn set_in_white(s: Seq<char>, from: int, t: Seq<char>) -> bool {
    &&& 0 <= from
    &&& from + t.len() <= s.len()
    &&& t == s.subrange(from, from + t.len())
    &&& forall|i: int| 0 <= i < from ==> is_white(#[trigger] s[i])
    &&& forall|i: int| from + t.len() <= i < s.len() ==> is_white(#[trigger] s[i])
}

/// What is left of a text without the white space at its ends is a part of it, with nothing but
/// white space before and behind, and neither begins nor ends with white space.
pub proof fn lemma_trimmed_text(s: Seq<char>)
    ensures
        exists|from: int| #[trigger] set_in_white(s, from, trimmed(s)),
        trimmed(s).len() > 0 ==> !is_white(trimmed(s)[0]) && !is_white(trimmed(s).last()),
{
    let left = trimmed_left(s);
    let t = trimmed(s);
    let from = s.len() - left.len();
    lemma_trimmed_left(s);
    lemma_trimmed_right(left);
    assert(t =~= s.subrange(from, from + t.len()));
    assert forall|i: int| from + t.len() <= i < s.len() implies is_white(#[trigger] s[i]) by {
        assert(s[i] == left[i - from]);
    }
    assert(set_in_white(s, from, t));
}

/// A space, a tab and the ends of a line are white space; a letter, a digit and a character that
/// can be seen in an address are not.
pub proof fn lemma_white(c: char)
    ensures
        c == ' ' || c == '\t' || c == '\n' || c == '\r' ==> is_white(c),
        '!' <= c && c <= '~' ==> !is_white(c),
{
}

/// An ending that stands once at the end of a text is taken away, and a text without it is kept.
pub proof fn lemma_ending_taken_away(s: Seq<char>, suffix: Seq<char>)
    requires
        suffix.len() > 0,
        !suffix.is_suffix_of(s),
    ensures
        trimmed_end(s, suffix) == s,
        trimmed_end(s + suffix, suffix) == s,
{
    let whole = s + suffix;
    assert(whole.subrange(whole.len() - suffix.len(), whole.len() as int) =~= suffix);
    assert(whole.take(whole.len() - suffix.len()) =~= s);
}

/// Whether a text holds another.
pub open spec fn holds(text: Seq<char>, part: Seq<char>) -> bool {
    exists|before: Seq<char>, after: Seq<char>| text == #[trigger] (before + part + after)
}

/// A text that is put together holds what it is put together of.
pub proof fn lemma_holds(before: Seq<char>, part: Seq<char>, after: Seq<char>)
    ensures
        holds(before + part + after, part),
        holds(before + part, part),
        holds(part + after, part),
        holds(part, part),
{
    let none = Seq::<char>::empty();
    assert(before + part =~= before + part + none);
    assert(part + after =~= none + part + after);
    assert(part =~= none + part + none);
}

/// What a part of a text holds, the text holds.
pub proof fn lemma_holds_further(text: Seq<char>, part: Seq<char>, inner: Seq<char>)
    requires
        holds(text, part),
        holds(part, inner),
    ensures
        holds(text, inner),
{
    let (b, a) = choose|b: Seq<char>, a: Seq<char>| text == #[trigger] (b + part + a);
    let (d, c) = choose|d: Seq<char>, c: Seq<char>| part == #[trigger] (d + inner + c);
    assert(text =~= (b + d) + inner + (c + a));
}

/// The order of texts is that of a dictionary over their bytes: one that another begins with comes
/// before it, and else the first byte in which two differ decides, the smaller one before the
/// greater.
pub proof fn lemma_dictionary_order(common: Seq<u8>, a: Seq<u8>, b: Seq<u8>)
    ensures
        bytes_lt(common + a, common + b) <==> bytes_lt(a, b),
        a.len() == 0 ==> (bytes_lt(a, b) <==> b.len() > 0),
        a.len() > 0 && b.len() == 0 ==> !bytes_lt(a, b),
        a.len() > 0 && b.len() > 0 && a[0] < b[0] ==> bytes_lt(a, b),
        a.len() > 0 && b.len() > 0 && a[0] > b[0] ==> !bytes_lt(a, b),
    decreases common.len(),
{
    if common.len() > 0 {
        let rest = common.drop_first();
        lemma_dictionary_order(rest, a, b);
        assert((common + a).drop_first() =~= rest + a);
        assert((common + b).drop_first() =~= rest + b);
    } else {
        assert(common + a =~= a);
        assert(common + b =~= b);
    }
}

/// Texts are in the order of their UTF-8 bytes.
pub proof fn lemma_order_of_texts(a: Seq<char>, b: Seq<char>)
    ensures
        text_lt(a, b) <==> bytes_lt(encode_utf8(a), encode_utf8(b)),
{
}

/// Whether a text holds another at some place.
pub open spec fn occurs_at(s: Seq<char>, pat: Seq<char>, i: int) -> bool {
    0 <= i <= s.len() - pat.len() && s.subrange(i, i + pat.len()) == pat
}

/// A text in which a pattern does not occur is kept; one in which it occurs is what comes before
/// its first place, what is put in, and the rest done likewise.
pub proof fn lemma_replaced_text(s: Seq<char>, pat: Seq<char>, to: Seq<char>, at: int)
    requires
        pat.len() > 0,
        forall|i: int| 0 <= i < at ==> !#[trigger] occurs_at(s, pat, i),
        at == s.len() || occurs_at(s, pat, at),
    ensures
        replaced(s, pat, to) == if at == s.len() {
            s
        } else {
            s.take(at) + to + replaced(s.skip(at + pat.len()), pat, to)
        },
    decreases s.len(),
{
    if s.len() > 0 {
        assert(occurs_at(s, pat, 0) <==> pat.is_prefix_of(s));
        if at == 0 {
            assert(s.take(0) + to =~= to);
        } else {
            assert(!occurs_at(s, pat, 0));
            let rest = s.drop_first();
            assert forall|i: int| 0 <= i < at - 1 implies !#[trigger] occurs_at(rest, pat, i) by {
                if occurs_at(rest, pat, i) {
                    assert(rest.subrange(i, i + pat.len()) =~= s.subrange(
                        i + 1,
                        i + 1 + pat.len(),
                    ));
                    assert(occurs_at(s, pat, i + 1));
                }
            }
            if at < s.len() {
                assert(rest.subrange(at - 1, at - 1 + pat.len()) =~= s.subrange(
                    at,
                    at + pat.len(),
                ));
                assert(occurs_at(rest, pat, at - 1));
            }
            lemma_replaced_text(rest, pat, to, at - 1);
            if at == s.len() {
                assert(seq![s[0]] + rest =~= s);
            } else {
                assert(rest.skip(at - 1 + pat.len()) =~= s.skip(at + pat.len()));
                let tail = replaced(s.skip(at + pat.len()), pat, to);
                assert(seq![s[0]] + (rest.take(at - 1) + to + tail) =~= s.take(at) + to + tail);
            }
        }
    }
}

} // verus!
