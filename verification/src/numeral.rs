//! Which texts read as floating point numbers.
use crate::text::{self, chars_of, lower_text, same_text, text_of};
use vstd::prelude::*;

verus! {

/// Whether all characters are decimal digits.
pub open spec fn digits(s: Seq<char>) -> bool {
    forall|i: int| 0 <= i < s.len() ==> '0' <= #[trigger] s[i] <= '9'
}

pub open spec fn sign(c: char) -> bool {
    c == '+' || c == '-'
}

/// `s` without the sign at its beginning.
pub open spec fn unsigned(s: Seq<char>) -> Seq<char> {
    if s.len() > 0 && sign(s[0]) {
        s.drop_first()
    } else {
        s
    }
}

/// Digits with at most one point among them, before them or behind them; at least one digit.
pub open spec fn mantissa(s: Seq<char>) -> bool {
    let point = text::position(s, '.');
    &&& digits(s.take(point))
    &&& point < s.len() ==> digits(s.skip(point + 1))
    &&& s.len() > (if point < s.len() {
        1int
    } else {
        0
    })
}

/// A mantissa, and behind it, where there is an `e`, an exponent: digits with or without a sign.
pub open spec fn scientific(s: Seq<char>) -> bool {
    let e = text::position(s, 'e');
    let exponent = unsigned(s.skip(e + 1));
    &&& mantissa(s.take(e))
    &&& e < s.len() ==> exponent.len() > 0 && digits(exponent)
}

/// The texts that the standard library parses as a floating point number: with or without a sign,
/// and in either case, `inf`, `infinity`, `nan`, or a decimal number with or without an exponent.
pub open spec fn number_text(s: Seq<char>) -> bool {
    let t = unsigned(text::ascii_lowered(s));
    t == "inf"@ || t == "infinity"@ || t == "nan"@ || scientific(t)
}

fn is_sign(c: char) -> (r: bool)
    ensures
        r == sign(c),
{
    c == '+' || c == '-'
}

fn are_digits(chars: &Vec<char>, from: usize, to: usize) -> (r: bool)
    requires
        from <= to <= chars.len(),
    ensures
        r == digits(chars@.subrange(from as int, to as int)),
{
    let ghost part = chars@.subrange(from as int, to as int);
    let mut i: usize = from;
    while i < to
        invariant
            from <= i <= to <= chars.len(),
            part == chars@.subrange(from as int, to as int),
            forall|k: int| 0 <= k < i - from ==> '0' <= #[trigger] part[k] <= '9',
        decreases to - i,
    {
        assert(part[i - from] == chars@[i as int]);
        if chars[i] < '0' || chars[i] > '9' {
            return false;
        }
        i += 1;
    }
    true
}

fn find(chars: &Vec<char>, to: usize, c: char) -> (r: usize)
    requires
        to <= chars.len(),
    ensures
        r <= to,
        r == text::position(chars@.take(to as int), c),
{
    let ghost part = chars@.take(to as int);
    let mut i: usize = 0;
    while i < to && chars[i] != c
        invariant
            i <= to <= chars.len(),
            part == chars@.take(to as int),
            forall|k: int| 0 <= k < i ==> #[trigger] part[k] != c,
        decreases to - i,
    {
        assert(part[i as int] == chars@[i as int]);
        i += 1;
    }
    proof {
        if i < to {
            assert(part[i as int] == chars@[i as int]);
        }
        text::lemma_position(part, c, i as int);
    }
    i
}

fn is_mantissa(chars: &Vec<char>, to: usize) -> (r: bool)
    requires
        to <= chars.len(),
    ensures
        r == mantissa(chars@.take(to as int)),
{
    let ghost part = chars@.take(to as int);
    let point = find(chars, to, '.');
    assert(part.take(point as int) =~= chars@.subrange(0, point as int));
    if point < to {
        assert(part.skip(point + 1) =~= chars@.subrange(point + 1, to as int));
        to > 1 && are_digits(chars, 0, point) && are_digits(chars, point + 1, to)
    } else {
        to > 0 && are_digits(chars, 0, point)
    }
}

fn is_scientific(chars: &Vec<char>) -> (r: bool)
    ensures
        r == scientific(chars@),
{
    let end = chars.len();
    assert(chars@.take(end as int) =~= chars@);
    let e = find(chars, end, 'e');
    if !is_mantissa(chars, e) {
        return false;
    }
    if e == end {
        return true;
    }
    let signed = e + 1 < end && is_sign(chars[e + 1]);
    let from = if signed {
        e + 2
    } else {
        e + 1
    };
    let ghost tail = chars@.skip(e + 1);
    assert(signed ==> tail[0] == chars@[e + 1]);
    assert(tail.len() > 0 ==> tail[0] == chars@[e + 1]);
    assert(unsigned(tail) =~= chars@.subrange(from as int, end as int));
    from < end && are_digits(chars, from, end)
}

/// Whether a text reads as a floating point number.
pub fn is_number_text(s: &str) -> (r: bool)
    ensures
        r == number_text(s@),
{
    let mut chars = chars_of(lower_text(&chars_of(s)).as_str());
    if chars.len() > 0 && is_sign(chars[0]) {
        let gone = chars.remove(0);
        assert(chars@ =~= text::ascii_lowered(s@).drop_first());
    }
    let word = text_of(&chars);
    same_text(word.as_str(), "inf") || same_text(word.as_str(), "infinity") || same_text(
        word.as_str(),
        "nan",
    ) || is_scientific(&chars)
}

} // verus!
