//! Unsigned decimal numbers in attribute text, and comma-separated lists of
//! them.

use vstd::prelude::*;
use crate::format::{char_is_whitespace, is_white_space_spec};
use crate::text::{chars_of, decimal, decimal_spec, digit_char, string_of};

verus! {

/// Whether a character is an ASCII digit.
pub open spec fn is_digit(c: char) -> bool {
    '0' <= c && c <= '9'
}

/// The value of a string of ASCII digits.
pub open spec fn digits_value(s: Seq<char>) -> nat
    decreases s.len(),
{
    if s.len() == 0 {
        0
    } else {
        10 * digits_value(s.drop_last()) + ((s.last() as nat) - 48) as nat
    }
}

/// The text of a number after its optional `+` sign.
pub open spec fn uint_digits(s: Seq<char>) -> Seq<char> {
    if s.len() > 0 && s[0] == '+' { s.skip(1) } else { s }
}

/// Whether every character is an ASCII digit.
pub open spec fn all_digits(s: Seq<char>) -> bool {
    forall|i: int| 0 <= i < s.len() ==> is_digit(#[trigger] s[i])
}

/// An unsigned number as text parses to: an optional `+`, then one or more
/// ASCII digits, whose value is at most `max`.
pub open spec fn parse_uint_spec(s: Seq<char>, max: nat) -> Option<nat> {
    let digits = uint_digits(s);
    if digits.len() == 0 {
        None
    } else if !all_digits(digits) {
        None
    } else if digits_value(digits) > max {
        None
    } else {
        Some(digits_value(digits))
    }
}

/// Parse an unsigned decimal number no greater than `max`.
pub fn parse_uint(s: &str, max: u128) -> (r: Option<u128>)
    ensures
        r matches Some(v) ==> parse_uint_spec(s@, max as nat) == Some(v as nat),
        r is None ==> parse_uint_spec(s@, max as nat) is None,
{
    let chars = chars_of(s);
    let start: usize = if chars.len() > 0 && chars[0] == '+' { 1 } else { 0 };
    let ghost digits = uint_digits(s@);
    if start >= chars.len() {
        proof {
            assert(digits.len() == 0);
        }
        return None;
    }
    let mut value: u128 = 0;
    let mut i = start;
    let mut overflow = false;
    while i < chars.len()
        invariant
            start <= i <= chars.len(),
            chars@ == s@,
            start == (if s@.len() > 0 && s@[0] == '+' { 1int } else { 0int }),
            digits == s@.skip(start as int),
            forall|j: int| 0 <= j < i - start ==> is_digit(#[trigger] digits[j]),
            !overflow ==> value as nat == digits_value(digits.take(i - start)) && value <= max,
            overflow ==> digits_value(digits.take(i - start)) > max,
        decreases chars.len() - i,
    {
        let c = chars[i];
        if !('0' <= c && c <= '9') {
            proof {
                assert(digits[i - start] == s@[i as int]);
                assert(!is_digit(digits[i - start]));
                assert(0 <= i - start < digits.len());
                assert(!all_digits(digits));
            }
            return None;
        }
        proof {
            assert(digits.take(i + 1 - start).drop_last() =~= digits.take(i - start));
            assert(digits.take(i + 1 - start).last() == c);
        }
        if !overflow {
            let d = (c as u32 - 48) as u128;
            let next = match value.checked_mul(10) {
                Some(m) => m.checked_add(d),
                None => None,
            };
            match next {
                Some(v) => {
                    if v <= max {
                        value = v;
                    } else {
                        overflow = true;
                    }
                },
                None => {
                    overflow = true;
                },
            }
            proof {
                assert(digits_value(digits.take(i + 1 - start)) == 10 * digits_value(digits.take(i - start)) + d);
            }
        } else {
            proof {
                assert(digits_value(digits.take(i + 1 - start)) >= digits_value(digits.take(i - start))) by (nonlinear_arith)
                    requires
                        digits_value(digits.take(i + 1 - start)) == 10 * digits_value(digits.take(i - start)) + ((c as nat) - 48) as nat;
            }
        }
        i += 1;
    }
    proof {
        assert(digits.take(i - start) =~= digits);
    }
    if overflow {
        None
    } else {
        Some(value)
    }
}

/// The digits of a number are digits, and read back as the number.
pub proof fn lemma_decimal_digits(n: nat)
    ensures
        decimal_spec(n).len() > 0,
        forall|j: int| 0 <= j < decimal_spec(n).len() ==> is_digit(#[trigger] decimal_spec(n)[j]),
        digits_value(decimal_spec(n)) == n,
    decreases n,
{
    lemma_digit_char(n % 10);
    if n < 10 {
        assert(decimal_spec(n) == seq![digit_char(n)]);
        assert(seq![digit_char(n)].drop_last() =~= Seq::<char>::empty());
        assert(digits_value(seq![digit_char(n)]) == 10 * digits_value(Seq::<char>::empty()) + ((digit_char(n) as nat) - 48) as nat);
    } else {
        lemma_decimal_digits(n / 10);
        let d = decimal_spec(n);
        assert(d == decimal_spec(n / 10) + seq![digit_char(n % 10)]);
        assert(d.drop_last() =~= decimal_spec(n / 10));
        assert forall|j: int| 0 <= j < d.len() implies is_digit(#[trigger] d[j]) by {
            if j < d.len() - 1 {
                assert(d[j] == decimal_spec(n / 10)[j]);
            }
        }
    }
}

/// The character of a digit.
proof fn lemma_digit_char(k: nat)
    requires
        k < 10,
    ensures
        digit_char(k) as nat == k + 48,
        is_digit(digit_char(k)),
{
    let b: u8 = (k + 48) as u8;
    assert(b as nat == k + 48);
    assert(digit_char(k) == b as char);
}

/// Printing a number and parsing it back gives the number.
pub proof fn lemma_parse_decimal(n: nat, max: nat)
    requires
        n <= max,
    ensures
        parse_uint_spec(decimal_spec(n), max) == Some(n),
{
    lemma_decimal_digits(n);
    let s = decimal_spec(n);
    assert(s[0] != '+');
}

/// The decimal text of a number.
pub fn decimal_text(n: u128) -> (r: String)
    ensures
        r@ == decimal_spec(n as nat),
{
    decimal(n)
}

/// The text of a boolean.
pub open spec fn bool_text(b: bool) -> Seq<char> {
    if b { "true"@ } else { "false"@ }
}

/// The text of a boolean: `true` or `false`.
pub fn bool_to_text(b: bool) -> (r: String)
    ensures
        r@ == bool_text(b),
{
    if b {
        crate::text::owned("true")
    } else {
        crate::text::owned("false")
    }
}

/// A string without leading and trailing white space.
pub open spec fn trim_spec(s: Seq<char>) -> Seq<char>
    decreases s.len(),
{
    if s.len() > 0 && is_white_space_spec(s[0]) {
        trim_spec(s.skip(1))
    } else if s.len() > 0 && is_white_space_spec(s.last()) {
        trim_spec(s.drop_last())
    } else {
        s
    }
}

/// Remove leading and trailing white space.
pub fn trim(s: &[char]) -> (r: Vec<char>)
    ensures
        r@ == trim_spec(s@),
{
    let mut lo: usize = 0;
    let mut hi: usize = s.len();
    proof {
        assert(s@.subrange(0, s@.len() as int) =~= s@);
    }
    while lo < hi && char_is_whitespace(s[lo])
        invariant
            lo <= hi <= s.len(),
            hi == s.len(),
            trim_spec(s@) == trim_spec(s@.subrange(lo as int, hi as int)),
        decreases hi - lo,
    {
        proof {
            let t = s@.subrange(lo as int, hi as int);
            assert(t.skip(1) =~= s@.subrange(lo + 1, hi as int));
        }
        lo += 1;
    }
    while lo < hi && char_is_whitespace(s[hi - 1])
        invariant
            lo <= hi <= s.len(),
            lo == hi || !is_white_space_spec(s@[lo as int]),
            trim_spec(s@) == trim_spec(s@.subrange(lo as int, hi as int)),
        decreases hi - lo,
    {
        proof {
            let t = s@.subrange(lo as int, hi as int);
            assert(t.drop_last() =~= s@.subrange(lo as int, hi - 1));
            assert(t[0] == s@[lo as int]);
        }
        hi -= 1;
    }
    proof {
        let t = s@.subrange(lo as int, hi as int);
        if t.len() > 0 {
            assert(t[0] == s@[lo as int]);
            assert(t.last() == s@[hi - 1]);
        }
    }
    let mut r: Vec<char> = Vec::new();
    let mut k = lo;
    while k < hi
        invariant
            lo <= k <= hi <= s.len(),
            r@ == s@.subrange(lo as int, k as int),
        decreases hi - k,
    {
        r.push(s[k]);
        proof {
            assert(s@.subrange(lo as int, k + 1) =~= s@.subrange(lo as int, k as int).push(s@[k as int]));
        }
        k += 1;
    }
    r
}

/// The pieces of a string between commas, in order.
pub open spec fn split_commas(s: Seq<char>) -> Seq<Seq<char>>
    decreases s.len(),
{
    if s.len() == 0 {
        seq![Seq::empty()]
    } else {
        let rest = split_commas(s.drop_last());
        if s.last() == ',' {
            rest.push(Seq::empty())
        } else {
            rest.update(rest.len() - 1, rest.last().push(s.last()))
        }
    }
}

proof fn lemma_split_nonempty(s: Seq<char>)
    ensures
        split_commas(s).len() > 0,
    decreases s.len(),
{
    if s.len() > 0 {
        lemma_split_nonempty(s.drop_last());
    }
}

/// The numbers among comma-separated pieces: each piece, trimmed, that parses
/// as a `u32`.
pub open spec fn width_list_spec(pieces: Seq<Seq<char>>) -> Seq<u32>
    decreases pieces.len(),
{
    if pieces.len() == 0 {
        Seq::empty()
    } else {
        let rest = width_list_spec(pieces.drop_last());
        match parse_uint_spec(trim_spec(pieces.last()), 0xffff_ffff) {
            Some(v) => rest.push(v as u32),
            None => rest,
        }
    }
}

/// The widths written in a comma-separated list: each piece, trimmed, that
/// parses as a `u32`, in order; pieces that do not are left out.
pub fn parse_width_list(s: &str) -> (r: Vec<u32>)
    ensures
        r@ == width_list_spec(split_commas(s@)),
{
    let chars = chars_of(s);
    let mut widths: Vec<u32> = Vec::new();
    let mut piece: Vec<char> = Vec::new();
    let mut i: usize = 0;
    proof {
        assert(s@.take(0) =~= Seq::<char>::empty());
    }
    while i < chars.len()
        invariant
            i <= chars.len(),
            chars@ == s@,
            split_commas(s@.take(i as int)).len() > 0,
            piece@ == split_commas(s@.take(i as int)).last(),
            widths@ == width_list_spec(split_commas(s@.take(i as int)).drop_last()),
        decreases chars.len() - i,
    {
        let c = chars[i];
        let ghost t = s@.take(i + 1);
        proof {
            assert(t.drop_last() =~= s@.take(i as int));
            lemma_split_nonempty(t);
        }
        if c == ',' {
            let p = trim(piece.as_slice());
            let ps = string_of(p.as_slice());
            match parse_uint(ps.as_str(), 0xffff_ffff) {
                Some(v) => widths.push(v as u32),
                None => {},
            }
            piece = Vec::new();
            proof {
                let prev = split_commas(s@.take(i as int));
                assert(split_commas(t) == prev.push(Seq::<char>::empty()));
                assert(split_commas(t).drop_last() =~= prev);
                assert(prev.drop_last().push(prev.last()) =~= prev);
            }
        } else {
            piece.push(c);
            proof {
                let prev = split_commas(s@.take(i as int));
                assert(split_commas(t).drop_last() =~= prev.drop_last());
            }
        }
        i += 1;
    }
    proof {
        assert(s@.take(chars@.len() as int) =~= s@);
    }
    let p = trim(piece.as_slice());
    let ps = string_of(p.as_slice());
    match parse_uint(ps.as_str(), 0xffff_ffff) {
        Some(v) => widths.push(v as u32),
        None => {},
    }
    proof {
        let all = split_commas(s@);
        assert(all.drop_last().push(all.last()) =~= all);
    }
    widths
}

}
