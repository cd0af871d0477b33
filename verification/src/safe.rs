//! Escaping text so that it is seen as text in markdown.

use vstd::prelude::*;
use crate::pattern::{compile_pattern, compile_pattern_spec, pattern_in_scope, pattern_in_scope_spec};
use crate::regex_ext::{regex_find_all, regex_first_group1_len, regex_group1_len, regex_is_match, regex_match_spans};
use crate::text::{chars_of, concat3, owned, push_char, push_str, string_of};
use crate::types::{ConstructName, SafeConfig, UnsafePattern};

verus! {

/// The upper-case hexadecimal digit of `d` (`d < 16`).
pub open spec fn hex_digit(d: nat) -> char {
    if d < 10 {
        ((d + 48) as u8) as char
    } else {
        ((d + 55) as u8) as char
    }
}

/// The upper-case hexadecimal representation of `n`, without leading zeros.
pub open spec fn hex_upper(n: nat) -> Seq<char>
    decreases n,
{
    if n < 16 {
        seq![hex_digit(n)]
    } else {
        hex_upper(n / 16) + seq![hex_digit(n % 16)]
    }
}

/// An HTML character reference for a code point: `&#x` + upper-case hex + `;`.
pub open spec fn char_ref_spec(code: nat) -> Seq<char> {
    seq!['&', '#', 'x'] + hex_upper(code) + seq![';']
}

fn hex_digit_char(d: u32) -> (c: char)
    requires
        d < 16,
    ensures
        c == hex_digit(d as nat),
{
    if d < 10 {
        ((d + 48) as u8) as char
    } else {
        ((d + 55) as u8) as char
    }
}

/// Encode a code point as an HTML character reference.
pub fn encode_character_reference(code: u32) -> (r: String)
    ensures
        r@ == char_ref_spec(code as nat),
{
    // Collect the digits from the least significant one.
    let mut digits: Vec<char> = Vec::new();
    let mut n = code;
    let ghost mut done: Seq<char> = Seq::empty();
    loop
        invariant_except_break
            hex_upper(code as nat) == hex_upper(n as nat) + done,
        invariant
            digits@ == done.reverse(),
        ensures
            hex_upper(code as nat) == done,
        decreases n,
    {
        let d = hex_digit_char(n % 16);
        if n < 16 {
            digits.push(d);
            proof {
                assert(n % 16 == n);
                assert(hex_upper(n as nat) == seq![d]);
                done = seq![d] + done;
                assert(digits@ =~= done.reverse());
            }
            break;
        }
        digits.push(d);
        proof {
            assert(hex_upper(n as nat) == hex_upper((n / 16) as nat) + seq![d]);
            assert(hex_upper(code as nat) == hex_upper((n / 16) as nat) + (seq![d] + done));
            done = seq![d] + done;
            assert(digits@ =~= done.reverse());
        }
        n = n / 16;
    }
    let mut s = owned("&#x");
    let mut i = digits.len();
    let ghost prefix = s@;
    while i > 0
        invariant
            i <= digits.len(),
            digits@ == done.reverse(),
            s@ == prefix + done.subrange(0, done.len() - i),
        decreases i,
    {
        i -= 1;
        push_char(&mut s, digits[i]);
        proof {
            assert(digits@[i as int] == done[done.len() - 1 - i]);
            assert(done.subrange(0, done.len() - i) =~= done.subrange(0, done.len() - 1 - i).push(
                done[done.len() - 1 - i],
            ));
        }
    }
    push_char(&mut s, ';');
    proof {
        reveal_strlit("&#x");
        assert(done.subrange(0, done.len() as int) =~= done);
        assert(hex_upper(code as nat) == done);
        assert(s@ =~= char_ref_spec(code as nat));
    }
    s
}

/// ASCII punctuation, as the class `[!-/:-@\[-`{-~]`.
pub open spec fn is_ascii_punct_spec(c: char) -> bool {
    ('!' <= c <= '/') || (':' <= c <= '@') || ('[' <= c <= '`') || ('{' <= c <= '~')
}

/// Check if a character is ASCII punctuation (as the class `[!-/:-@\[-`{-~]`).
pub fn is_ascii_punct(ch: char) -> (r: bool)
    ensures
        r == is_ascii_punct_spec(ch),
{
    ('!' <= ch && ch <= '/') || (':' <= ch && ch <= '@') || ('[' <= ch && ch <= '`') || ('{' <= ch
        && ch <= '~')
}

/// The backslash at `k` of `whole` precedes ASCII punctuation.
pub open spec fn backslash_escapes(whole: Seq<char>, k: int) -> bool {
    whole[k] == '\\' && k + 1 < whole.len() && is_ascii_punct_spec(whole[k + 1])
}

/// The first `n` characters of `whole`, with each backslash that precedes ASCII
/// punctuation doubled.
pub open spec fn escape_prefix(whole: Seq<char>, n: int) -> Seq<char>
    decreases n,
{
    if n <= 0 {
        Seq::empty()
    } else {
        escape_prefix(whole, n - 1) + if backslash_escapes(whole, n - 1) {
            seq!['\\', '\\']
        } else {
            seq![whole[n - 1]]
        }
    }
}

/// `value` with each backslash that precedes ASCII punctuation (looking on into
/// `after`) doubled.
pub open spec fn escape_backslashes_spec(value: Seq<char>, after: Seq<char>) -> Seq<char> {
    escape_prefix(value + after, value.len() as int)
}

/// Escape existing backslashes that precede ASCII punctuation.
pub fn escape_backslashes(value: &str, after: &str) -> (r: String)
    ensures
        r@ == escape_backslashes_spec(value@, after@),
{
    let v = chars_of(value);
    let a = chars_of(after);
    let ghost whole = value@ + after@;
    let mut out = String::new();
    let mut k: usize = 0;
    while k < v.len()
        invariant
            v@ == value@,
            a@ == after@,
            whole == value@ + after@,
            k <= v.len(),
            out@ == escape_prefix(whole, k as int),
        decreases v.len() - k,
    {
        let c = v[k];
        let next: Option<char> = if k + 1 < v.len() {
            Some(v[k + 1])
        } else if a.len() > 0 {
            Some(a[0])
        } else {
            None
        };
        let doubled = c == '\\' && match next {
            Some(n) => is_ascii_punct(n),
            None => false,
        };
        proof {
            assert(whole[k as int] == c);
            if k + 1 < v.len() {
                assert(whole[k + 1] == v@[k + 1]);
            } else if a.len() > 0 {
                assert(whole[k + 1] == a@[0]);
            }
            assert(doubled == backslash_escapes(whole, k as int));
        }
        if doubled {
            push_char(&mut out, '\\');
            push_char(&mut out, '\\');
        } else {
            push_char(&mut out, c);
        }
        proof {
            assert(escape_prefix(whole, k + 1) == escape_prefix(whole, k as int) + if backslash_escapes(
                whole,
                k as int,
            ) {
                seq!['\\', '\\']
            } else {
                seq![whole[k as int]]
            });
            assert(out@ =~= escape_prefix(whole, k + 1));
        }
        k += 1;
    }
    out
}


/// The class of ASCII punctuation that is escaped with a backslash.
pub const ASCII_PUNCT: &'static str = "[!-/:-@\\[-`\\{-~]";

/// Some character of `s` is ASCII punctuation: what `ASCII_PUNCT` finds.
pub open spec fn has_ascii_punct(s: Seq<char>) -> bool {
    exists|i: int| 0 <= i < s.len() && is_ascii_punct_spec(#[trigger] s[i])
}

/// The matches of an unsafe pattern in `value` (none when its expression does not compile).
pub open spec fn pattern_spans(p: UnsafePattern, value: Seq<char>) -> Seq<(usize, usize)> {
    match regex_match_spans(compile_pattern_spec(p), value) {
        Some(v) => v,
        None => Seq::empty(),
    }
}

/// The pattern constrains what comes before its character.
pub open spec fn has_before(p: UnsafePattern) -> bool {
    p.before is Some || p.at_break
}

/// The pattern constrains what comes after its character.
pub open spec fn has_after(p: UnsafePattern) -> bool {
    p.after is Some
}

/// Where the unsafe character of a match stands: past capture group 1 (the
/// `before` context, measured on the text from the match on) when there is one.
pub open spec fn match_position(p: UnsafePattern, value: Seq<char>, span: (usize, usize)) -> int {
    if has_before(p) {
        span.0 + match regex_group1_len(compile_pattern_spec(p), value.skip(span.0 as int)) {
            Some(g) => g as int,
            None => 0,
        }
    } else {
        span.0 as int
    }
}

/// Match `m` of the in-scope pattern `i` marks position `x` as unsafe.
pub open spec fn marks(
    ps: Seq<UnsafePattern>,
    stack: Seq<ConstructName>,
    value: Seq<char>,
    i: int,
    m: int,
    x: int,
) -> bool {
    &&& 0 <= i < ps.len()
    &&& pattern_in_scope_spec(stack, ps[i])
    &&& 0 <= m < pattern_spans(ps[i], value).len()
    &&& match_position(ps[i], value, pattern_spans(ps[i], value)[m]) == x
}

/// Some in-scope pattern marks position `x`.
pub open spec fn is_marked(ps: Seq<UnsafePattern>, stack: Seq<ConstructName>, value: Seq<char>, x: int) -> bool {
    exists|i: int, m: int| #[trigger] marks(ps, stack, value, i, m, x)
}

/// Every mark at `x` comes from a pattern with a `before` context.
pub open spec fn marked_before(ps: Seq<UnsafePattern>, stack: Seq<ConstructName>, value: Seq<char>, x: int) -> bool {
    forall|i: int, m: int| #[trigger] marks(ps, stack, value, i, m, x) ==> has_before(ps[i])
}

/// Every mark at `x` comes from a pattern with an `after` context.
pub open spec fn marked_after(ps: Seq<UnsafePattern>, stack: Seq<ConstructName>, value: Seq<char>, x: int) -> bool {
    forall|i: int, m: int| #[trigger] marks(ps, stack, value, i, m, x) ==> has_after(ps[i])
}

pub open spec fn is_ascii_char(c: char) -> bool {
    (c as u32) < 128
}

/// The mark at `x` is dropped because the next character is escaped anyway.
pub open spec fn next_skip(ps: Seq<UnsafePattern>, st: Seq<ConstructName>, v: Seq<char>, eo: int, x: int) -> bool {
    &&& x + 1 < eo
    &&& is_ascii_char(v[x])
    &&& is_marked(ps, st, v, x + 1)
    &&& marked_after(ps, st, v, x)
    &&& !marked_before(ps, st, v, x + 1)
    &&& !marked_after(ps, st, v, x + 1)
}

/// The mark at `x` is dropped because the previous character is escaped anyway.
pub open spec fn prev_skip(ps: Seq<UnsafePattern>, st: Seq<ConstructName>, v: Seq<char>, x: int) -> bool {
    &&& x >= 1
    &&& is_ascii_char(v[x - 1])
    &&& is_marked(ps, st, v, x - 1)
    &&& marked_before(ps, st, v, x)
    &&& !marked_before(ps, st, v, x - 1)
    &&& !marked_after(ps, st, v, x - 1)
}

/// The character at `x` (inside the input) is escaped.
pub open spec fn kept(ps: Seq<UnsafePattern>, st: Seq<ConstructName>, v: Seq<char>, so: int, eo: int, x: int) -> bool {
    &&& is_marked(ps, st, v, x)
    &&& so <= x < eo
    &&& !next_skip(ps, st, v, eo, x)
    &&& !prev_skip(ps, st, v, x)
}

/// The output from position `x` on, the pending unescaped text starting at `start`.
pub open spec fn safe_scan(
    ps: Seq<UnsafePattern>,
    st: Seq<ConstructName>,
    v: Seq<char>,
    so: int,
    eo: int,
    enc: Seq<char>,
    after: Seq<char>,
    start: int,
    x: int,
) -> Seq<char>
    decreases eo - x,
{
    if x >= eo {
        escape_backslashes_spec(v.subrange(start, eo), after)
    } else if kept(ps, st, v, so, eo, x) {
        let chunk = escape_backslashes_spec(v.subrange(start, x), seq!['\\']);
        if is_ascii_punct_spec(v[x]) && !enc.contains(v[x]) {
            chunk + seq!['\\'] + safe_scan(ps, st, v, so, eo, enc, after, x, x + 1)
        } else {
            chunk + char_ref_spec((v[x] as u32) as nat) + safe_scan(ps, st, v, so, eo, enc, after, x + 1, x + 1)
        }
    } else {
        safe_scan(ps, st, v, so, eo, enc, after, start, x + 1)
    }
}

/// `input`, framed by `before` and `after`, with each unsafe character escaped:
/// with a backslash when it is ASCII punctuation not listed in `enc`, else as a
/// character reference; backslashes before ASCII punctuation are doubled.
pub open spec fn safe_spec(
    ps: Seq<UnsafePattern>,
    st: Seq<ConstructName>,
    before: Seq<char>,
    input: Seq<char>,
    after: Seq<char>,
    enc: Seq<char>,
) -> Seq<char> {
    let v = before + input + after;
    safe_scan(
        ps,
        st,
        v,
        before.len() as int,
        (before.len() + input.len()) as int,
        enc,
        after,
        before.len() as int,
        before.len() as int,
    )
}

/// Whether `c` is in `v`.
pub fn char_in(v: &[char], c: char) -> (r: bool)
    ensures
        r == v@.contains(c),
{
    let mut i: usize = 0;
    while i < v.len()
        invariant
            i <= v.len(),
            forall|j: int| 0 <= j < i ==> v@[j] != c,
        decreases v.len() - i,
    {
        if v[i] == c {
            return true;
        }
        i += 1;
    }
    false
}

/// The marks of the matches before (i, m) in pattern-then-match order.
pub open spec fn marks_before(
    ps: Seq<UnsafePattern>,
    stack: Seq<ConstructName>,
    value: Seq<char>,
    i: int,
    m: int,
    i2: int,
    m2: int,
    x: int,
) -> bool {
    marks(ps, stack, value, i2, m2, x) && (i2 < i || (i2 == i && m2 < m))
}

/// The tables of marks once the matches before (i, m) are looked at.
pub open spec fn tables_upto(
    ps: Seq<UnsafePattern>,
    stack: Seq<ConstructName>,
    value: Seq<char>,
    i: int,
    m: int,
    marked: Seq<bool>,
    bf: Seq<bool>,
    af: Seq<bool>,
) -> bool {
    &&& marked.len() == value.len()
    &&& bf.len() == value.len()
    &&& af.len() == value.len()
    &&& forall|x: int|
        0 <= x < value.len() ==> (#[trigger] marked[x] <==> exists|i2: int, m2: int|
            #[trigger] marks_before(ps, stack, value, i, m, i2, m2, x))
    &&& forall|x: int|
        0 <= x < value.len() ==> (#[trigger] bf[x] <==> forall|i2: int, m2: int|
            #[trigger] marks_before(ps, stack, value, i, m, i2, m2, x) ==> has_before(ps[i2]))
    &&& forall|x: int|
        0 <= x < value.len() ==> (#[trigger] af[x] <==> forall|i2: int, m2: int|
            #[trigger] marks_before(ps, stack, value, i, m, i2, m2, x) ==> has_after(ps[i2]))
}

/// Make a string safe for embedding in markdown constructs.
///
/// The unsafe patterns that apply given the construct stack mark characters of
/// `before + input + after`; those inside `input` are escaped (see `safe_spec`).
/// A pattern whose expression does not compile marks nothing.
pub fn safe_with(
    patterns: &[UnsafePattern],
    stack: &[ConstructName],
    input: Option<&str>,
    config: &SafeConfig,
) -> (r: String)
    ensures
        r@ == safe_spec(
            patterns@,
            stack@,
            config.before@,
            match input {
                Some(s) => s@,
                None => Seq::empty(),
            },
            config.after@,
            config.encode@,
        ),
{
    let input_str: &str = match input {
        Some(s) => s,
        None => "",
    };
    proof {
        if input is None {
            reveal_strlit("");
        }
    }
    let value_s = concat3(config.before.as_str(), input_str, config.after.as_str());
    let v = chars_of(value_s.as_str());
    let n = v.len();
    let ghost ps = patterns@;
    let ghost stk = stack@;
    let ghost val = v@;
    let mut marked: Vec<bool> = vec![false; n];
    let mut bf: Vec<bool> = vec![true; n];
    let mut af: Vec<bool> = vec![true; n];
    let mut i: usize = 0;
    while i < patterns.len()
        invariant
            v@ == value_s@,
            val == v@,
            ps == patterns@,
            stk == stack@,
            n == v@.len(),
            i <= patterns.len(),
            tables_upto(ps, stk, val, i as int, 0, marked@, bf@, af@),
        decreases patterns.len() - i,
    {
        let p = &patterns[i];
        if pattern_in_scope(stack, p) {
            let expr = compile_pattern(p);
            let hb = p.before.is_some() || p.at_break;
            let ha = p.after.is_some();
            match regex_find_all(expr.as_str(), value_s.as_str()) {
                Some(spans) => {
                    let mut m: usize = 0;
                    while m < spans.len()
                        invariant
                            v@ == value_s@,
                            val == v@,
                            ps == patterns@,
                            stk == stack@,
                            n == v@.len(),
                            i < patterns.len(),
                            *p == patterns@[i as int],
                            pattern_in_scope_spec(stk, *p),
                            expr@ == compile_pattern_spec(*p),
                            hb == has_before(*p),
                            ha == has_after(*p),
                            spans@ == pattern_spans(*p, val),
                            forall|k: int| 0 <= k < spans@.len() ==> #[trigger] spans@[k].0 <= spans@[k].1 <= n,
                            m <= spans.len(),
                            tables_upto(ps, stk, val, i as int, m as int, marked@, bf@, af@),
                        decreases spans.len() - m,
                    {
                        let st = spans[m].0;
                        let pos: Option<usize> = if hb {
                            let suffix = crate::text::substring(value_s.as_str(), st, n);
                            match regex_first_group1_len(expr.as_str(), suffix.as_str()) {
                                Some(g) => st.checked_add(g),
                                None => Some(st),
                            }
                        } else {
                            Some(st)
                        };
                        let ghost gx = match_position(*p, val, spans@[m as int]);
                        proof {
                            assert(val.skip(st as int) =~= val.subrange(st as int, n as int));
                        }
                        let ghost old_marked = marked@;
                        let ghost old_bf = bf@;
                        let ghost old_af = af@;
                        match pos {
                            Some(x) => {
                                if x < n {
                                    marked.set(x, true);
                                    if !hb {
                                        bf.set(x, false);
                                    }
                                    if !ha {
                                        af.set(x, false);
                                    }
                                }
                            },
                            None => {},
                        }
                        proof {
                            assert(pos matches Some(x) ==> x == gx);
                            assert(pos is None ==> gx > usize::MAX);
                            assert forall|x: int| 0 <= x < val.len() implies {
                                &&& #[trigger] marked@[x] == (old_marked[x] || x == gx)
                                &&& bf@[x] == (old_bf[x] && (x != gx || hb))
                                &&& af@[x] == (old_af[x] && (x != gx || ha))
                            } by {}
                            lemma_tables_step(ps, stk, val, i as int, m as int, old_marked, old_bf, old_af,
                                marked@, bf@, af@, gx);
                        }
                        m += 1;
                    }
                    proof {
                        lemma_tables_next_pattern(ps, stk, val, i as int, m as int, marked@, bf@, af@);
                    }
                },
                None => {
                    proof {
                        lemma_tables_next_pattern(ps, stk, val, i as int, 0, marked@, bf@, af@);
                    }
                },
            }
        } else {
            proof {
                lemma_tables_next_pattern(ps, stk, val, i as int, 0, marked@, bf@, af@);
            }
        }
        i += 1;
    }
    proof {
        lemma_tables_final(ps, stk, val, i as int, marked@, bf@, af@);
    }
    let so = config.before.as_str().unicode_len();
    let eo = so + input_str.unicode_len();
    let ghost enc = config.encode@;
    let ghost aft = config.after@;
    let mut out = String::new();
    let mut start = so;
    let mut x = so;
    while x < eo
        invariant
            v@ == value_s@,
            val == v@,
            n == v@.len(),
            val == config.before@ + input_str@ + config.after@,
            so == config.before@.len(),
            eo == so + input_str@.len(),
            eo <= n,
            so <= start <= x <= eo,
            enc == config.encode@,
            aft == config.after@,
            marked@.len() == n,
            bf@.len() == n,
            af@.len() == n,
            forall|y: int| 0 <= y < n ==> (#[trigger] marked@[y] <==> is_marked(ps, stk, val, y)),
            forall|y: int| 0 <= y < n ==> (#[trigger] bf@[y] <==> marked_before(ps, stk, val, y)),
            forall|y: int| 0 <= y < n ==> (#[trigger] af@[y] <==> marked_after(ps, stk, val, y)),
            out@ + safe_scan(ps, stk, val, so as int, eo as int, enc, aft, start as int, x as int)
                == safe_scan(ps, stk, val, so as int, eo as int, enc, aft, so as int, so as int),
        decreases eo - x,
    {
        let nskip = x + 1 < eo && (v[x] as u32) < 128 && marked[x + 1] && af[x] && !bf[x + 1]
            && !af[x + 1];
        let pskip = x >= 1 && (v[x - 1] as u32) < 128 && marked[x - 1] && bf[x] && !bf[x - 1]
            && !af[x - 1];
        let is_kept = marked[x] && !nskip && !pskip;
        assert(is_kept == kept(ps, stk, val, so as int, eo as int, x as int));
        let ghost old_out = out@;
        let ghost old_start = start;
        if is_kept {
            let piece = crate::text::substring(value_s.as_str(), start, x);
            let chunk = escape_backslashes(piece.as_str(), "\\");
            proof {
                reveal_strlit("\\");
                assert("\\"@ =~= seq!['\\']);
                assert(piece@ =~= val.subrange(start as int, x as int));
                assert(chunk@ == escape_backslashes_spec(val.subrange(start as int, x as int), seq!['\\']));
            }
            push_str(&mut out, chunk.as_str());
            let c = v[x];
            let cs = crate::text::char_string(c);
            proof {
                assert(cs@[0] == c);
            }
            if regex_is_match(ASCII_PUNCT, cs.as_str()) && !char_in(config.encode.as_slice(), c) {
                push_char(&mut out, '\\');
                start = x;
                proof {
                    assert(safe_scan(ps, stk, val, so as int, eo as int, enc, aft, old_start as int, x as int)
                        == chunk@ + seq!['\\'] + safe_scan(ps, stk, val, so as int, eo as int, enc, aft, x as int, x + 1));
                    assert(out@ == old_out + chunk@ + seq!['\\']);
                }
            } else {
                let reference = encode_character_reference(c as u32);
                push_str(&mut out, reference.as_str());
                start = x + 1;
                proof {
                    assert(safe_scan(ps, stk, val, so as int, eo as int, enc, aft, old_start as int, x as int)
                        == chunk@ + char_ref_spec((c as u32) as nat) + safe_scan(ps, stk, val, so as int, eo as int, enc, aft, x + 1, x + 1));
                    assert(out@ == old_out + chunk@ + char_ref_spec((c as u32) as nat));
                }
            }
        }
        x += 1;
    }
    let piece = crate::text::substring(value_s.as_str(), start, eo);
    let tail = escape_backslashes(piece.as_str(), config.after.as_str());
    push_str(&mut out, tail.as_str());
    proof {
        assert(out@ == safe_scan(ps, stk, val, so as int, eo as int, enc, aft, so as int, so as int));
    }
    out
}

/// Recording the mark of match `m` of pattern `i` extends the tables by that match.
proof fn lemma_tables_step(
    ps: Seq<UnsafePattern>,
    stack: Seq<ConstructName>,
    value: Seq<char>,
    i: int,
    m: int,
    marked: Seq<bool>,
    bf: Seq<bool>,
    af: Seq<bool>,
    marked2: Seq<bool>,
    bf2: Seq<bool>,
    af2: Seq<bool>,
    gx: int,
)
    requires
        0 <= i < ps.len(),
        pattern_in_scope_spec(stack, ps[i]),
        0 <= m < pattern_spans(ps[i], value).len(),
        gx == match_position(ps[i], value, pattern_spans(ps[i], value)[m]),
        tables_upto(ps, stack, value, i, m, marked, bf, af),
        marked2.len() == value.len(),
        bf2.len() == value.len(),
        af2.len() == value.len(),
        forall|x: int| #![trigger marked2[x]] #![trigger bf2[x]] #![trigger af2[x]]
            0 <= x < value.len() ==> {
            &&& marked2[x] == (marked[x] || x == gx)
            &&& bf2[x] == (bf[x] && (x != gx || has_before(ps[i])))
            &&& af2[x] == (af[x] && (x != gx || has_after(ps[i])))
        },
    ensures
        tables_upto(ps, stack, value, i, m + 1, marked2, bf2, af2),
{
    assert(marks(ps, stack, value, i, m, gx));
    assert forall|i2: int, m2: int, x: int|
        #[trigger] marks_before(ps, stack, value, i, m + 1, i2, m2, x) implies
        marks_before(ps, stack, value, i, m, i2, m2, x) || (i2 == i && m2 == m && x == gx) by {}
    assert forall|i2: int, m2: int, x: int|
        #[trigger] marks_before(ps, stack, value, i, m, i2, m2, x) implies
        marks_before(ps, stack, value, i, m + 1, i2, m2, x) by {}
    assert(forall|x: int| x == gx ==> #[trigger] marks_before(ps, stack, value, i, m + 1, i, m, x));
    assert forall|x: int| 0 <= x < value.len() implies (#[trigger] marked2[x] <==> exists|i2: int, m2: int|
        #[trigger] marks_before(ps, stack, value, i, m + 1, i2, m2, x)) by {
        if marked2[x] {
            if x == gx {
                assert(marks_before(ps, stack, value, i, m + 1, i, m, x));
            } else {
                let (i2, m2) = choose|i2: int, m2: int| #[trigger] marks_before(ps, stack, value, i, m, i2, m2, x);
                assert(marks_before(ps, stack, value, i, m + 1, i2, m2, x));
            }
        }
        if exists|i2: int, m2: int| #[trigger] marks_before(ps, stack, value, i, m + 1, i2, m2, x) {
            let (i2, m2) = choose|i2: int, m2: int| #[trigger] marks_before(ps, stack, value, i, m + 1, i2, m2, x);
            if !(i2 == i && m2 == m) {
                assert(marks_before(ps, stack, value, i, m, i2, m2, x));
            }
        }
    }
    assert forall|x: int| 0 <= x < value.len() implies (#[trigger] bf2[x] <==> forall|i2: int, m2: int|
        #[trigger] marks_before(ps, stack, value, i, m + 1, i2, m2, x) ==> has_before(ps[i2])) by {
        if bf2[x] {
            assert(bf[x]);
            assert forall|i2: int, m2: int| #[trigger] marks_before(ps, stack, value, i, m + 1, i2, m2, x)
                implies has_before(ps[i2]) by {
                if !(i2 == i && m2 == m) {
                    assert(marks_before(ps, stack, value, i, m, i2, m2, x));
                }
            }
        } else {
            if x == gx && !has_before(ps[i]) {
                assert(marks_before(ps, stack, value, i, m + 1, i, m, x));
            } else {
                assert(!bf[x]);
                let (i2, m2) = choose|i2: int, m2: int|
                    #[trigger] marks_before(ps, stack, value, i, m, i2, m2, x) && !has_before(ps[i2]);
                assert(marks_before(ps, stack, value, i, m + 1, i2, m2, x));
            }
        }
    }
    assert forall|x: int| 0 <= x < value.len() implies (#[trigger] af2[x] <==> forall|i2: int, m2: int|
        #[trigger] marks_before(ps, stack, value, i, m + 1, i2, m2, x) ==> has_after(ps[i2])) by {
        if af2[x] {
            assert(af[x]);
            assert forall|i2: int, m2: int| #[trigger] marks_before(ps, stack, value, i, m + 1, i2, m2, x)
                implies has_after(ps[i2]) by {
                if !(i2 == i && m2 == m) {
                    assert(marks_before(ps, stack, value, i, m, i2, m2, x));
                }
            }
        } else {
            if x == gx && !has_after(ps[i]) {
                assert(marks_before(ps, stack, value, i, m + 1, i, m, x));
            } else {
                assert(!af[x]);
                let (i2, m2) = choose|i2: int, m2: int|
                    #[trigger] marks_before(ps, stack, value, i, m, i2, m2, x) && !has_after(ps[i2]);
                assert(marks_before(ps, stack, value, i, m + 1, i2, m2, x));
            }
        }
    }
}

proof fn lemma_tables_next_pattern(
    ps: Seq<UnsafePattern>,
    stack: Seq<ConstructName>,
    value: Seq<char>,
    i: int,
    m: int,
    marked: Seq<bool>,
    bf: Seq<bool>,
    af: Seq<bool>,
)
    requires
        0 <= i < ps.len(),
        tables_upto(ps, stack, value, i, m, marked, bf, af),
        m >= 0,
        !pattern_in_scope_spec(stack, ps[i]) || m >= pattern_spans(ps[i], value).len(),
    ensures
        tables_upto(ps, stack, value, i + 1, 0, marked, bf, af),
{
    assert forall|i2: int, m2: int, x: int|
        #[trigger] marks_before(ps, stack, value, i + 1, 0, i2, m2, x) implies marks_before(
        ps,
        stack,
        value,
        i,
        m,
        i2,
        m2,
        x,
    ) by {}
    assert forall|i2: int, m2: int, x: int|
        #[trigger] marks_before(ps, stack, value, i, m, i2, m2, x) implies marks_before(
        ps,
        stack,
        value,
        i + 1,
        0,
        i2,
        m2,
        x,
    ) by {}
}

proof fn lemma_tables_final(
    ps: Seq<UnsafePattern>,
    stack: Seq<ConstructName>,
    value: Seq<char>,
    i: int,
    marked: Seq<bool>,
    bf: Seq<bool>,
    af: Seq<bool>,
)
    requires
        i == ps.len(),
        tables_upto(ps, stack, value, i, 0, marked, bf, af),
    ensures
        forall|y: int| 0 <= y < value.len() ==> (#[trigger] marked[y] <==> is_marked(ps, stack, value, y)),
        forall|y: int| 0 <= y < value.len() ==> (#[trigger] bf[y] <==> marked_before(ps, stack, value, y)),
        forall|y: int| 0 <= y < value.len() ==> (#[trigger] af[y] <==> marked_after(ps, stack, value, y)),
{
    assert forall|i2: int, m2: int, x: int|
        #[trigger] marks(ps, stack, value, i2, m2, x) implies marks_before(
        ps,
        stack,
        value,
        i,
        0,
        i2,
        m2,
        x,
    ) by {}
    assert forall|y: int| 0 <= y < value.len() implies (#[trigger] marked[y] <==> is_marked(ps, stack, value, y)) by {
        if marked[y] {
            let (i2, m2) = choose|i2: int, m2: int| #[trigger] marks_before(ps, stack, value, i, 0, i2, m2, y);
            assert(marks(ps, stack, value, i2, m2, y));
        }
        if is_marked(ps, stack, value, y) {
            let (i2, m2) = choose|i2: int, m2: int| #[trigger] marks(ps, stack, value, i2, m2, y);
            assert(marks_before(ps, stack, value, i, 0, i2, m2, y));
        }
    }
    assert forall|y: int| 0 <= y < value.len() implies (#[trigger] bf[y] <==> marked_before(ps, stack, value, y)) by {
        if bf[y] {
            assert forall|i2: int, m2: int| #[trigger] marks(ps, stack, value, i2, m2, y) implies has_before(ps[i2]) by {
                assert(marks_before(ps, stack, value, i, 0, i2, m2, y));
            }
        }
    }
    assert forall|y: int| 0 <= y < value.len() implies (#[trigger] af[y] <==> marked_after(ps, stack, value, y)) by {
        if af[y] {
            assert forall|i2: int, m2: int| #[trigger] marks(ps, stack, value, i2, m2, y) implies has_after(ps[i2]) by {
                assert(marks_before(ps, stack, value, i, 0, i2, m2, y));
            }
        }
    }
}

}
