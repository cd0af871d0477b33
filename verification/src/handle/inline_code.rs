//! Inline code.

use vstd::prelude::*;
use crate::mdast::Node;
use crate::pattern::{compile_pattern, compile_pattern_spec, pattern_in_scope, pattern_in_scope_spec};
use crate::regex_ext::{regex_find, regex_first_match_spec, regex_is_match};
use crate::output::{same_trail, cfg_of, ctx_of, opt_node, ser_with, wrote};
use crate::state::{preserved, State};
use crate::text::{chars_of, concat3, owned, push_char, repeat_spec, substring};
use crate::track::is_eol;
use crate::types::{HandlerFn, ConstructName, Info, UnsafePattern};

verus! {

/// `s` holds, from `i` on, a run of exactly `n` copies of `c`: one not
/// preceded or followed by another `c`.
pub open spec fn exact_run_at(s: Seq<char>, c: char, n: nat, i: int) -> bool {
    &&& 0 <= i && i + n <= s.len()
    &&& s.subrange(i, i + n) == repeat_spec(c, n)
    &&& i == 0 || s[i - 1] != c
    &&& i + n == s.len() || s[i + n] != c
}

/// `s` holds a run of exactly `n` copies of `c`.
pub open spec fn has_exact_run(s: Seq<char>, c: char, n: nat) -> bool {
    exists|i: int| #[trigger] exact_run_at(s, c, n, i)
}

/// A stretch of a sequence is `n` copies of `c` exactly when each of its
/// characters is `c`.
proof fn lemma_stretch_repeat(s: Seq<char>, c: char, a: int, b: int)
    requires
        0 <= a <= b <= s.len(),
    ensures
        (s.subrange(a, b) == repeat_spec(c, (b - a) as nat)) == (forall|j: int| a <= j < b ==> #[trigger] s[j] == c),
{
    if forall|j: int| a <= j < b ==> #[trigger] s[j] == c {
        assert(s.subrange(a, b) =~= repeat_spec(c, (b - a) as nat));
    }
    if s.subrange(a, b) == repeat_spec(c, (b - a) as nat) {
        assert forall|j: int| a <= j < b implies #[trigger] s[j] == c by {
            assert(s.subrange(a, b)[j - a] == s[j]);
        }
    }
}

/// The run of `c` that ends at `k` is exact, of length `n`, when and only when
/// it starts at `k - run`, the start of the maximal run ending there.
proof fn lemma_run_ending_at(s: Seq<char>, c: char, n: nat, k: int, run: int)
    requires
        n > 0,
        0 <= run <= k <= s.len(),
        forall|j: int| k - run <= j < k ==> #[trigger] s[j] == c,
        k - run == 0 || s[k - run - 1] != c,
        k == s.len() || s[k] != c,
    ensures
        (exists|i: int| #[trigger] exact_run_at(s, c, n, i) && i + n == k) == (run == n),
{
    if run == n {
        lemma_stretch_repeat(s, c, k - run, k);
        assert(exact_run_at(s, c, n, k - run));
    }
    if exists|i: int| #[trigger] exact_run_at(s, c, n, i) && i + n == k {
        let i = choose|i: int| #[trigger] exact_run_at(s, c, n, i) && i + n == k;
        lemma_stretch_repeat(s, c, i, k);
        if i < k - run {
            assert(s[k - run - 1] == c);
        }
        if i > k - run {
            assert(s[i - 1] == c);
        }
    }
}

/// Whether `value` holds a run of exactly as many grave accents as
/// `sequence` has.
fn grave_run_in(sequence: &str, value: &str) -> (r: bool)
    requires
        sequence@.len() > 0,
    ensures
        r == has_exact_run(value@, '`', sequence@.len()),
{
    let n = sequence.unicode_len();
    let v = chars_of(value);
    let ghost s = value@;
    let mut found = false;
    let mut run: usize = 0;
    let mut k: usize = 0;
    while k < v.len()
        invariant
            v@ == s,
            n == sequence@.len(),
            n > 0,
            run <= k <= v.len(),
            forall|j: int| k - run <= j < k ==> #[trigger] s[j] == '`',
            k - run == 0 || s[k - run - 1] != '`',
            found == exists|i: int| #[trigger] exact_run_at(s, '`', n as nat, i) && i + n < k,
        decreases v.len() - k,
    {
        if v[k] == '`' {
            proof {
                assert forall|i: int| #[trigger] exact_run_at(s, '`', n as nat, i) && i + n < k + 1 implies i + n
                    < k by {
                    if i + n == k {
                        assert(s[i + n] != '`');
                    }
                }
            }
            run = run + 1;
        } else {
            proof {
                lemma_run_ending_at(s, '`', n as nat, k as int, run as int);
                assert(found || run == n <==> exists|i: int| #[trigger] exact_run_at(s, '`', n as nat, i) && i + n
                    < k + 1) by {
                    if exists|i: int| #[trigger] exact_run_at(s, '`', n as nat, i) && i + n < k + 1 {
                        let i = choose|i: int| #[trigger] exact_run_at(s, '`', n as nat, i) && i + n < k + 1;
                        if i + n == k {
                            assert(exists|i: int| #[trigger] exact_run_at(s, '`', n as nat, i) && i + n == k);
                        }
                    }
                }
            }
            if run == n {
                found = true;
            }
            run = 0;
        }
        k += 1;
    }
    proof {
        lemma_run_ending_at(s, '`', n as nat, k as int, run as int);
        if exists|i: int| #[trigger] exact_run_at(s, '`', n as nat, i) {
            let i = choose|i: int| #[trigger] exact_run_at(s, '`', n as nat, i);
            if i + n == k {
                assert(exists|i: int| #[trigger] exact_run_at(s, '`', n as nat, i) && i + n == k);
            } else {
                assert(exact_run_at(s, '`', n as nat, i) && i + n < k);
            }
        }
    }
    found || run == n
}

/// The smallest number of grave accents, from `n` on, that does not occur as a
/// run in `s`.
pub open spec fn grave_fence_len(s: Seq<char>, n: nat) -> nat
    decreases s.len() + 1 - n,
{
    if n > s.len() || !has_exact_run(s, '`', n) {
        n
    } else {
        grave_fence_len(s, n + 1)
    }
}

/// The number of line endings in `s`.
pub open spec fn count_eol(s: Seq<char>) -> nat
    decreases s.len(),
{
    if s.len() == 0 {
        0
    } else {
        count_eol(s.drop_last()) + if is_eol(s.last()) { 1nat } else { 0nat }
    }
}

pub proof fn lemma_count_eol_concat(a: Seq<char>, b: Seq<char>)
    ensures
        count_eol(a + b) == count_eol(a) + count_eol(b),
    decreases b.len(),
{
    if b.len() > 0 {
        lemma_count_eol_concat(a, b.drop_last());
        assert((a + b).drop_last() =~= a + b.drop_last());
    } else {
        assert(a + b =~= a);
    }
}

/// `v` with the line ending at `m` (the whole `\r\n` when `m` is its `\n`)
/// replaced by a space.
pub open spec fn break_step(v: Seq<char>, m: int) -> Seq<char> {
    let position = if v[m] == '\n' && m > 0 && v[m - 1] == '\r' { m - 1 } else { m };
    v.subrange(0, position) + seq![' '] + v.subrange(m + 1, v.len() as int)
}

pub proof fn lemma_break_step_count(v: Seq<char>, m: int)
    requires
        0 <= m < v.len(),
        is_eol(v[m]),
    ensures
        count_eol(break_step(v, m)) < count_eol(v),
{
    let position = if v[m] == '\n' && m > 0 && v[m - 1] == '\r' { m - 1 } else { m };
    let a = v.subrange(0, position);
    let mid = v.subrange(position, m + 1);
    let b = v.subrange(m + 1, v.len() as int);
    assert(v =~= a + mid + b);
    lemma_count_eol_concat(a + mid, b);
    lemma_count_eol_concat(a, mid);
    lemma_count_eol_concat(a + seq![' '], b);
    lemma_count_eol_concat(a, seq![' ']);
    assert(mid.drop_last().len() >= 0);
    assert(mid.last() == v[m]);
    assert(count_eol(seq![' ']) == 0) by {
        assert(seq![' '].drop_last() =~= Seq::<char>::empty());
        reveal_with_fuel(count_eol, 2);
    }
}

/// Replace, one by one, the line endings where `pattern` matches in `v` by
/// spaces; a match that does not start at a line ending ends the replacing.
pub open spec fn replace_breaks(pattern: Seq<char>, v: Seq<char>) -> Seq<char>
    decreases count_eol(v),
{
    match regex_first_match_spec(pattern, v) {
        Some(m) => if (m.0 as int) < v.len() && is_eol(v[m.0 as int]) {
            proof {
                lemma_break_step_count(v, m.0 as int);
            }
            replace_breaks(pattern, break_step(v, m.0 as int))
        } else {
            v
        },
        None => v,
    }
}

/// The line endings that the first `k` patterns (those at a break and in scope)
/// find in `v`, replaced by spaces, pattern after pattern.
pub open spec fn replace_in_scope(ps: Seq<UnsafePattern>, st: Seq<ConstructName>, v: Seq<char>, k: int) -> Seq<char>
    decreases k,
{
    if k <= 0 || k > ps.len() {
        v
    } else {
        let prev = replace_in_scope(ps, st, v, k - 1);
        if ps[k - 1].at_break && pattern_in_scope_spec(st, ps[k - 1]) {
            replace_breaks(compile_pattern_spec(ps[k - 1]), prev)
        } else {
            prev
        }
    }
}

/// The expression for a character other than a space or a line ending.
pub const NOT_SPACE_OR_EOL: &'static str = "[^ \\r\\n]";

/// The expression for a space, line ending or grave accent at the start.
pub const EDGE_START: &'static str = "^[ \\r\\n`]";

/// The expression for a space, line ending or grave accent at the end.
pub const EDGE_END: &'static str = "[ \\r\\n`]$";

/// A space, a line ending or a grave accent.
pub open spec fn is_code_edge(c: char) -> bool {
    c == ' ' || c == '\r' || c == '\n' || c == '`'
}

/// Some character of `s` is neither a space nor a line ending: what
/// `NOT_SPACE_OR_EOL` finds.
pub open spec fn has_not_space_or_eol(s: Seq<char>) -> bool {
    exists|i: int| 0 <= i < s.len() && (#[trigger] s[i]) != ' ' && s[i] != '\r' && s[i] != '\n'
}

/// `s` starts with a space, line ending or grave accent: what `EDGE_START`
/// finds.
pub open spec fn starts_with_edge(s: Seq<char>) -> bool {
    s.len() > 0 && is_code_edge(s[0])
}

/// `s` ends with a space, line ending or grave accent: what `EDGE_END` finds.
pub open spec fn ends_with_edge(s: Seq<char>) -> bool {
    s.len() > 0 && is_code_edge(s.last())
}

/// The value padded with a space on each side when it is not only spaces and
/// line endings and starts or ends with a space, line ending or grave accent.
pub open spec fn padded_code(v: Seq<char>) -> Seq<char> {
    if has_not_space_or_eol(v) && (starts_with_edge(v) || ends_with_edge(v)) {
        " "@ + v + " "@
    } else {
        v
    }
}

/// Inline code: the value between runs of grave accents one longer than any
/// run in it would need, padded when needed, with line endings that could
/// start a block replaced by spaces.
pub open spec fn inline_code_spec(value: Seq<char>, ps: Seq<UnsafePattern>, st: Seq<ConstructName>) -> Seq<char> {
    let fence = repeat_spec('`', grave_fence_len(value, 1));
    fence + replace_in_scope(ps, st, padded_code(value), ps.len() as int) + fence
}

/// Replace the line endings `pattern` finds in `input` by spaces.
fn replace_pattern_breaks(pattern: &str, input: String) -> (r: String)
    ensures
        r@ == replace_breaks(pattern@, input@),
{
    let ghost v0 = input@;
    let mut value = input;
    loop
        invariant
            v0 == input@,
            replace_breaks(pattern@, value@) == replace_breaks(pattern@, v0),
        decreases count_eol(value@),
    {
        match regex_find(pattern, value.as_str()) {
            Some(m) => {
                let n = value.as_str().unicode_len();
                if m.0 < n && (value.as_str().get_char(m.0) == '\r' || value.as_str().get_char(m.0) == '\n') {
                    let mut position = m.0;
                    if value.as_str().get_char(m.0) == '\n' && m.0 > 0 && value.as_str().get_char(m.0 - 1) == '\r' {
                        position = m.0 - 1;
                    }
                    let head = substring(value.as_str(), 0, position);
                    let tail = substring(value.as_str(), m.0 + 1, n);
                    let next = concat3(head.as_str(), " ", tail.as_str());
                    proof {
                        reveal_strlit(" ");
                        lemma_break_step_count(value@, m.0 as int);
                        assert(next@ =~= break_step(value@, m.0 as int));
                    }
                    value = next;
                } else {
                    proof {
                        assert(replace_breaks(pattern@, value@) == value@);
                    }
                    return value;
                }
            },
            None => {
                proof {
                    assert(replace_breaks(pattern@, value@) == value@);
                }
                return value;
            },
        }
    }
}

/// Handle an inline code node.
pub fn handle_inline_code(node: &Node, _parent: Option<&Node>, state: &mut State, _info: &Info) -> (r: String)
    ensures
        wrote(
            *final(state),
            r@,
            ser_with(
                cfg_of(*old(state)),
                ctx_of(*old(state)),
                HandlerFn::InlineCode,
                *node,
                opt_node(_parent),
                _info.before@,
                _info.after@,
            ),
        ),
        preserved(*old(state), *final(state)),
        r@ == match *node {
            Node::InlineCode(c) => inline_code_spec(c.value@, old(state).unsafe_patterns@, old(state).stack@),
            _ => Seq::empty(),
        },
{
    match node {
        Node::InlineCode(code) => {
            let raw = code.value.as_str();
            let mut sequence = owned("`");
            proof {
                reveal_strlit("`");
                assert(sequence@ =~= repeat_spec('`', 1));
            }
            while grave_run_in(sequence.as_str(), raw)
                invariant
                    sequence@.len() >= 1,
                    sequence@ == repeat_spec('`', sequence@.len()),
                    sequence@.len() <= raw@.len() + 1,
                    grave_fence_len(raw@, 1) == grave_fence_len(raw@, sequence@.len()),
                decreases raw@.len() + 1 - sequence@.len(),
            {
                push_char(&mut sequence, '`');
                proof {
                    assert(sequence@ =~= repeat_spec('`', sequence@.len()));
                }
            }
            let mut value = owned(raw);
            if regex_is_match(NOT_SPACE_OR_EOL, raw) && (regex_is_match(EDGE_START, raw)
                || regex_is_match(EDGE_END, raw)) {
                value = concat3(" ", raw, " ");
                proof {
                    reveal_strlit(" ");
                }
            }
            assert(value@ == padded_code(raw@));
            let mut i: usize = 0;
            while i < state.unsafe_patterns.len()
                invariant
                    i <= state.unsafe_patterns.len(),
                    value@ == replace_in_scope(state.unsafe_patterns@, state.stack@, padded_code(raw@), i as int),
                decreases state.unsafe_patterns.len() - i,
            {
                let pattern = &state.unsafe_patterns[i];
                if pattern.at_break && pattern_in_scope(state.stack.as_slice(), pattern) {
                    let expression = compile_pattern(pattern);
                    value = replace_pattern_breaks(expression.as_str(), value);
                }
                i += 1;
            }
            let mut out = owned(sequence.as_str());
            crate::text::push_str(&mut out, value.as_str());
            crate::text::push_str(&mut out, sequence.as_str());
            out
        },
        _ => String::new(),
    }
}

/// Peek function for inline code.
pub fn peek_inline_code(_node: &Node, _parent: Option<&Node>, _state: &mut State, _info: &Info) -> (r: String)
    ensures
        preserved(*old(_state), *final(_state)),
        same_trail(*old(_state), *final(_state)),
        r@ == "`"@,
{
    owned("`")
}

}
