//! Trusted access to the `regex` crate.
//!
//! Match positions are handed back counted in characters of the haystack,
//! so that the rest of the library works on character sequences.

use vstd::prelude::*;
use crate::format::{
    first_line_blank, has_scheme, has_url_unsafe, last_line_blank, BLANK_FIRST_LINE, BLANK_LAST_LINE, URL_SCHEME,
    URL_UNSAFE,
};
use crate::gfm::{plain_start, task_bullet_end, TASK_BULLET};
use crate::handle::image::{has_control_or_space, CONTROL_OR_SPACE};
use crate::handle::inline_code::{ends_with_edge, has_not_space_or_eol, starts_with_edge, EDGE_END, EDGE_START, NOT_SPACE_OR_EOL};
use crate::indent::{eol_spans, EOL_PATTERN};
use crate::pattern::{has_regex_metachar, REGEX_METACHAR};
use crate::safe::{has_ascii_punct, ASCII_PUNCT};

verus! {

/// Named result: `None` when `pattern` does not compile, else the successive
/// non-overlapping matches of `pattern` in `haystack` (regex `find_iter`),
/// each as (start, end) counted in characters.
pub uninterp spec fn regex_match_spans(pattern: Seq<char>, haystack: Seq<char>) -> Option<Seq<(usize, usize)>>;

/// Named result: the length in characters of capture group 1 of the first match
/// of `pattern` in `haystack` (regex `captures(..).get(1)`), `None` when the
/// pattern does not compile, does not match, or group 1 does not take part.
pub uninterp spec fn regex_group1_len(pattern: Seq<char>, haystack: Seq<char>) -> Option<usize>;

/// The fixed expressions of the library.
pub open spec fn fixed_pattern(p: Seq<char>) -> bool {
    p == EOL_PATTERN@ || p == TASK_BULLET@ || p == CONTROL_OR_SPACE@ || p == REGEX_METACHAR@ || p == ASCII_PUNCT@
        || p == BLANK_FIRST_LINE@ || p == BLANK_LAST_LINE@ || p == URL_SCHEME@ || p == URL_UNSAFE@
        || p == NOT_SPACE_OR_EOL@ || p == EDGE_START@ || p == EDGE_END@
}

/// Whether a fixed expression that only classes characters or anchors one
/// class finds a match in `h`, as its syntax says; `None` for other
/// expressions.
pub open spec fn fixed_is_match(p: Seq<char>, h: Seq<char>) -> Option<bool> {
    if p == CONTROL_OR_SPACE@ {
        Some(has_control_or_space(h))
    } else if p == REGEX_METACHAR@ {
        Some(has_regex_metachar(h))
    } else if p == ASCII_PUNCT@ {
        Some(has_ascii_punct(h))
    } else if p == BLANK_FIRST_LINE@ {
        Some(first_line_blank(h))
    } else if p == BLANK_LAST_LINE@ {
        Some(last_line_blank(h))
    } else if p == URL_SCHEME@ {
        Some(has_scheme(h))
    } else if p == URL_UNSAFE@ {
        Some(has_url_unsafe(h))
    } else if p == NOT_SPACE_OR_EOL@ {
        Some(has_not_space_or_eol(h))
    } else if p == EDGE_START@ {
        Some(starts_with_edge(h))
    } else if p == EDGE_END@ {
        Some(ends_with_edge(h))
    } else {
        None
    }
}

/// `regex::Regex::new` followed by `find_iter`.
///
/// Trusted: the result is the named `regex_match_spans`; as the crate
/// documents, the matches are successive and non-overlapping, and each has
/// `start <= end` and lies inside the haystack.
/// For the line-ending expression `\r?\n|\r` the matches are, by the
/// crate's leftmost-first semantics, the line endings of the haystack: `\r\n`
/// as one match, else a lone `\r` or `\n`. For the list bullet expression
/// `^(?:[*+\-]|\d+\.)([\r\n]| {1,3})`, on a haystack with a plain start, the
/// one match (anchored at the start) is the one `task_bullet_end` describes.
/// For the expressions of `fixed_is_match`, whether there is a match is what
/// that function says, read off their syntax: character classes, `^` and `$`
/// for the start and end of the text, and, under `(?i)`, case folded by
/// Unicode's simple case folding.
/// Byte offsets are converted to character counts.
#[verifier::external_body]
pub(crate) fn regex_find_all(pattern: &str, haystack: &str) -> (r: Option<Vec<(usize, usize)>>)
    ensures
        r is None ==> !fixed_pattern(pattern@),
        r matches Some(v) ==> (fixed_is_match(pattern@, haystack@) matches Some(b) ==> (v@.len() > 0) == b),
        r matches Some(v) ==> (pattern@ == EOL_PATTERN@ ==> v@ == eol_spans(haystack@)),
        r matches Some(v) ==> (pattern@ == TASK_BULLET@ && plain_start(haystack@) ==> v@ == match task_bullet_end(
            haystack@,
        ) {
            Some(e) => seq![(0usize, e as usize)],
            None => Seq::empty(),
        }),
        r is None <==> regex_match_spans(pattern@, haystack@) is None,
        r matches Some(v) ==> regex_match_spans(pattern@, haystack@) == Some(v@),
        r matches Some(v) ==> forall|k: int|
            0 <= k < v@.len() ==> #[trigger] v@[k].0 <= v@[k].1 <= haystack@.len(),
        r matches Some(v) ==> forall|k: int|
            0 <= k < v@.len() - 1 ==> #[trigger] v@[k].1 <= v@[k + 1].0,
{
    let re = regex::Regex::new(pattern).ok()?;
    Some(
        re.find_iter(haystack).map(
            |m| (haystack[..m.start()].chars().count(), haystack[..m.end()].chars().count()),
        ).collect(),
    )
}

/// `regex::Regex::new` followed by `captures(..).get(1)`.
///
/// Trusted: the result is the named `regex_group1_len`; the group's byte
/// length is converted to a character count.
#[verifier::external_body]
pub(crate) fn regex_first_group1_len(pattern: &str, haystack: &str) -> (r: Option<usize>)
    ensures
        r == regex_group1_len(pattern@, haystack@),
{
    let re = regex::Regex::new(pattern).ok()?;
    re.captures(haystack)?.get(1).map(|g| g.as_str().chars().count())
}

/// Whether `pattern` compiles and matches somewhere in `haystack`.
pub open spec fn regex_is_match_spec(pattern: Seq<char>, haystack: Seq<char>) -> bool {
    regex_match_spans(pattern, haystack) matches Some(v) && v.len() > 0
}

/// Each fixed expression is told apart from the others, so that
/// `fixed_is_match` gives its own class.
proof fn lemma_fixed_is_match(h: Seq<char>)
    ensures
        fixed_is_match(CONTROL_OR_SPACE@, h) == Some(has_control_or_space(h)),
        fixed_is_match(REGEX_METACHAR@, h) == Some(has_regex_metachar(h)),
        fixed_is_match(ASCII_PUNCT@, h) == Some(has_ascii_punct(h)),
        fixed_is_match(BLANK_FIRST_LINE@, h) == Some(first_line_blank(h)),
        fixed_is_match(BLANK_LAST_LINE@, h) == Some(last_line_blank(h)),
        fixed_is_match(URL_SCHEME@, h) == Some(has_scheme(h)),
        fixed_is_match(URL_UNSAFE@, h) == Some(has_url_unsafe(h)),
        fixed_is_match(NOT_SPACE_OR_EOL@, h) == Some(has_not_space_or_eol(h)),
        fixed_is_match(EDGE_START@, h) == Some(starts_with_edge(h)),
        fixed_is_match(EDGE_END@, h) == Some(ends_with_edge(h)),
{
    reveal_strlit("[\\x00-\\x20\\x7F]");
    reveal_strlit("[|\\\\{}\\(\\)\\[\\]\\^$+*?.\\-]");
    reveal_strlit("[!-/:-@\\[-`\\{-~]");
    reveal_strlit("^[\\t ]*(?:[\\r\\n]|$)");
    reveal_strlit("(?:^|[\\r\\n])[\\t ]*$");
    reveal_strlit("(?i)^[a-z][a-z+.-]+:");
    reveal_strlit("[\\x00-\\x20<>\\x7F]");
    reveal_strlit("[^ \\r\\n]");
    reveal_strlit("^[ \\r\\n`]");
    reveal_strlit("[ \\r\\n`]$");
    assert(CONTROL_OR_SPACE@.len() == 15 && CONTROL_OR_SPACE@[0] == '[');
    assert(REGEX_METACHAR@.len() == 24 && REGEX_METACHAR@[0] == '[');
    assert(ASCII_PUNCT@.len() == 16 && ASCII_PUNCT@[0] == '[');
    assert(BLANK_FIRST_LINE@.len() == 19 && BLANK_FIRST_LINE@[0] == '^');
    assert(BLANK_LAST_LINE@.len() == 19 && BLANK_LAST_LINE@[0] == '(');
    assert(URL_SCHEME@.len() == 20 && URL_SCHEME@[0] == '(');
    assert(URL_UNSAFE@.len() == 17 && URL_UNSAFE@[0] == '[');
    assert(NOT_SPACE_OR_EOL@.len() == 8 && NOT_SPACE_OR_EOL@[0] == '[');
    assert(EDGE_START@.len() == 9 && EDGE_START@[0] == '^');
    assert(EDGE_END@.len() == 9 && EDGE_END@[0] == '[');
}

/// Whether `pattern` compiles and matches somewhere in `haystack`.
pub fn regex_is_match(pattern: &str, haystack: &str) -> (r: bool)
    ensures
        r == regex_is_match_spec(pattern@, haystack@),
        pattern@ == CONTROL_OR_SPACE@ ==> r == has_control_or_space(haystack@),
        pattern@ == REGEX_METACHAR@ ==> r == has_regex_metachar(haystack@),
        pattern@ == ASCII_PUNCT@ ==> r == has_ascii_punct(haystack@),
        pattern@ == BLANK_FIRST_LINE@ ==> r == first_line_blank(haystack@),
        pattern@ == BLANK_LAST_LINE@ ==> r == last_line_blank(haystack@),
        pattern@ == URL_SCHEME@ ==> r == has_scheme(haystack@),
        pattern@ == URL_UNSAFE@ ==> r == has_url_unsafe(haystack@),
        pattern@ == NOT_SPACE_OR_EOL@ ==> r == has_not_space_or_eol(haystack@),
        pattern@ == EDGE_START@ ==> r == starts_with_edge(haystack@),
        pattern@ == EDGE_END@ ==> r == ends_with_edge(haystack@),
{
    proof {
        lemma_fixed_is_match(haystack@);
    }
    match regex_find_all(pattern, haystack) {
        Some(v) => v.len() > 0,
        None => false,
    }
}

/// The first match of `pattern` in `haystack`, if the pattern compiles and matches.
pub open spec fn regex_first_match_spec(pattern: Seq<char>, haystack: Seq<char>) -> Option<(usize, usize)> {
    match regex_match_spans(pattern, haystack) {
        Some(v) => if v.len() > 0 { Some(v[0]) } else { None },
        None => None,
    }
}

/// The first match of `pattern` in `haystack`, as (start, end) in characters.
pub fn regex_find(pattern: &str, haystack: &str) -> (r: Option<(usize, usize)>)
    ensures
        r == regex_first_match_spec(pattern@, haystack@),
        r matches Some(m) ==> m.0 <= m.1 <= haystack@.len(),
        pattern@ == TASK_BULLET@ && plain_start(haystack@) ==> r == match task_bullet_end(haystack@) {
            Some(e) => Some((0usize, e as usize)),
            None => None,
        },
{
    match regex_find_all(pattern, haystack) {
        Some(v) => if v.len() > 0 {
            let m = v[0];
            assert(v@[0] == m && v@[0].0 <= v@[0].1 <= haystack@.len());
            Some(m)
        } else {
            None
        },
        None => None,
    }
}

}
