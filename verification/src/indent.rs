//! Padding serialized markdown line by line.

use vstd::prelude::*;
use crate::regex_ext::regex_find_all;
use crate::text::{owned, push_str, repeat_char, repeat_spec, substring};

verus! {

/// The expression that matches one line ending.
pub const EOL_PATTERN: &'static str = "\\r?\\n|\\r";

/// How each line is padded.
pub enum IndentMap {
    /// Non-blank lines get `prefix` in front; blank lines stay empty.
    Prefix(String),
    /// Every line gets `>`, non-blank lines `> `.
    Blockquote,
    /// The first line gets the bullet padded to `size` columns, later non-blank
    /// lines `size` spaces; blank later lines stay empty.
    ListItem { bullet: String, size: usize },
}

/// The mathematical form of a line map.
pub enum LineMap {
    Prefix(Seq<char>),
    Blockquote,
    ListItem { bullet: Seq<char>, size: nat },
}

impl View for IndentMap {
    type V = LineMap;

    open spec fn view(&self) -> LineMap {
        match *self {
            IndentMap::Prefix(p) => LineMap::Prefix(p@),
            IndentMap::Blockquote => LineMap::Blockquote,
            IndentMap::ListItem { bullet, size } => LineMap::ListItem { bullet: bullet@, size: size as nat },
        }
    }
}

/// What `map` makes of `line`, the `index`-th line.
pub open spec fn map_line_spec(map: LineMap, line: Seq<char>, index: int, blank: bool) -> Seq<char> {
    match map {
        LineMap::Prefix(p) => if blank { Seq::empty() } else { p + line },
        LineMap::Blockquote => if blank { ">"@ + line } else { "> "@ + line },
        LineMap::ListItem { bullet, size } => if index > 0 {
            if blank { Seq::empty() } else { repeat_spec(' ', size) + line }
        } else if blank {
            bullet + line
        } else {
            bullet + repeat_spec(' ', (size - bullet.len()) as nat) + line
        },
    }
}

/// A map is usable when a list item's bullet fits in its size.
pub open spec fn map_ok(map: LineMap) -> bool {
    match map {
        LineMap::ListItem { bullet, size } => bullet.len() <= size,
        _ => true,
    }
}

impl IndentMap {
    /// Apply the map to one line.
    pub fn apply(&self, line: &str, index: usize, blank: bool) -> (r: String)
        requires
            map_ok(self@),
        ensures
            r@ == map_line_spec(self@, line@, index as int, blank),
    {
        match self {
            IndentMap::Prefix(p) => {
                if blank {
                    String::new()
                } else {
                    let mut s = owned(p.as_str());
                    push_str(&mut s, line);
                    s
                }
            },
            IndentMap::Blockquote => {
                let mut s = owned(if blank { ">" } else { "> " });
                push_str(&mut s, line);
                proof {
                    reveal_strlit(">");
                    reveal_strlit("> ");
                }
                s
            },
            IndentMap::ListItem { bullet, size } => {
                if index > 0 {
                    if blank {
                        String::new()
                    } else {
                        let mut s = repeat_char(' ', *size);
                        push_str(&mut s, line);
                        s
                    }
                } else if blank {
                    let mut s = owned(bullet.as_str());
                    push_str(&mut s, line);
                    s
                } else {
                    let mut s = owned(bullet.as_str());
                    let pad = repeat_char(' ', *size - bullet.as_str().unicode_len());
                    push_str(&mut s, pad.as_str());
                    push_str(&mut s, line);
                    s
                }
            },
        }
    }
}

/// The line endings of `s` from index `from` on, left to right, each as
/// (start, end): `\r\n` as one line ending, else a lone `\r` or `\n`.
pub open spec fn eol_spans_from(s: Seq<char>, from: int) -> Seq<(usize, usize)>
    decreases s.len() - from,
{
    if from < 0 || from >= s.len() {
        Seq::empty()
    } else if s[from] == '\r' && from + 1 < s.len() && s[from + 1] == '\n' {
        seq![(from as usize, (from + 2) as usize)] + eol_spans_from(s, from + 2)
    } else if s[from] == '\r' || s[from] == '\n' {
        seq![(from as usize, (from + 1) as usize)] + eol_spans_from(s, from + 1)
    } else {
        eol_spans_from(s, from + 1)
    }
}

/// The line endings of `value`.
pub open spec fn eol_spans(value: Seq<char>) -> Seq<(usize, usize)> {
    eol_spans_from(value, 0)
}

/// The line endings from `from` on lie in order between `from` and the end.
proof fn lemma_eol_spans_from(s: Seq<char>, from: int)
    requires
        0 <= from,
        s.len() <= usize::MAX,
    ensures
        forall|k: int| 0 <= k < eol_spans_from(s, from).len() ==> from <= #[trigger] eol_spans_from(s, from)[k].0
            <= eol_spans_from(s, from)[k].1 <= s.len(),
        forall|k: int| 0 <= k < eol_spans_from(s, from).len() - 1 ==> #[trigger] eol_spans_from(s, from)[k].1
            <= eol_spans_from(s, from)[k + 1].0,
    decreases s.len() - from,
{
    if from < s.len() {
        let sp = eol_spans_from(s, from);
        if s[from] == '\r' && from + 1 < s.len() && s[from + 1] == '\n' {
            lemma_eol_spans_from(s, from + 2);
            let rest = eol_spans_from(s, from + 2);
            assert forall|k: int| 0 <= k < sp.len() - 1 implies #[trigger] sp[k].1 <= sp[k + 1].0 by {
                assert(sp[k + 1] == rest[k]);
                if k > 0 {
                    assert(sp[k] == rest[k - 1]);
                }
            }
            assert forall|k: int| 0 <= k < sp.len() implies from <= #[trigger] sp[k].0 <= sp[k].1 <= s.len() by {
                if k > 0 {
                    assert(sp[k] == rest[k - 1]);
                }
            }
        } else if s[from] == '\r' || s[from] == '\n' {
            lemma_eol_spans_from(s, from + 1);
            let rest = eol_spans_from(s, from + 1);
            assert forall|k: int| 0 <= k < sp.len() - 1 implies #[trigger] sp[k].1 <= sp[k + 1].0 by {
                assert(sp[k + 1] == rest[k]);
                if k > 0 {
                    assert(sp[k] == rest[k - 1]);
                }
            }
            assert forall|k: int| 0 <= k < sp.len() implies from <= #[trigger] sp[k].0 <= sp[k].1 <= s.len() by {
                if k > 0 {
                    assert(sp[k] == rest[k - 1]);
                }
            }
        } else {
            lemma_eol_spans_from(s, from + 1);
            let rest = eol_spans_from(s, from + 1);
            assert(sp == rest);
            assert forall|k: int| 0 <= k < sp.len() implies from <= #[trigger] sp[k].0 <= sp[k].1 <= s.len() by {
                assert(sp[k] == rest[k]);
            }
        }
    }
}

/// Where the line after the `k`-th line ending starts.
pub open spec fn line_start(spans: Seq<(usize, usize)>, k: int) -> int {
    if k <= 0 { 0 } else { spans[k - 1].1 as int }
}

/// The output for the lines before the `k`-th line ending, each mapped, with
/// the line endings kept.
pub open spec fn indent_prefix(value: Seq<char>, spans: Seq<(usize, usize)>, map: LineMap, k: int) -> Seq<char>
    decreases k,
{
    if k <= 0 {
        Seq::empty()
    } else {
        let line = value.subrange(line_start(spans, k - 1), spans[k - 1].0 as int);
        indent_prefix(value, spans, map, k - 1) + map_line_spec(map, line, k - 1, line.len() == 0)
            + value.subrange(spans[k - 1].0 as int, spans[k - 1].1 as int)
    }
}

/// `value` with every line (split at line endings) replaced by what `map` makes
/// of it, the line endings kept.
pub open spec fn indent_lines_spec(value: Seq<char>, map: LineMap) -> Seq<char> {
    let spans = eol_spans(value);
    let n = spans.len() as int;
    let last = value.subrange(line_start(spans, n), value.len() as int);
    indent_prefix(value, spans, map, n) + map_line_spec(map, last, n, last.len() == 0)
}

/// Pad serialized markdown by applying a map function to each line.
pub fn indent_lines(value: &str, map: &IndentMap) -> (r: String)
    requires
        map_ok(map@),
    ensures
        r@ == indent_lines_spec(value@, map@),
{
    let total = value.unicode_len();
    let spans = match regex_find_all(EOL_PATTERN, value) {
        Some(v) => v,
        None => Vec::new(),
    };
    let ghost sp = eol_spans(value@);
    proof {
        lemma_eol_spans_from(value@, 0);
    }
    assert(spans@ == sp);
    let mut result = String::new();
    let mut start: usize = 0;
    let mut line: usize = 0;
    while line < spans.len()
        invariant
            spans@ == sp,
            sp == eol_spans(value@),
            map_ok(map@),
            forall|k: int| 0 <= k < sp.len() ==> #[trigger] sp[k].0 <= sp[k].1 <= value@.len(),
            forall|k: int| 0 <= k < sp.len() - 1 ==> #[trigger] sp[k].1 <= sp[k + 1].0,
            line <= spans.len(),
            start == line_start(sp, line as int),
            start <= value@.len(),
            result@ == indent_prefix(value@, sp, map@, line as int),
        decreases spans.len() - line,
    {
        let m = spans[line];
        proof {
            if line > 0 {
                assert(sp[line - 1].1 <= sp[line as int].0);
            }
        }
        let fragment = substring(value, start, m.0);
        let mapped = map.apply(fragment.as_str(), line, fragment.as_str().unicode_len() == 0);
        push_str(&mut result, mapped.as_str());
        let eol = substring(value, m.0, m.1);
        push_str(&mut result, eol.as_str());
        start = m.1;
        line += 1;
    }
    let fragment = substring(value, start, total);
    let mapped = map.apply(fragment.as_str(), line, fragment.as_str().unicode_len() == 0);
    push_str(&mut result, mapped.as_str());
    result
}

}
