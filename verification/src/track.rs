//! Position tracking for generated markdown.

use vstd::prelude::*;
use vstd::string::*;
use vstd::utf8::encode_utf8;
use vstd::wrapping::usize_specs::wrapping_add;
use crate::text::{chars_of, substring};
use crate::types::TrackFields;

verus! {

/// Whether `c` ends a line.
pub open spec fn is_eol(c: char) -> bool {
    c == '\r' || c == '\n'
}

/// The index of the first line ending in `s`, if any.
pub open spec fn first_eol(s: Seq<char>) -> Option<int>
    decreases s.len(),
{
    if s.len() == 0 {
        None
    } else if is_eol(s[0]) {
        Some(0)
    } else {
        match first_eol(s.drop_first()) {
            Some(i) => Some(i + 1),
            None => None,
        }
    }
}

/// The width of the line ending starting at `i` (`\r\n` counts as one ending).
pub open spec fn eol_width(s: Seq<char>, i: int) -> int {
    if s[i] == '\r' && i + 1 < s.len() && s[i + 1] == '\n' {
        2
    } else {
        1
    }
}

/// The lines of `s`, split at `\r\n`, `\r` and `\n`.
pub open spec fn split_lines_spec(s: Seq<char>) -> Seq<Seq<char>>
    decreases s.len(),
{
    match first_eol(s) {
        None => seq![s],
        Some(i) => if 0 <= i < s.len() {
            seq![s.subrange(0, i)] + split_lines_spec(s.subrange(i + eol_width(s, i), s.len() as int))
        } else {
            seq![s]
        },
    }
}

proof fn lemma_first_eol(s: Seq<char>)
    ensures
        match first_eol(s) {
            Some(i) => 0 <= i < s.len() && is_eol(s[i]) && forall|j: int| 0 <= j < i ==> !is_eol(s[j]),
            None => forall|j: int| 0 <= j < s.len() ==> !is_eol(s[j]),
        },
    decreases s.len(),
{
    if s.len() > 0 {
        lemma_first_eol(s.drop_first());
        if !is_eol(s[0]) {
            match first_eol(s.drop_first()) {
                Some(i) => {
                    assert forall|j: int| 0 <= j < i + 1 implies !is_eol(s[j]) by {
                        if j > 0 {
                            assert(s[j] == s.drop_first()[j - 1]);
                        }
                    }
                },
                None => {
                    assert forall|j: int| 0 <= j < s.len() implies !is_eol(s[j]) by {
                        if j > 0 {
                            assert(s[j] == s.drop_first()[j - 1]);
                        }
                    }
                },
            }
        }
    }
}

/// The first line ending is the first character that ends a line.
proof fn lemma_first_eol_at(s: Seq<char>, i: int)
    requires
        0 <= i < s.len(),
        is_eol(s[i]),
        forall|j: int| 0 <= j < i ==> !is_eol(s[j]),
    ensures
        first_eol(s) == Some(i),
    decreases s.len(),
{
    if i > 0 {
        assert forall|j: int| 0 <= j < i - 1 implies !is_eol(s.drop_first()[j]) by {
            assert(s.drop_first()[j] == s[j + 1]);
        }
        lemma_first_eol_at(s.drop_first(), i - 1);
    }
}

/// No line ending anywhere means no first line ending.
proof fn lemma_no_eol(s: Seq<char>)
    requires
        forall|j: int| 0 <= j < s.len() ==> !is_eol(s[j]),
    ensures
        first_eol(s) is None,
    decreases s.len(),
{
    if s.len() > 0 {
        assert forall|j: int| 0 <= j < s.len() - 1 implies !is_eol(s.drop_first()[j]) by {
            assert(s.drop_first()[j] == s[j + 1]);
        }
        lemma_no_eol(s.drop_first());
    }
}

/// There is always at least one line.
pub proof fn lemma_split_lines_nonempty(s: Seq<char>)
    ensures
        split_lines_spec(s).len() >= 1,
    decreases s.len(),
{
    match first_eol(s) {
        None => {},
        Some(i) => if 0 <= i < s.len() {
            lemma_split_lines_nonempty(s.subrange(i + eol_width(s, i), s.len() as int));
        },
    }
}

/// Split a string at its line endings (`\r\n`, `\r` or `\n`).
pub fn split_lines(value: &str) -> (r: Vec<String>)
    ensures
        r@.len() == split_lines_spec(value@).len(),
        forall|k: int| 0 <= k < r@.len() ==> #[trigger] r@[k]@ == split_lines_spec(value@)[k],
{
    let v = chars_of(value);
    let len = v.len();
    let mut result: Vec<String> = Vec::new();
    let mut start: usize = 0;
    let mut i: usize = 0;
    assert(v@.subrange(0, len as int) =~= v@);
    assert(result@.map_values(|x: String| x@) =~= Seq::<Seq<char>>::empty());
    while i < len
        invariant
            v@ == value@,
            len == v@.len(),
            start <= i <= len,
            forall|j: int| start <= j < i ==> !is_eol(v@[j]),
            split_lines_spec(value@) == result@.map_values(|x: String| x@) + split_lines_spec(
                v@.subrange(start as int, len as int),
            ),
        decreases len - i,
    {
        if v[i] == '\r' || v[i] == '\n' {
            let ghost rest = v@.subrange(start as int, len as int);
            proof {
                assert forall|j: int| 0 <= j < i - start implies !is_eol(rest[j]) by {
                    assert(rest[j] == v@[start + j]);
                }
                lemma_first_eol_at(rest, i - start);
            }
            let line = substring(value, start, i);
            let w: usize = if v[i] == '\r' && i + 1 < len && v[i + 1] == '\n' { 2 } else { 1 };
            proof {
                assert(eol_width(rest, i - start) == w);
                assert(rest.subrange(0, i - start) =~= v@.subrange(start as int, i as int));
                assert(rest.subrange(i - start + w, rest.len() as int) =~= v@.subrange(
                    i + w,
                    len as int,
                ));
            }
            let ghost old_result = result@;
            result.push(line);
            proof {
                assert(result@.map_values(|x: String| x@) =~= old_result.map_values(|x: String| x@)
                    + seq![v@.subrange(start as int, i as int)]);
            }
            i = i + w;
            start = i;
        } else {
            i += 1;
        }
    }
    let ghost rest = v@.subrange(start as int, len as int);
    proof {
        assert forall|j: int| 0 <= j < rest.len() implies !is_eol(rest[j]) by {
            assert(rest[j] == v@[start + j]);
        }
        lemma_no_eol(rest);
    }
    let last = substring(value, start, len);
    let ghost old_result = result@;
    result.push(last);
    proof {
        assert(result@.map_values(|x: String| x@) =~= old_result.map_values(|x: String| x@)
            + seq![rest]);
        assert forall|k: int| 0 <= k < result@.len() implies #[trigger] result@[k]@
            == split_lines_spec(value@)[k] by {
            assert(result@.map_values(|x: String| x@)[k] == result@[k]@);
        }
    }
    result
}

/// Position tracker for generated markdown output.
///
/// Tracks the current line, column, and line shift (indent) as markdown
/// content is generated. Columns count bytes; counters wrap at the integer limit.
pub struct Tracker {
    pub line: usize,
    pub column: usize,
    pub line_shift: usize,
}

impl Tracker {
    /// Create a new tracker from tracking fields.
    pub fn new(fields: &TrackFields) -> (t: Self)
        ensures
            t.line == fields.line,
            t.column == fields.column,
            t.line_shift == fields.line_shift,
    {
        Self { line: fields.line, column: fields.column, line_shift: fields.line_shift }
    }

    /// Get the current tracked position info.
    pub fn current(&self) -> (r: TrackFields)
        ensures
            r.line == self.line,
            r.column == self.column,
            r.line_shift == self.line_shift,
    {
        TrackFields { line: self.line, column: self.column, line_shift: self.line_shift }
    }

    /// Define a relative increased line shift (the typical indent for lines).
    pub fn shift(&mut self, value: usize)
        ensures
            final(self).line == old(self).line,
            final(self).column == old(self).column,
            final(self).line_shift == wrapping_add(old(self).line_shift, value),
    {
        self.line_shift = self.line_shift.wrapping_add(value);
    }

    /// Move past some generated markdown; returns the input unchanged.
    ///
    /// The line grows by the number of line endings in `value`; the column is
    /// then the byte length of the text after the last line ending, plus the
    /// line shift when a line ending was passed.
    pub fn move_past(&mut self, value: &str) -> (r: String)
        ensures
            r@ == value@,
            ({
                let chunks = split_lines_spec(value@);
                let tail_len = encode_utf8(chunks.last()).len() as usize;
                &&& final(self).line == wrapping_add(old(self).line, (chunks.len() - 1) as usize)
                &&& final(self).line_shift == old(self).line_shift
                &&& final(self).column == if chunks.len() == 1 {
                    wrapping_add(old(self).column, tail_len)
                } else {
                    wrapping_add(wrapping_add(1, tail_len), old(self).line_shift)
                }
            }),
    {
        let chunks = split_lines(value);
        proof {
            lemma_split_lines_nonempty(value@);
        }
        let n = chunks.len();
        let tail_len = chunks[n - 1].as_str().len();
        self.line = self.line.wrapping_add(n - 1);
        self.column = if n == 1 {
            self.column.wrapping_add(tail_len)
        } else {
            1usize.wrapping_add(tail_len).wrapping_add(self.line_shift)
        };
        crate::text::owned(value)
    }
}

}
