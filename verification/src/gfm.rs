//! GFM (GitHub Flavored Markdown) extensions: tables, strikethrough and task
//! list items.

use vstd::prelude::*;
use crate::handle::inline_code::handle_inline_code;
use crate::handle::list_item::handle_list_item;
use crate::mdast::Node;
use crate::regex_ext::{regex_find, regex_first_match_spec};
use crate::output::{cfg_of, ctx_of, opt_node, ser_with, wrote};
use crate::state::{preserved, serializable, State};
use crate::text::{chars_of, owned, push_char, push_str, substring};
use crate::types::{ConstructName, Extension, HandlerFn, HandlerMap, Info, PeekFn, PeekMap, Registry};
use crate::unsafe_patterns::{make_pattern, pattern_is};

verus! {

/// Options for the GFM table extension.
#[derive(Debug, Clone, Copy, PartialEq, Eq)]
pub struct GfmTableOptions {
    /// Whether to add a space of padding between delimiters and cells.
    pub table_cell_padding: bool,
    /// Whether to align the delimiters.
    pub table_pipe_align: bool,
}

impl Default for GfmTableOptions {
    fn default() -> (o: Self)
        ensures
            o.table_cell_padding,
            o.table_pipe_align,
    {
        Self { table_cell_padding: true, table_pipe_align: true }
    }
}

/// The registrations of the table extension.
pub open spec fn gfm_table_entries() -> Seq<(Seq<char>, HandlerFn)> {
    seq![
        ("inlineCode"@, HandlerFn::InlineCodeWithTable),
        ("table"@, HandlerFn::Table),
        ("tableCell"@, HandlerFn::TableCell),
        ("tableRow"@, HandlerFn::TableRow),
    ]
}

/// The registrations of the strikethrough extension.
pub open spec fn gfm_strikethrough_entries() -> Seq<(Seq<char>, HandlerFn)> {
    seq![("delete"@, HandlerFn::Delete)]
}

/// The registrations of the task list item extension.
pub open spec fn gfm_task_entries() -> Seq<(Seq<char>, HandlerFn)> {
    seq![("listItem"@, HandlerFn::ListItemWithTask)]
}

/// The patterns of the table extension.
pub open spec fn gfm_table_patterns_spec(ps: Seq<crate::types::UnsafePattern>) -> bool {
    &&& ps.len() == 6
    &&& pattern_is(ps[0], '\r', None, None, false, seq![ConstructName::TableCell], seq![])
    &&& pattern_is(ps[1], '\n', None, None, false, seq![ConstructName::TableCell], seq![])
    &&& pattern_is(ps[2], '|', None, Some("[\\t :-]"@), true, seq![], seq![])
    &&& pattern_is(ps[3], '|', None, None, false, seq![ConstructName::TableCell], seq![])
    &&& pattern_is(ps[4], ':', None, Some("-"@), true, seq![], seq![])
    &&& pattern_is(ps[5], '-', None, Some("[:|-]"@), true, seq![], seq![])
}

/// The pattern of the strikethrough extension.
pub open spec fn gfm_strike_pattern_spec(p: crate::types::UnsafePattern) -> bool {
    pattern_is(p, '~', None, None, false, seq![ConstructName::Phrasing], constructs_without_strikethrough())
}

/// The pattern of the task list item extension.
pub open spec fn gfm_task_pattern_spec(p: crate::types::UnsafePattern) -> bool {
    pattern_is(p, '-', None, Some("[:|-]"@), true, seq![], seq![])
}

/// The patterns the GFM extensions add, in order: those of the table,
/// strikethrough and task list item extensions.
pub open spec fn gfm_patterns_spec(ps: Seq<crate::types::UnsafePattern>) -> bool {
    &&& ps.len() == 8
    &&& gfm_table_patterns_spec(ps.take(6))
    &&& gfm_strike_pattern_spec(ps[6])
    &&& gfm_task_pattern_spec(ps[7])
}

/// Create the GFM table extension.
pub fn gfm_table(_options: GfmTableOptions) -> (r: Extension)
    ensures
        r.handlers@ =~= gfm_table_entries(),
        gfm_table_patterns_spec(r.unsafe_patterns@),
        r.join@.len() == 0,
{
    let mut handlers: HandlerMap = Registry::new();
    handlers.insert(owned("inlineCode"), HandlerFn::InlineCodeWithTable);
    handlers.insert(owned("table"), HandlerFn::Table);
    handlers.insert(owned("tableCell"), HandlerFn::TableCell);
    handlers.insert(owned("tableRow"), HandlerFn::TableRow);
    let mut unsafe_patterns = Vec::new();
    unsafe_patterns.push(make_pattern('\r', None, None, false, vec![ConstructName::TableCell], vec![]));
    unsafe_patterns.push(make_pattern('\n', None, None, false, vec![ConstructName::TableCell], vec![]));
    unsafe_patterns.push(make_pattern('|', None, Some("[\\t :-]"), true, vec![], vec![]));
    unsafe_patterns.push(make_pattern('|', None, None, false, vec![ConstructName::TableCell], vec![]));
    unsafe_patterns.push(make_pattern(':', None, Some("-"), true, vec![], vec![]));
    unsafe_patterns.push(make_pattern('-', None, Some("[:|-]"), true, vec![], vec![]));
    Extension { handlers, unsafe_patterns, join: Vec::new() }
}

/// The constructs in which a tilde does not start strikethrough.
pub open spec fn constructs_without_strikethrough() -> Seq<ConstructName> {
    seq![
        ConstructName::Autolink,
        ConstructName::DestinationLiteral,
        ConstructName::DestinationRaw,
        ConstructName::Reference,
        ConstructName::TitleQuote,
        ConstructName::TitleApostrophe,
    ]
}

/// Create the GFM strikethrough extension.
pub fn gfm_strikethrough() -> (r: Extension)
    ensures
        r.handlers@ =~= gfm_strikethrough_entries(),
        r.unsafe_patterns@.len() == 1,
        pattern_is(
            r.unsafe_patterns@[0],
            '~',
            None,
            None,
            false,
            seq![ConstructName::Phrasing],
            constructs_without_strikethrough(),
        ),
        r.join@.len() == 0,
{
    let constructs = vec![
        ConstructName::Autolink,
        ConstructName::DestinationLiteral,
        ConstructName::DestinationRaw,
        ConstructName::Reference,
        ConstructName::TitleQuote,
        ConstructName::TitleApostrophe,
    ];
    let mut handlers: HandlerMap = Registry::new();
    handlers.insert(owned("delete"), HandlerFn::Delete);
    let mut unsafe_patterns = Vec::new();
    unsafe_patterns.push(make_pattern('~', None, None, false, vec![ConstructName::Phrasing], constructs));
    Extension { handlers, unsafe_patterns, join: Vec::new() }
}

/// Create the GFM task list item extension.
pub fn gfm_task_list_item() -> (r: Extension)
    ensures
        r.handlers@ =~= gfm_task_entries(),
        r.unsafe_patterns@.len() == 1,
        pattern_is(r.unsafe_patterns@[0], '-', None, Some("[:|-]"@), true, seq![], seq![]),
        r.join@.len() == 0,
{
    let mut handlers: HandlerMap = Registry::new();
    handlers.insert(owned("listItem"), HandlerFn::ListItemWithTask);
    let mut unsafe_patterns = Vec::new();
    unsafe_patterns.push(make_pattern('-', None, Some("[:|-]"), true, vec![], vec![]));
    Extension { handlers, unsafe_patterns, join: Vec::new() }
}

/// Get all GFM extensions: tables, strikethrough, task list items.
pub fn gfm() -> (r: Vec<Extension>)
    ensures
        r@.len() == 3,
        r@[0].handlers@ =~= gfm_table_entries(),
        gfm_table_patterns_spec(r@[0].unsafe_patterns@),
        r@[1].handlers@ =~= gfm_strikethrough_entries(),
        r@[1].unsafe_patterns@.len() == 1,
        gfm_strike_pattern_spec(r@[1].unsafe_patterns@[0]),
        r@[2].handlers@ =~= gfm_task_entries(),
        r@[2].unsafe_patterns@.len() == 1,
        gfm_task_pattern_spec(r@[2].unsafe_patterns@[0]),
        forall|i: int| 0 <= i < 3 ==> (#[trigger] r@[i]).join@.len() == 0,
{
    let mut v = Vec::new();
    v.push(gfm_table(GfmTableOptions { table_cell_padding: true, table_pipe_align: true }));
    v.push(gfm_strikethrough());
    v.push(gfm_task_list_item());
    v
}

/// Get GFM peek handlers (for delete).
pub fn gfm_peek_handlers() -> (r: PeekMap)
    ensures
        r@ =~= seq![("delete"@, PeekFn::Delete)],
{
    let mut peek_handlers: PeekMap = Registry::new();
    peek_handlers.insert(owned("delete"), PeekFn::Delete);
    peek_handlers
}

/// `v` with each `|` escaped with a backslash.
pub open spec fn escape_pipes_spec(v: Seq<char>) -> Seq<char>
    decreases v.len(),
{
    if v.len() == 0 {
        Seq::empty()
    } else {
        escape_pipes_spec(v.drop_last()) + if v.last() == '|' {
            seq!['\\', '|']
        } else {
            seq![v.last()]
        }
    }
}

fn escape_pipes(value: &str) -> (r: String)
    ensures
        r@ == escape_pipes_spec(value@),
{
    let v = chars_of(value);
    let mut s = String::new();
    let mut i: usize = 0;
    while i < v.len()
        invariant
            i <= v.len(),
            v@ == value@,
            s@ == escape_pipes_spec(v@.take(i as int)),
        decreases v.len() - i,
    {
        if v[i] == '|' {
            push_char(&mut s, '\\');
            push_char(&mut s, '|');
        } else {
            push_char(&mut s, v[i]);
        }
        proof {
            assert(v@.take(i + 1).drop_last() =~= v@.take(i as int));
        }
        i += 1;
    }
    proof {
        assert(v@.take(v@.len() as int) =~= v@);
    }
    s
}

/// Inline code handler that escapes pipes when in a table cell.
pub fn inline_code_with_table(node: &Node, parent: Option<&Node>, state: &mut State, info: &Info) -> (r: String)
    ensures
        wrote(
            *final(state),
            r@,
            ser_with(
                cfg_of(*old(state)),
                ctx_of(*old(state)),
                HandlerFn::InlineCodeWithTable,
                *node,
                opt_node(parent),
                info.before@,
                info.after@,
            ),
        ),
        preserved(*old(state), *final(state)),
        r@ == if crate::pattern::stack_has(old(state).stack@, ConstructName::TableCell) {
            escape_pipes_spec(match *node {
                Node::InlineCode(c) => crate::handle::inline_code::inline_code_spec(
                    c.value@,
                    old(state).unsafe_patterns@,
                    old(state).stack@,
                ),
                _ => Seq::empty(),
            })
        } else {
            match *node {
                Node::InlineCode(c) => crate::handle::inline_code::inline_code_spec(
                    c.value@,
                    old(state).unsafe_patterns@,
                    old(state).stack@,
                ),
                _ => Seq::empty(),
            }
        },
{
    let value = handle_inline_code(node, parent, state, info);
    if crate::pattern::stack_contains(state.stack.as_slice(), &ConstructName::TableCell) {
        escape_pipes(value.as_str())
    } else {
        value
    }
}

/// The expression for a list item's bullet and the space after it.
pub const TASK_BULLET: &'static str = "^(?:[*+\\-]|\\d+\\.)([\\r\\n]| {1,3})";

/// An ASCII digit.
pub open spec fn is_ascii_digit(c: char) -> bool {
    '0' <= c && c <= '9'
}

/// Where the run of ASCII digits of `s` that starts at `i` ends.
pub open spec fn digit_run_end(s: Seq<char>, i: int) -> int
    decreases s.len() - i,
{
    if 0 <= i < s.len() && is_ascii_digit(s[i]) {
        digit_run_end(s, i + 1)
    } else {
        i
    }
}

/// Text whose start holds no character outside ASCII that `\d` could take for
/// a decimal digit: it starts with an ASCII character, and after a leading run
/// of ASCII digits comes an ASCII character or the end.
pub open spec fn plain_start(s: Seq<char>) -> bool {
    s.len() == 0 || (s[0] <= '\u{7f}' && (is_ascii_digit(s[0]) ==> (digit_run_end(s, 0) == s.len() || s[digit_run_end(
        s,
        0,
    )] <= '\u{7f}')))
}

/// Where a bullet at the start of `s` ends: after `*`, `+` or `-`, or after
/// ASCII digits and a `.`.
pub open spec fn bullet_end(s: Seq<char>) -> Option<int> {
    if s.len() > 0 && (s[0] == '*' || s[0] == '+' || s[0] == '-') {
        Some(1)
    } else if 0 < digit_run_end(s, 0) < s.len() && s[digit_run_end(s, 0)] == '.' {
        Some(digit_run_end(s, 0) + 1)
    } else {
        None
    }
}

/// How many spaces, at most `max`, follow one another in `s` from `i` on.
pub open spec fn spaces_from(s: Seq<char>, i: int, max: nat) -> nat
    decreases max,
{
    if max > 0 && 0 <= i < s.len() && s[i] == ' ' {
        1 + spaces_from(s, i + 1, (max - 1) as nat)
    } else {
        0
    }
}

/// A run of digits ends inside the text.
proof fn lemma_digit_run_end(s: Seq<char>, i: int)
    requires
        0 <= i <= s.len(),
    ensures
        i <= digit_run_end(s, i) <= s.len(),
    decreases s.len() - i,
{
    if i < s.len() && is_ascii_digit(s[i]) {
        lemma_digit_run_end(s, i + 1);
    }
}

/// A run of spaces ends inside the text.
proof fn lemma_spaces_from(s: Seq<char>, i: int, max: nat)
    requires
        0 <= i,
    ensures
        spaces_from(s, i, max) > 0 ==> i + spaces_from(s, i, max) <= s.len(),
    decreases max,
{
    if max > 0 && 0 <= i < s.len() && s[i] == ' ' {
        lemma_spaces_from(s, i + 1, (max - 1) as nat);
    }
}

/// A bullet match ends inside the text.
proof fn lemma_task_bullet_end(s: Seq<char>)
    ensures
        task_bullet_end(s) matches Some(e) ==> 0 <= e <= s.len(),
{
    lemma_digit_run_end(s, 0);
    if let Some(b) = bullet_end(s) {
        lemma_spaces_from(s, b, 3);
    }
}

/// Where `TASK_BULLET` matches text with a plain start: a bullet at the start,
/// then one line ending, or else as many spaces as follow up to three (at
/// least one); `None` where it does not match.
pub open spec fn task_bullet_end(s: Seq<char>) -> Option<int> {
    match bullet_end(s) {
        Some(b) => if b < s.len() && (s[b] == '\r' || s[b] == '\n') {
            Some(b + 1)
        } else if spaces_from(s, b, 3) > 0 {
            Some(b + spaces_from(s, b, 3))
        } else {
            None
        },
        None => None,
    }
}

/// Where the bullet that `TASK_BULLET` finds in `v` ends, with the space
/// after it.
pub open spec fn checkbox_at(v: Seq<char>) -> Option<int> {
    if plain_start(v) {
        task_bullet_end(v)
    } else {
        match regex_first_match_spec(TASK_BULLET@, v) {
            Some(m) => Some(m.1 as int),
            None => None,
        }
    }
}

/// `v` with `checkbox` inserted after the bullet (when the bullet is found).
pub open spec fn with_checkbox(v: Seq<char>, checkbox: Seq<char>) -> Seq<char> {
    match checkbox_at(v) {
        Some(e) => v.subrange(0, e) + checkbox + v.subrange(e, v.len() as int),
        None => v,
    }
}

/// The checkbox of an item.
pub open spec fn checkbox_spec(item: crate::mdast::ListItem) -> Seq<char> {
    if item.checked == Some(true) {
        "[x] "@
    } else {
        "[ ] "@
    }
}

/// An item can show a checkbox: it is checked or not and starts with a paragraph.
pub open spec fn checkable_spec(item: crate::mdast::ListItem) -> bool {
    item.checked is Some && item.children@.len() > 0 && item.children@[0] is Paragraph
}

/// List item handler with task list support: the item as the plain handler
/// writes it, with `[x] ` or `[ ] ` after the bullet when it can show a checkbox.
pub fn list_item_with_task(node: &Node, parent: Option<&Node>, state: &mut State, info: &Info) -> (r: String)
    requires
        serializable(*old(state), *node, HandlerFn::ListItemWithTask),
    ensures
        wrote(
            *final(state),
            r@,
            ser_with(
                cfg_of(*old(state)),
                ctx_of(*old(state)),
                HandlerFn::ListItemWithTask,
                *node,
                opt_node(parent),
                info.before@,
                info.after@,
            ),
        ),
        preserved(*old(state), *final(state)),
    decreases node, 8int,
{
    match node {
        Node::ListItem(list_item) => {
            let checkable = list_item.checked.is_some() && list_item.children.len() > 0 && match &list_item.children[0] {
                Node::Paragraph(_) => true,
                _ => false,
            };
            let checkbox = if checkable {
                if list_item.checked == Some(true) {
                    "[x] "
                } else {
                    "[ ] "
                }
            } else {
                ""
            };
            let mut tracker = state.create_tracker(info);
            if checkable {
                let _ = tracker.move_past(checkbox);
            }
            let cur = tracker.current();
            let adjusted_info = Info {
                line: cur.line,
                column: cur.column,
                line_shift: cur.line_shift,
                before: owned(info.before.as_str()),
                after: owned(info.after.as_str()),
            };
            let value = handle_list_item(node, parent, state, &adjusted_info);
            proof {
                if checkable {
                    assert(checkbox@ == checkbox_spec(*list_item));
                }
            }
            if checkable {
                match regex_find(TASK_BULLET, value.as_str()) {
                    Some(m) => {
                        let n = value.as_str().unicode_len();
                        proof {
                            lemma_task_bullet_end(value@);
                        }
                        let mut out = substring(value.as_str(), 0, m.1);
                        push_str(&mut out, checkbox);
                        let rest = substring(value.as_str(), m.1, n);
                        push_str(&mut out, rest.as_str());
                        proof {
                            assert(out@ =~= with_checkbox(value@, checkbox_spec(*list_item)));
                        }
                        return out;
                    },
                    None => {
                        proof {
                            assert(value@ == with_checkbox(value@, checkbox_spec(*list_item)));
                        }
                    },
                }
            }
            value
        },
        _ => handle_list_item(node, parent, state, info),
    }
}

}
