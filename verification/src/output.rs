//! What serialization writes: the text each handler produces for a node, and
//! what it leaves behind for the nodes after it (the list marker last used,
//! and how to encode the characters around the attention just written).

use vstd::prelude::*;
use crate::container_flow::{between_spec, flow_children};
use crate::container_phrasing::{phrasing_children, replace_trailing_eol_spec};
use crate::format::{encode_info_spec, heading_setext_spec, is_phrasing_spec, link_autolink_spec};
use crate::gfm::{checkable_spec, checkbox_spec, escape_pipes_spec, with_checkbox};
use crate::handle::break_::break_spec;
use crate::handle::code::code_spec;
use crate::handle::definition::definition_spec;
use crate::handle::heading::{atx_spec, heading_rank, setext_spec};
use crate::handle::image::{destination_part, has_control_or_space, image_spec, title_part};
use crate::handle::image_reference::image_reference_spec;
use crate::handle::inline_code::inline_code_spec;
use crate::handle::list::list_marker_spec;
use crate::handle::list_item::{item_bullet_spec, item_size_spec};
use crate::handle::peek_spec;
use crate::handle::table::{first_line, table_spec};
use crate::handle::thematic_break::thematic_break_spec;
use crate::indent::{indent_lines_spec, LineMap};
use crate::mdast::{lemma_children_decrease, node_children, Node, ReferenceKind};
use crate::pattern::stack_has;
use crate::safe::{char_ref_spec, safe_spec};
use crate::state::{association_spec, node_type_spec, State};
use crate::types::{lookup_in, ConstructName, EncodeSurrounding, HandlerFn, JoinFn, Options, PeekFn, UnsafePattern};

verus! {

/// The parts of the serializer's state that change as it goes: the
/// constructs it is inside of, the positions of the nodes it is inside of,
/// the list marker in use, the list marker last used, and how to encode
/// around the attention last written.
pub struct Ctx {
    pub stack: Seq<ConstructName>,
    pub index: Seq<usize>,
    pub current: Option<Seq<char>>,
    pub last_used: Option<Seq<char>>,
    pub attention: Option<EncodeSurrounding>,
}

/// The parts of the serializer's state that stay as they are: what is
/// registered and the options.
pub struct Cfg {
    pub handlers: Seq<(Seq<char>, HandlerFn)>,
    pub peek_handlers: Seq<(Seq<char>, PeekFn)>,
    pub unsafe_patterns: Seq<UnsafePattern>,
    pub join: Seq<JoinFn>,
    pub options: Options,
}

/// What is registered in a state, and its options.
pub open spec fn cfg_of(s: State) -> Cfg {
    Cfg {
        handlers: s.handlers@,
        peek_handlers: s.peek_handlers@,
        unsafe_patterns: s.unsafe_patterns@,
        join: s.join@,
        options: s.options,
    }
}

/// What serializing a node leaves behind for the nodes after it.
pub struct Trail {
    pub last_used: Option<Seq<char>>,
    pub attention: Option<EncodeSurrounding>,
}

/// A handler that ran until state `b` wrote `r`, and left behind what `out` says.
pub open spec fn wrote(b: State, r: Seq<char>, out: (Seq<char>, Trail)) -> bool {
    r == out.0 && trail_of(b) == out.1
}

/// A state leaves behind what another one does.
pub open spec fn same_trail(a: State, b: State) -> bool {
    b.bullet_last_used == a.bullet_last_used && b.attention_encode_surrounding_info == a.attention_encode_surrounding_info
}

/// An optional string as text.
pub open spec fn opt_text(o: Option<String>) -> Option<Seq<char>> {
    match o {
        Some(s) => Some(s@),
        None => None,
    }
}

/// The changing parts of a state.
pub open spec fn ctx_of(s: State) -> Ctx {
    Ctx {
        stack: s.stack@,
        index: s.index_stack@,
        current: opt_text(s.bullet_current),
        last_used: opt_text(s.bullet_last_used),
        attention: s.attention_encode_surrounding_info,
    }
}

/// What a state leaves behind.
pub open spec fn trail_of(s: State) -> Trail {
    Trail { last_used: opt_text(s.bullet_last_used), attention: s.attention_encode_surrounding_info }
}

/// What a context leaves behind as it is.
pub open spec fn ctx_trail(c: Ctx) -> Trail {
    Trail { last_used: c.last_used, attention: c.attention }
}

/// A context after a node that left `t` behind.
pub open spec fn resume(c: Ctx, t: Trail) -> Ctx {
    Ctx { last_used: t.last_used, attention: t.attention, ..c }
}

/// A context inside one more construct.
pub open spec fn inside(c: Ctx, name: ConstructName) -> Ctx {
    Ctx { stack: c.stack.push(name), ..c }
}

/// An optional node reference as an optional node.
pub open spec fn opt_node(p: Option<&Node>) -> Option<Node> {
    match p {
        Some(n) => Some(*n),
        None => None,
    }
}

/// The first character of a text, as a text.
pub open spec fn head_of(v: Seq<char>) -> Seq<char> {
    if v.len() > 0 {
        seq![v[0]]
    } else {
        Seq::empty()
    }
}

/// The last character of a text, as a text.
pub open spec fn tail_of(v: Seq<char>) -> Seq<char> {
    if v.len() > 0 {
        seq![v.last()]
    } else {
        Seq::empty()
    }
}

/// The first character of a text.
pub open spec fn first_of(v: Seq<char>) -> Option<char> {
    if v.len() > 0 {
        Some(v[0])
    } else {
        None
    }
}

/// The last character of a text.
pub open spec fn last_of(v: Seq<char>) -> Option<char> {
    if v.len() > 0 {
        Some(v.last())
    } else {
        None
    }
}

/// The concatenation of some texts.
pub open spec fn concat_all(parts: Seq<Seq<char>>) -> Seq<char>
    decreases parts.len(),
{
    if parts.len() == 0 {
        Seq::empty()
    } else {
        concat_all(parts.drop_last()) + parts.last()
    }
}

/// Attention around the text `v` of its children, between `fence` and
/// `fence`: a character at either edge of `v` that would keep the markers
/// from working is encoded as a character reference; also whether the
/// characters outside should be encoded.
pub open spec fn attention_out(
    v: Seq<char>,
    before: Seq<char>,
    after: Seq<char>,
    marker: char,
    fence: Seq<char>,
) -> (Seq<char>, EncodeSurrounding) {
    let open = encode_info_spec(last_of(before), first_of(v), marker);
    let v1 = if open.inside && v.len() > 0 {
        char_ref_spec((v[0] as u32) as nat) + v.skip(1)
    } else {
        v
    };
    let close = encode_info_spec(first_of(after), last_of(v1), marker);
    let v2 = if close.inside && v1.len() > 0 {
        v1.drop_last() + char_ref_spec((v1.last() as u32) as nat)
    } else {
        v1
    };
    (fence + v2 + fence, EncodeSurrounding { after: close.outside, before: open.outside })
}

/// Whether some child of a node is phrasing content.
pub open spec fn has_phrasing_child(n: Node) -> bool {
    exists|i: int| 0 <= i < node_children(n).len() && #[trigger] is_phrasing_spec(node_children(n)[i])
}

/// The children that phrasing serialization goes through are the node's
/// children, or none.
pub proof fn lemma_phrasing_children(n: Node)
    ensures
        phrasing_children(n).len() == 0 || phrasing_children(n) == node_children(n),
        flow_children(n).len() == 0 || flow_children(n) == node_children(n),
{
}

/// The text a node is written as, and what it leaves behind, with what `s`
/// registers and its options, in context `c`, with `before`
/// and `after` the characters around it.
pub open spec fn ser(s: Cfg, c: Ctx, n: Node, parent: Option<Node>, before: Seq<char>, after: Seq<char>) -> (
    Seq<char>,
    Trail,
)
    decreases n, 5int, 0int,
{
    match lookup_in(s.handlers, node_type_spec(n)) {
        Some(h) => ser_with(s, c, h, n, parent, before, after),
        None => (Seq::empty(), ctx_trail(c)),
    }
}

/// The first character a node would be written with: from its peek function
/// when one is registered, else from its handler.
pub open spec fn peek_full(s: Cfg, c: Ctx, n: Node, parent: Option<Node>, before: Seq<char>, after: Seq<char>) -> (Seq<char>, Trail)
    decreases n, 5int, 0int,
{
    match lookup_in(s.peek_handlers, node_type_spec(n)) {
        Some(p) => (peek_spec(p, n, s.options), ctx_trail(c)),
        None => match lookup_in(s.handlers, node_type_spec(n)) {
            Some(h) => {
                let r = ser_with(s, c, h, n, parent, before, after);
                (head_of(r.0), r.1)
            },
            None => (Seq::empty(), ctx_trail(c)),
        },
    }
}

/// The text handler `h` writes for a node, and what it leaves behind.
pub open spec fn ser_with(
    s: Cfg,
    c: Ctx,
    h: HandlerFn,
    n: Node,
    parent: Option<Node>,
    before: Seq<char>,
    after: Seq<char>,
) -> (Seq<char>, Trail)
    decreases n, 4int, 0int,
{
    let keep = ctx_trail(c);
    let ps = s.unsafe_patterns;
    let o = s.options;
    match h {
        HandlerFn::Root => if n is Root {
            if has_phrasing_child(n) {
                phrasing(s, c, n, before, after)
            } else {
                flow(s, c, n)
            }
        } else {
            (Seq::empty(), keep)
        },
        HandlerFn::Text => (
            match n {
                Node::Text(t) => safe_spec(ps, c.stack, before, t.value@, after, Seq::empty()),
                _ => Seq::empty(),
            },
            keep,
        ),
        HandlerFn::Paragraph => phrasing(
            s,
            inside(inside(c, ConstructName::Paragraph), ConstructName::Phrasing),
            n,
            before,
            after,
        ),
        HandlerFn::Heading => match n {
            Node::Heading(hd) => if heading_setext_spec(hd, o) {
                let r = phrasing(
                    s,
                    inside(inside(c, ConstructName::HeadingSetext), ConstructName::Phrasing),
                    n,
                    "\n"@,
                    "\n"@,
                );
                (setext_spec(r.0, heading_rank(hd.depth)), r.1)
            } else {
                let r = phrasing(
                    s,
                    inside(inside(c, ConstructName::HeadingAtx), ConstructName::Phrasing),
                    n,
                    "# "@,
                    "\n"@,
                );
                (atx_spec(r.0, heading_rank(hd.depth), o.close_atx), r.1)
            },
            _ => (Seq::empty(), keep),
        },
        HandlerFn::Emphasis => {
            let m = o.emphasis;
            let r = phrasing(s, inside(c, ConstructName::Emphasis), n, seq![m], seq![m]);
            let a = attention_out(r.0, before, after, m, seq![m]);
            (a.0, Trail { last_used: r.1.last_used, attention: Some(a.1) })
        },
        HandlerFn::Strong => {
            let m = o.strong;
            let r = phrasing(s, inside(c, ConstructName::Strong), n, seq![m, m], seq![m]);
            let a = attention_out(r.0, before, after, m, seq![m, m]);
            (a.0, Trail { last_used: r.1.last_used, attention: Some(a.1) })
        },
        HandlerFn::InlineCode => (
            match n {
                Node::InlineCode(ic) => inline_code_spec(ic.value@, ps, c.stack),
                _ => Seq::empty(),
            },
            keep,
        ),
        HandlerFn::InlineCodeWithTable => (
            match n {
                Node::InlineCode(ic) => if stack_has(c.stack, ConstructName::TableCell) {
                    escape_pipes_spec(inline_code_spec(ic.value@, ps, c.stack))
                } else {
                    inline_code_spec(ic.value@, ps, c.stack)
                },
                _ => Seq::empty(),
            },
            keep,
        ),
        HandlerFn::Code => (
            match n {
                Node::Code(cd) => code_spec(cd, o, ps, c.stack),
                _ => Seq::empty(),
            },
            keep,
        ),
        HandlerFn::Link => match n {
            Node::Link(l) => if link_autolink_spec(l, o) {
                let r = phrasing(s, Ctx { stack: seq![ConstructName::Autolink], ..c }, n, "<"@, ">"@);
                ("<"@ + r.0 + ">"@, r.1)
            } else {
                let r = phrasing(
                    s,
                    inside(inside(c, ConstructName::Link), ConstructName::Label),
                    n,
                    "["@,
                    "]("@,
                );
                let st = c.stack.push(ConstructName::Link);
                let angle = (l.url@.len() == 0 && l.title is Some) || has_control_or_space(l.url@);
                let v1 = destination_part(ps, st, "["@ + r.0 + "]("@, l.url@, l.title is Some, angle, ")"@);
                (title_part(ps, st, v1, l.title, o.quote) + ")"@, r.1)
            },
            _ => (Seq::empty(), keep),
        },
        HandlerFn::Image => (
            match n {
                Node::Image(img) => image_spec(img, o.quote, ps, c.stack),
                _ => Seq::empty(),
            },
            keep,
        ),
        HandlerFn::List => match n {
            Node::List(l) => {
                let m = list_marker_spec(o, c, l, parent is Some);
                let r = flow(s, Ctx { stack: c.stack.push(ConstructName::List), current: Some(seq![m]), ..c }, n);
                (r.0, Trail { last_used: Some(seq![m]), attention: r.1.attention })
            },
            _ => (Seq::empty(), keep),
        },
        HandlerFn::ListItem => item_out(s, c, n, parent),
        HandlerFn::ListItemWithTask => match n {
            Node::ListItem(item) => {
                let r = item_out(s, c, n, parent);
                (if checkable_spec(item) { with_checkbox(r.0, checkbox_spec(item)) } else { r.0 }, r.1)
            },
            _ => (Seq::empty(), keep),
        },
        HandlerFn::Blockquote => {
            let r = flow(s, inside(c, ConstructName::Blockquote), n);
            (indent_lines_spec(r.0, LineMap::Blockquote), r.1)
        },
        HandlerFn::Break => (break_spec(ps, c.stack, before), keep),
        HandlerFn::ThematicBreak => (thematic_break_spec(o), keep),
        HandlerFn::Html => (
            match n {
                Node::Html(x) => x.value@,
                _ => Seq::empty(),
            },
            keep,
        ),
        HandlerFn::Definition => (
            match n {
                Node::Definition(d) => definition_spec(d, o.quote, ps, c.stack),
                _ => Seq::empty(),
            },
            keep,
        ),
        HandlerFn::LinkReference => match n {
            Node::LinkReference(lr) => {
                let r = phrasing(
                    s,
                    inside(inside(c, ConstructName::LinkReference), ConstructName::Label),
                    n,
                    "["@,
                    "]"@,
                );
                let value = "["@ + r.0 + "]["@;
                let reference = safe_spec(
                    ps,
                    seq![ConstructName::Reference],
                    value,
                    association_spec(n),
                    "]"@,
                    Seq::empty(),
                );
                (
                    match lr.reference_kind {
                        ReferenceKind::Full => value + reference + "]"@,
                        ReferenceKind::Shortcut => value.drop_last(),
                        ReferenceKind::Collapsed => value + "]"@,
                    },
                    r.1,
                )
            },
            _ => (Seq::empty(), keep),
        },
        HandlerFn::ImageReference => (
            match n {
                Node::ImageReference(ir) => image_reference_spec(ir, ps, c.stack),
                _ => Seq::empty(),
            },
            keep,
        ),
        HandlerFn::Table => match n {
            Node::Table(t) => {
                let rows = table_rows(s, inside(c, ConstructName::Table), n, t.children@.len() as int);
                (table_spec(rows.0, Some(t.align@), true, true), ctx_trail(rows.1))
            },
            _ => (Seq::empty(), keep),
        },
        HandlerFn::TableRow => {
            let r = row_data(s, c, n);
            (first_line(table_spec(seq![r.0], None, true, true)), r.1)
        },
        HandlerFn::TableCell => cell_value(s, c, n),
        HandlerFn::Delete => {
            let r = phrasing(s, inside(c, ConstructName::Strikethrough), n, "~~"@, "~"@);
            ("~~"@ + r.0 + "~~"@, r.1)
        },
    }
}

/// A list item: its children as flow, the first line after its bullet and
/// the others indented by the bullet column.
pub open spec fn item_out(s: Cfg, c: Ctx, n: Node, parent: Option<Node>) -> (Seq<char>, Trail)
    decreases n, 3int, 0int,
{
    match n {
        Node::ListItem(_) => {
            let bullet = item_bullet_spec(s.options, c, parent);
            let size = item_size_spec(s.options, bullet, n, parent);
            let r = flow(s, inside(c, ConstructName::ListItem), n);
            (indent_lines_spec(r.0, LineMap::ListItem { bullet, size }), r.1)
        },
        _ => (Seq::empty(), ctx_trail(c)),
    }
}

/// The cells of a table row, each written as phrasing between spaces.
pub open spec fn row_data(s: Cfg, c: Ctx, n: Node) -> (Seq<Seq<char>>, Trail)
    decreases n, 3int, 0int,
{
    match n {
        Node::TableRow(row) => {
            let acc = cells_acc(s, inside(c, ConstructName::TableRow), n, row.children@.len() as int);
            (acc.0, ctx_trail(acc.1))
        },
        _ => (Seq::empty(), ctx_trail(c)),
    }
}

/// A table cell: its children as phrasing between spaces.
pub open spec fn cell_value(s: Cfg, c: Ctx, n: Node) -> (Seq<char>, Trail)
    decreases n, 3int, 0int,
{
    phrasing(s, inside(inside(c, ConstructName::TableCell), ConstructName::Phrasing), n, " "@, " "@)
}

/// The first `k` cells of a row.
pub open spec fn cells_acc(s: Cfg, c: Ctx, row: Node, k: int) -> (Seq<Seq<char>>, Ctx)
    decreases row, 1int, k,
{
    if k <= 0 {
        (Seq::empty(), c)
    } else {
        let kids = node_children(row);
        let acc = cells_acc(s, c, row, k - 1);
        if k - 1 >= kids.len() {
            acc
        } else {
            proof {
                lemma_children_decrease(row);
            }
            let v = cell_value(s, acc.1, kids[k - 1]);
            (acc.0.push(v.0), resume(acc.1, v.1))
        }
    }
}

/// The cells of the first `k` rows of a table.
pub open spec fn table_rows(s: Cfg, c: Ctx, table: Node, k: int) -> (Seq<Seq<Seq<char>>>, Ctx)
    decreases table, 1int, k,
{
    if k <= 0 {
        (Seq::empty(), c)
    } else {
        let kids = node_children(table);
        let acc = table_rows(s, c, table, k - 1);
        if k - 1 >= kids.len() {
            acc
        } else {
            proof {
                lemma_children_decrease(table);
            }
            let r = row_data(s, acc.1, kids[k - 1]);
            (acc.0.push(r.0), resume(acc.1, r.1))
        }
    }
}

/// Html right after a line ending: the line ending at the end of the text
/// before it becomes a space.
pub open spec fn html_fix(results: Seq<Seq<char>>, before: Seq<char>, n: Node) -> bool {
    results.len() > 0 && (before == seq!['\r'] || before == seq!['\n']) && n is Html
}

/// The texts so far, once the next child is known.
pub open spec fn after_html(results: Seq<Seq<char>>, before: Seq<char>, n: Node) -> Seq<Seq<char>> {
    if html_fix(results, before, n) {
        results.update(results.len() - 1, replace_trailing_eol_spec(results.last()))
    } else {
        results
    }
}

/// The character before the next child, once it is known.
pub open spec fn before_html(results: Seq<Seq<char>>, before: Seq<char>, n: Node) -> Seq<char> {
    if html_fix(results, before, n) {
        seq![' ']
    } else {
        before
    }
}

/// A child's text with its start encoded as a character reference when the
/// attention before it asked for that and the text starts with `enc`.
pub open spec fn encode_start(enc: Option<Seq<char>>, v: Seq<char>) -> Seq<char> {
    match enc {
        Some(e) => if e.len() > 0 && e.len() <= v.len() && v.subrange(0, e.len() as int) == e {
            char_ref_spec((e[0] as u32) as nat) + v.skip(e.len() as int)
        } else {
            v
        },
        None => v,
    }
}

/// The texts so far with the last character of the last one encoded as a
/// character reference, when the attention just written asked for that and
/// that character is the one before it.
pub open spec fn encode_prev(results: Seq<Seq<char>>, before: Seq<char>, att: Option<EncodeSurrounding>) -> Seq<
    Seq<char>,
> {
    match att {
        Some(ei) => if results.len() > 0 && ei.before && results.last().len() > 0 && before == seq![
            results.last().last(),
        ] {
            results.update(
                results.len() - 1,
                results.last().drop_last() + char_ref_spec((results.last().last() as u32) as nat),
            )
        } else {
            results
        },
        None => results,
    }
}

/// What to encode at the start of the next child: the character after the
/// attention just written, when it asked for that.
pub open spec fn next_encode(att: Option<EncodeSurrounding>, after: Seq<char>) -> Option<Seq<char>> {
    match att {
        Some(ei) => if ei.after {
            Some(after)
        } else {
            None
        },
        None => None,
    }
}

/// Where phrasing serialization of a parent's children is after some of
/// them: what each child became (the last one possibly changed since), the
/// character before the next child, what to encode at the start of the next
/// child, and the context.
pub struct PhrasingAcc {
    pub results: Seq<Seq<char>>,
    pub before: Seq<char>,
    pub encode_after: Option<Seq<char>>,
    pub c: Ctx,
}

/// Phrasing serialization after the first `k` children of `parent`.
pub open spec fn phrasing_acc(
    s: Cfg,
    c0: Ctx,
    parent: Node,
    before0: Seq<char>,
    after0: Seq<char>,
    k: int,
) -> PhrasingAcc
    decreases parent, 0int, k,
{
    if k <= 0 {
        PhrasingAcc {
            results: Seq::empty(),
            before: before0,
            encode_after: None,
            c: Ctx { index: c0.index.push(0), ..c0 },
        }
    } else {
        let kids = phrasing_children(parent);
        let i = k - 1;
        let acc = phrasing_acc(s, c0, parent, before0, after0, k - 1);
        if i >= kids.len() {
            acc
        } else {
            proof {
                lemma_children_decrease(parent);
                lemma_phrasing_children(parent);
            }
            let c1 = Ctx { index: acc.c.index.update(acc.c.index.len() - 1, i as usize), ..acc.c };
            let peeked = if i + 1 < kids.len() {
                peek_full(s, c1, kids[i + 1], Some(parent), Seq::empty(), Seq::empty())
            } else {
                (Seq::empty(), ctx_trail(c1))
            };
            let after = if i + 1 < kids.len() {
                head_of(peeked.0)
            } else {
                after0
            };
            let c2 = resume(c1, peeked.1);
            let results1 = after_html(acc.results, acc.before, kids[i]);
            let before1 = before_html(acc.results, acc.before, kids[i]);
            let out = ser(s, c2, kids[i], Some(parent), before1, after);
            let c3 = resume(c2, out.1);
            let v = encode_start(acc.encode_after, out.0);
            let results2 = encode_prev(results1, before1, c3.attention);
            let enc2 = next_encode(c3.attention, after);
            PhrasingAcc {
                results: results2.push(v),
                before: tail_of(v),
                encode_after: enc2,
                c: Ctx { attention: None, ..c3 },
            }
        }
    }
}

/// The children of a parent as phrasing: written flush together, each with
/// the first character of the next one after it.
pub open spec fn phrasing(s: Cfg, c: Ctx, parent: Node, before: Seq<char>, after: Seq<char>) -> (Seq<char>, Trail)
    decreases parent, 2int, 0int,
{
    let acc = phrasing_acc(s, c, parent, before, after, phrasing_children(parent).len() as int);
    (concat_all(acc.results), ctx_trail(acc.c))
}

/// Flow serialization after the first `k` children of `parent`: what the
/// handler writes for each child (`ser`, with a line ending before and after
/// it), each followed by `between_spec` of it and the next child (nothing
/// after the last), with the child's index on top of the index stack.
pub open spec fn flow_acc(s: Cfg, c0: Ctx, parent: Node, k: int) -> (Seq<char>, Ctx)
    decreases parent, 0int, k,
{
    if k <= 0 {
        (Seq::empty(), Ctx { index: c0.index.push(0), ..c0 })
    } else {
        let kids = flow_children(parent);
        let i = k - 1;
        let acc = flow_acc(s, c0, parent, k - 1);
        if i >= kids.len() {
            acc
        } else {
            proof {
                lemma_children_decrease(parent);
                lemma_phrasing_children(parent);
            }
            let c1 = Ctx { index: acc.1.index.update(acc.1.index.len() - 1, i as usize), ..acc.1 };
            let r = ser(s, c1, kids[i], Some(parent), "\n"@, "\n"@);
            let c2 = resume(c1, r.1);
            let c3 = if kids[i] is List {
                c2
            } else {
                Ctx { last_used: None, ..c2 }
            };
            let sep = if i + 1 < kids.len() {
                between_spec(s.join, kids[i], kids[i + 1], parent, s.options)
            } else {
                Seq::empty()
            };
            (acc.0 + r.0 + sep, c3)
        }
    }
}

/// The children of a parent as flow: each written on its own, with what the
/// join rules decide between each two.
pub open spec fn flow(s: Cfg, c: Ctx, parent: Node) -> (Seq<char>, Trail)
    decreases parent, 2int, 0int,
{
    let acc = flow_acc(s, c, parent, flow_children(parent).len() as int);
    (acc.0, ctx_trail(acc.1))
}

}
