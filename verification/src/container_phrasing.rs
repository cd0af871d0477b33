//! Serializing the children of a phrasing container, joined flush together.

use vstd::prelude::*;
use crate::mdast::{lemma_children_decrease, node_children, Node};
use crate::output::{
    after_html, before_html, cfg_of, concat_all, ctx_of, ctx_trail, encode_prev, encode_start, head_of, html_fix,
    opt_text, peek_full, phrasing, phrasing_acc, resume, ser, wrote, Ctx,
};
use crate::safe::char_ref_spec;
use crate::safe::encode_character_reference;
use crate::state::{marker_ok, children_ok, lemma_children_ok, preserved, State};
use crate::text::{char_string, concat, first_char, last_char, owned, push_str, str_eq, substring};
use crate::track::Tracker;
use crate::types::{EncodeSurrounding, Info, TrackFields};

verus! {

/// The children that phrasing serialization goes through.
pub open spec fn phrasing_children(n: Node) -> Seq<Node> {
    match n {
        Node::Root(x) => x.children@,
        Node::Paragraph(x) => x.children@,
        Node::Heading(x) => x.children@,
        Node::Emphasis(x) => x.children@,
        Node::Strong(x) => x.children@,
        Node::Delete(x) => x.children@,
        Node::Link(x) => x.children@,
        Node::LinkReference(x) => x.children@,
        Node::TableCell(x) => x.children@,
        _ => Seq::empty(),
    }
}

/// Get the phrasing children of a parent node.
fn get_phrasing_children(node: &Node) -> (r: Option<&Vec<Node>>)
    ensures
        match r {
            Some(v) => v@ == phrasing_children(*node) && v@ == node_children(*node),
            None => phrasing_children(*node).len() == 0,
        },
{
    match node {
        Node::Root(r) => Some(&r.children),
        Node::Paragraph(p) => Some(&p.children),
        Node::Heading(h) => Some(&h.children),
        Node::Emphasis(e) => Some(&e.children),
        Node::Strong(s) => Some(&s.children),
        Node::Delete(d) => Some(&d.children),
        Node::Link(l) => Some(&l.children),
        Node::LinkReference(lr) => Some(&lr.children),
        Node::TableCell(tc) => Some(&tc.children),
        _ => None,
    }
}

/// `s` with a trailing line ending (`\r\n`, `\r` or `\n`) replaced by a space.
pub open spec fn replace_trailing_eol_spec(s: Seq<char>) -> Seq<char> {
    if s.len() >= 2 && s[s.len() - 2] == '\r' && s[s.len() - 1] == '\n' {
        s.subrange(0, s.len() - 2).push(' ')
    } else if s.len() >= 1 && (s[s.len() - 1] == '\r' || s[s.len() - 1] == '\n') {
        s.subrange(0, s.len() - 1).push(' ')
    } else {
        s
    }
}

/// Replace a trailing line ending with a space.
fn regex_replace_trailing_eol(s: &str) -> (r: String)
    ensures
        r@ == replace_trailing_eol_spec(s@),
{
    let n = s.unicode_len();
    if n >= 2 && s.get_char(n - 2) == '\r' && s.get_char(n - 1) == '\n' {
        let mut t = substring(s, 0, n - 2);
        crate::text::push_char(&mut t, ' ');
        t
    } else if n >= 1 && (s.get_char(n - 1) == '\r' || s.get_char(n - 1) == '\n') {
        let mut t = substring(s, 0, n - 1);
        crate::text::push_char(&mut t, ' ');
        t
    } else {
        owned(s)
    }
}

/// The concatenation of the first `k` strings.
pub open spec fn concat_views(parts: Seq<String>, k: int) -> Seq<char>
    decreases k,
{
    if k <= 0 {
        Seq::empty()
    } else {
        concat_views(parts, k - 1) + parts[k - 1]@
    }
}

/// The concatenation of some strings.
fn join_all(parts: &Vec<String>) -> (r: String)
    ensures
        r@ == concat_views(parts@, parts@.len() as int),
{
    let mut s = String::new();
    let mut i: usize = 0;
    while i < parts.len()
        invariant
            i <= parts.len(),
            s@ == concat_views(parts@, i as int),
        decreases parts.len() - i,
    {
        push_str(&mut s, parts[i].as_str());
        i += 1;
    }
    s
}

/// The texts of some strings.
pub open spec fn views_of(v: Seq<String>) -> Seq<Seq<char>> {
    v.map_values(|x: String| x@)
}

/// Joining strings joins their texts.
proof fn lemma_concat_views(parts: Seq<String>, k: int)
    requires
        0 <= k <= parts.len(),
    ensures
        concat_views(parts, k) == concat_all(views_of(parts).take(k)),
    decreases k,
{
    if k > 0 {
        lemma_concat_views(parts, k - 1);
        assert(views_of(parts).take(k).drop_last() =~= views_of(parts).take(k - 1));
    } else {
        assert(views_of(parts).take(0) =~= Seq::<Seq<char>>::empty());
    }
}

/// Replace a line ending at the end of the last text with a space when html
/// comes right after it.
fn fix_before_html(results: &mut Vec<String>, before: &mut String, child: &Node)
    ensures
        views_of(final(results)@) == after_html(views_of(old(results)@), old(before)@, *child),
        final(before)@ == before_html(views_of(old(results)@), old(before)@, *child),
{
    proof {
        reveal_strlit("\r");
        reveal_strlit("\n");
        reveal_strlit(" ");
        assert("\r"@ =~= seq!['\r']);
        assert("\n"@ =~= seq!['\n']);
        assert(" "@ =~= seq![' ']);
        assert(views_of(results@).len() == results@.len());
    }
    let is_html = match child {
        Node::Html(_) => true,
        _ => false,
    };
    if results.len() > 0 && (str_eq(before.as_str(), "\r") || str_eq(before.as_str(), "\n")) && is_html {
        let last_index = results.len() - 1;
        let replaced = regex_replace_trailing_eol(results[last_index].as_str());
        let ghost old_views = views_of(results@);
        results.set(last_index, replaced);
        *before = owned(" ");
        proof {
            assert(views_of(results@) =~= old_views.update(last_index as int, replaced@));
        }
    } else {
        proof {
            assert(!html_fix(views_of(results@), before@, *child));
        }
    }
}

/// Encode the start of a child's text when the attention before it asked.
fn encode_start_of(value: String, encode_after: &Option<String>) -> (r: String)
    ensures
        r@ == encode_start(opt_text(*encode_after), value@),
{
    match encode_after {
        Some(enc) => {
            match first_char(enc.as_str()) {
                Some(c) => {
                    if crate::text::starts_with(value.as_str(), enc.as_str()) {
                        let rest = substring(value.as_str(), enc.as_str().unicode_len(), value.as_str().unicode_len());
                        let reference = encode_character_reference(c as u32);
                        concat(reference.as_str(), rest.as_str())
                    } else {
                        value
                    }
                },
                None => value,
            }
        },
        None => value,
    }
}

/// Encode the last character of the last text when the attention just
/// written asked for that and it is the character before.
fn encode_prev_of(results: &mut Vec<String>, before: &str, att: Option<EncodeSurrounding>)
    ensures
        views_of(final(results)@) == encode_prev(views_of(old(results)@), before@, att),
{
    let ghost old_views = views_of(results@);
    match att {
        Some(enc_info) => {
            if results.len() > 0 && enc_info.before {
                let last_index = results.len() - 1;
                match last_char(results[last_index].as_str()) {
                    Some(lc) => {
                        let lcs = char_string(lc);
                        if str_eq(before, lcs.as_str()) {
                            let len = results[last_index].as_str().unicode_len();
                            let trimmed = substring(results[last_index].as_str(), 0, len - 1);
                            let encoded = encode_character_reference(lc as u32);
                            let replaced = concat(trimmed.as_str(), encoded.as_str());
                            results.set(last_index, replaced);
                            proof {
                                assert(trimmed@ =~= old_views.last().drop_last());
                                assert(views_of(results@) =~= old_views.update(last_index as int, replaced@));
                            }
                        }
                    },
                    None => {},
                }
            }
        },
        None => {},
    }
}

/// Serialize the children of a parent that contains phrasing children.
///
/// The `after` context of each child is the first character its next sibling
/// would produce; characters next to attention are encoded as the attention
/// handlers ask; html right after a line ending gets a space in its place.
#[verifier::loop_isolation(false)]
#[verifier::rlimit(50)]
pub fn container_phrasing(parent: &Node, state: &mut State, info: &Info) -> (r: String)
    requires
        marker_ok(*old(state)),
        phrasing_children(*parent).len() == 0 || children_ok(
            old(state).handlers.lookup_fn(),
            old(state).options,
            *parent,
            old(state).bullet_current is Some,
            node_children(*parent).len() as int,
        ),
    ensures
        preserved(*old(state), *final(state)),
        wrote(*final(state), r@, phrasing(cfg_of(*old(state)), ctx_of(*old(state)), *parent, info.before@, info.after@)),
        phrasing_children(*parent).len() > 0 ==> final(state).attention_encode_surrounding_info is None,
    decreases parent, 1int,
{
    let ghost s0 = *state;
    let ghost cfg = cfg_of(*state);
    let ghost c0 = ctx_of(*state);
    let ghost b0 = info.before@;
    let ghost a0 = info.after@;
    let children = match get_phrasing_children(parent) {
        Some(c) => c,
        None => {
            return String::new();
        },
    };
    let mut results: Vec<String> = Vec::new();
    let mut before = owned(info.before.as_str());
    let mut encode_after: Option<String> = None;
    state.index_stack.push(0);
    let mut tracker = Tracker::new(
        &TrackFields { line: info.line, column: info.column, line_shift: info.line_shift },
    );
    let n = children.len();
    let mut index: usize = 0;
    proof {
        assert(views_of(results@) =~= Seq::<Seq<char>>::empty());
        assert(ctx_of(*state) =~= phrasing_acc(cfg, c0, *parent, b0, a0, 0).c);
    }
    while index < n
        invariant
            children@ == phrasing_children(*parent),
            children@ == node_children(*parent),
            n == children@.len(),
            index <= n,
            state.stack@ == s0.stack@,
            state.index_stack@.len() == s0.index_stack@.len() + 1,
            state.index_stack@.take(s0.index_stack@.len() as int) == s0.index_stack@,
            state.handlers == s0.handlers,
            state.peek_handlers == s0.peek_handlers,
            state.unsafe_patterns@ == s0.unsafe_patterns@,
            state.join@ == s0.join@,
            state.options == s0.options,
            state.bullet_current == s0.bullet_current,
            cfg == cfg_of(s0),
            c0 == ctx_of(s0),
            views_of(results@) == phrasing_acc(cfg, c0, *parent, b0, a0, index as int).results,
            before@ == phrasing_acc(cfg, c0, *parent, b0, a0, index as int).before,
            opt_text(encode_after) == phrasing_acc(cfg, c0, *parent, b0, a0, index as int).encode_after,
            ctx_of(*state) == phrasing_acc(cfg, c0, *parent, b0, a0, index as int).c,
            index > 0 ==> state.attention_encode_surrounding_info is None,
        decreases n - index,
    {
        let ghost acc = phrasing_acc(cfg, c0, *parent, b0, a0, index as int);
        let top = state.index_stack.len() - 1;
        state.index_stack.set(top, index);
        assert(state.index_stack@.take(s0.index_stack@.len() as int) =~= s0.index_stack@);
        let ghost c1 = Ctx { index: acc.c.index.update(acc.c.index.len() - 1, index), ..acc.c };
        assert(ctx_of(*state) =~= c1);
        let child = &children[index];
        proof {
            lemma_children_decrease(*parent);
            assert(decreases_to!(*parent => children@[index as int]));
            lemma_children_ok(
                s0.handlers.lookup_fn(),
                s0.options,
                *parent,
                s0.bullet_current is Some,
                node_children(*parent).len() as int,
                index as int,
            );
        }
        let after = if index + 1 < n {
            let next_child = &children[index + 1];
            let cur = tracker.current();
            let peek_info = Info {
                before: String::new(),
                after: String::new(),
                line: cur.line,
                column: cur.column,
                line_shift: cur.line_shift,
            };
            proof {
                assert(decreases_to!(*parent => children@[index + 1]));
                lemma_children_ok(
                    s0.handlers.lookup_fn(),
                    s0.options,
                    *parent,
                    s0.bullet_current is Some,
                    node_children(*parent).len() as int,
                    index + 1,
                );
            }
            let peek_result = state.peek(next_child, Some(parent), &peek_info);
            match first_char(peek_result.as_str()) {
                Some(c) => char_string(c),
                None => String::new(),
            }
        } else {
            owned(info.after.as_str())
        };
        let ghost peeked = if index + 1 < n {
            peek_full(cfg, c1, children@[index + 1], Some(*parent), Seq::empty(), Seq::empty())
        } else {
            (Seq::<char>::empty(), ctx_trail(c1))
        };
        let ghost c2 = resume(c1, peeked.1);
        assert(after@ == (if index + 1 < n { head_of(peeked.0) } else { a0 }));
        assert(ctx_of(*state) =~= c2);
        let ghost results1 = after_html(acc.results, acc.before, children@[index as int]);
        let ghost before1 = before_html(acc.results, acc.before, children@[index as int]);
        fix_before_html(&mut results, &mut before, child);
        let cur = tracker.current();
        let child_info = Info {
            before: owned(before.as_str()),
            after: owned(after.as_str()),
            line: cur.line,
            column: cur.column,
            line_shift: cur.line_shift,
        };
        let value = state.handle(child, Some(parent), &child_info);
        let ghost out = ser(cfg, c2, children@[index as int], Some(*parent), before1, after@);
        let ghost c3 = resume(c2, out.1);
        assert(ctx_of(*state) =~= c3);
        let value = encode_start_of(value, &encode_after);
        let encoding_info = state.attention_encode_surrounding_info;
        state.attention_encode_surrounding_info = None;
        encode_after = None;
        encode_prev_of(&mut results, before.as_str(), encoding_info);
        match encoding_info {
            Some(enc_info) => {
                if enc_info.after {
                    encode_after = Some(owned(after.as_str()));
                }
            },
            None => {},
        }
        let _ = tracker.move_past(value.as_str());
        before = match last_char(value.as_str()) {
            Some(c) => char_string(c),
            None => String::new(),
        };
        let ghost pre_push = views_of(results@);
        results.push(value);
        proof {
            assert(views_of(results@) =~= pre_push.push(value@));
            assert(ctx_of(*state) =~= Ctx { attention: None, ..c3 });
        }
        index += 1;
    }
    let _ = state.index_stack.pop();
    proof {
        assert(state.index_stack@ =~= s0.index_stack@);
        lemma_concat_views(results@, results@.len() as int);
        assert(views_of(results@).take(results@.len() as int) =~= views_of(results@));
    }
    join_all(&results)
}

}
