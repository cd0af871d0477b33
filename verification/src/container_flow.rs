//! Serializing the children of a flow container, joined by blank lines.

use vstd::prelude::*;
use crate::join::join_spec;
use crate::mdast::{lemma_children_decrease, node_children, Node};
use crate::output::{cfg_of, concat_all, ctx_of, flow, flow_acc, ser, wrote, Cfg, Ctx};
use crate::state::{marker_ok, lemma_children_ok, preserved, ready, children_ok, State};
use crate::text::{owned, push_str, repeat_char, repeat_spec};
use crate::track::Tracker;
use crate::types::{Info, JoinFn, Options, TrackFields};

verus! {

/// The children that flow serialization goes through.
pub open spec fn flow_children(n: Node) -> Seq<Node> {
    match n {
        Node::Root(x) => x.children@,
        Node::Blockquote(x) => x.children@,
        Node::List(x) => x.children@,
        Node::ListItem(x) => x.children@,
        Node::FootnoteDefinition(x) => x.children@,
        _ => Seq::empty(),
    }
}

/// Get the children of a flow parent node.
fn get_children(node: &Node) -> (r: Option<&Vec<Node>>)
    ensures
        match r {
            Some(v) => v@ == flow_children(*node) && v@ == node_children(*node),
            None => flow_children(*node).len() == 0,
        },
{
    match node {
        Node::Root(root) => Some(&root.children),
        Node::Blockquote(bq) => Some(&bq.children),
        Node::List(list) => Some(&list.children),
        Node::ListItem(li) => Some(&li.children),
        Node::FootnoteDefinition(fd) => Some(&fd.children),
        _ => None,
    }
}

/// What separates two adjacent flow children, deciding by the join functions
/// from the last registered to the first: `n` blank lines for the first
/// `Some(n)` with `n >= 0`, a comment break for a negative one, and one blank
/// line when none has an opinion.
pub open spec fn between_from(
    joins: Seq<JoinFn>,
    left: Node,
    right: Node,
    parent: Node,
    o: Options,
    k: int,
) -> Seq<char>
    decreases k,
{
    if k <= 0 {
        "\n\n"@
    } else {
        match join_spec(joins[k - 1], left, right, parent, o) {
            Some(n) => if n == 1 {
                "\n\n"@
            } else if n >= 0 {
                repeat_spec('\n', (1 + n) as nat)
            } else {
                "\n\n<!---->\n\n"@
            },
            None => between_from(joins, left, right, parent, o, k - 1),
        }
    }
}

/// What separates two adjacent flow children.
pub open spec fn between_spec(joins: Seq<JoinFn>, left: Node, right: Node, parent: Node, o: Options) -> Seq<char> {
    between_from(joins, left, right, parent, o, joins.len() as int)
}

/// Determine what to put between two adjacent flow children.
pub fn between(left: &Node, right: &Node, parent: &Node, state: &State) -> (r: String)
    ensures
        r@ == between_spec(state.join@, *left, *right, *parent, state.options),
{
    let mut index = state.join.len();
    while index > 0
        invariant
            index <= state.join.len(),
            between_spec(state.join@, *left, *right, *parent, state.options) == between_from(
                state.join@,
                *left,
                *right,
                *parent,
                state.options,
                index as int,
            ),
        decreases index,
    {
        index -= 1;
        let result = state.join[index].apply(left, right, parent, state);
        match result {
            Some(n) => {
                if n == 1 {
                    proof {
                        reveal_strlit("\n\n");
                    }
                    return owned("\n\n");
                } else if n >= 0 {
                    return repeat_char('\n', 1 + n as usize);
                } else {
                    let r = owned("\n\n<!---->\n\n");
                    return r;
                }
            },
            None => {},
        }
    }
    proof {
        reveal_strlit("\n\n");
    }
    owned("\n\n")
}

/// Serialize the children of a parent that contains flow children; these are
/// joined by what `between` decides.
#[verifier::loop_isolation(false)]
pub fn container_flow(parent: &Node, state: &mut State, info: &TrackFields) -> (r: String)
    requires
        marker_ok(*old(state)),
        children_ok(
            old(state).handlers.lookup_fn(),
            old(state).options,
            *parent,
            old(state).bullet_current is Some,
            node_children(*parent).len() as int,
        ),
    ensures
        preserved(*old(state), *final(state)),
        wrote(*final(state), r@, flow(cfg_of(*old(state)), ctx_of(*old(state)), *parent)),
    decreases parent, 1int,
{
    let ghost s0 = *state;
    let ghost cfg = cfg_of(*state);
    let ghost c0 = ctx_of(*state);
    let mut out = String::new();
    let children = match get_children(parent) {
        Some(c) => c,
        None => {
            return out;
        },
    };
    let mut tracker = Tracker::new(info);
    state.index_stack.push(0);
    let n = children.len();
    let mut index: usize = 0;
    while index < n
        invariant
            children@ == flow_children(*parent),
            children@ == node_children(*parent),
            n == children@.len(),
            index <= n,
            state.stack@ == s0.stack@,
            state.index_stack@.len() == s0.index_stack@.len() + 1,
            state.index_stack@.take(s0.index_stack@.len() as int) == s0.index_stack@,
            state.handlers == s0.handlers,
            state.peek_handlers == s0.peek_handlers,
            state.unsafe_patterns@ == s0.unsafe_patterns@,
            state.join@ == s0.join@,
            state.options == s0.options,
            state.bullet_current == s0.bullet_current,
            cfg == cfg_of(s0),
            c0 == ctx_of(s0),
            out@ == flow_acc(cfg, c0, *parent, index as int).0,
            ctx_of(*state) == flow_acc(cfg, c0, *parent, index as int).1,
        decreases n - index,
    {
        let top = state.index_stack.len() - 1;
        state.index_stack.set(top, index);
        assert(state.index_stack@.take(s0.index_stack@.len() as int) =~= s0.index_stack@);
        let child = &children[index];
        let cur = tracker.current();
        let child_info = Info {
            before: owned("\n"),
            after: owned("\n"),
            line: cur.line,
            column: cur.column,
            line_shift: cur.line_shift,
        };
        proof {
            lemma_children_decrease(*parent);
            assert(decreases_to!(*parent => children@[index as int]));
            lemma_children_ok(
                s0.handlers.lookup_fn(),
                s0.options,
                *parent,
                s0.bullet_current is Some,
                node_children(*parent).len() as int,
                index as int,
            );
        }
        let value = state.handle(child, Some(parent), &child_info);
        let moved = tracker.move_past(value.as_str());
        push_str(&mut out, moved.as_str());
        match child {
            Node::List(_) => {},
            _ => {
                state.bullet_last_used = None;
            },
        }
        if index + 1 < n {
            let between_str = between(child, &children[index + 1], parent, state);
            let moved = tracker.move_past(between_str.as_str());
            push_str(&mut out, moved.as_str());
        }
        proof {
            assert(ctx_of(*state) =~= flow_acc(cfg, c0, *parent, index + 1).1);
            assert(out@ =~= flow_acc(cfg, c0, *parent, index + 1).0);
        }
        index += 1;
    }
    let _ = state.index_stack.pop();
    proof {
        assert(state.index_stack@ =~= s0.index_stack@);
    }
    out
}



/// What flow serialization writes for the `i`-th child of `parent`: the child
/// as its handler writes it, with a line ending before and after it and the
/// child's index on top of the index stack, in the context that the children
/// before it left.
pub open spec fn flow_part(s: Cfg, c0: Ctx, parent: Node, i: int) -> Seq<char> {
    let acc = flow_acc(s, c0, parent, i);
    let c1 = Ctx { index: acc.1.index.update(acc.1.index.len() - 1, i as usize), ..acc.1 };
    ser(s, c1, flow_children(parent)[i], Some(parent), "\n"@, "\n"@).0
}

/// What follows the `i`-th child: what the join rules put between it and the
/// next child, and nothing after the last.
pub open spec fn flow_sep(s: Cfg, parent: Node, i: int) -> Seq<char> {
    let kids = flow_children(parent);
    if i + 1 < kids.len() {
        between_spec(s.join, kids[i], kids[i + 1], parent, s.options)
    } else {
        Seq::empty()
    }
}

/// The first `k` children, each followed by its separator.
pub open spec fn flow_entries(s: Cfg, c0: Ctx, parent: Node, k: int) -> Seq<Seq<char>> {
    Seq::new(k as nat, |i: int| flow_part(s, c0, parent, i) + flow_sep(s, parent, i))
}

/// The children of a flow container are written one after another: the
/// first child as its handler writes it, the separator the join rules give
/// between it and the second, the second, and so on up to the last child.
pub proof fn lemma_flow_entries(s: Cfg, c0: Ctx, parent: Node)
    ensures
        flow(s, c0, parent).0 == concat_all(flow_entries(s, c0, parent, flow_children(parent).len() as int)),
{
    lemma_flow_entries_upto(s, c0, parent, flow_children(parent).len() as int);
}

/// The entry form holds after each number of children.
proof fn lemma_flow_entries_upto(s: Cfg, c0: Ctx, parent: Node, k: int)
    requires
        0 <= k <= flow_children(parent).len(),
    ensures
        flow_acc(s, c0, parent, k).0 == concat_all(flow_entries(s, c0, parent, k)),
    decreases k,
{
    if k == 0 {
        assert(flow_entries(s, c0, parent, 0) =~= Seq::<Seq<char>>::empty());
    } else {
        lemma_flow_entries_upto(s, c0, parent, k - 1);
        let e = flow_entries(s, c0, parent, k);
        assert(e.drop_last() =~= flow_entries(s, c0, parent, k - 1));
        assert(e.last() == flow_part(s, c0, parent, k - 1) + flow_sep(s, parent, k - 1));
        let prev = flow_acc(s, c0, parent, k - 1).0;
        assert(flow_acc(s, c0, parent, k).0 =~= prev + (flow_part(s, c0, parent, k - 1) + flow_sep(s, parent, k - 1)));
    }
}

}
