//! List items.

use vstd::prelude::*;
use crate::check::{check_bullet, valid_bullet, valid_list_item_indent};
use crate::format::check_list_item_indent;
use crate::indent::{indent_lines_spec, IndentMap, LineMap};
use crate::mdast::Node;
use crate::state::{preserved, serializable, State};
use crate::text::{char_string, decimal, decimal_spec, lemma_decimal_u128, owned, push_str, repeat_char, str_eq};
use crate::track::Tracker;
use crate::output::{cfg_of, ser_with, wrote, ctx_of, opt_node, Ctx};
use crate::types::{ConstructName, HandlerFn, Info, Options, TrackFields};

verus! {

/// The marker in use, or the configured bullet when no list set one.
pub open spec fn item_base_bullet(o: Options, c: Ctx) -> Seq<char> {
    match c.current {
        Some(b) => b,
        None => seq![o.bullet],
    }
}

/// The position of the item in its list, as recorded by the enclosing container.
pub open spec fn item_index(c: Ctx) -> nat {
    if c.index.len() > 0 {
        c.index.last() as nat
    } else {
        0
    }
}

/// The bullet of an item: for an item of an ordered list, its number (the
/// start, plus the position when incrementing) followed by the marker.
pub open spec fn item_bullet_spec(o: Options, c: Ctx, parent: Option<Node>) -> Seq<char> {
    match parent {
        Some(Node::List(l)) => if l.ordered {
            let start: nat = match l.start {
                Some(x) => x as nat,
                None => 1,
            };
            let number = if o.increment_list_marker {
                start + item_index(c)
            } else {
                start
            };
            decimal_spec(number) + item_base_bullet(o, c)
        } else {
            item_base_bullet(o, c)
        },
        _ => item_base_bullet(o, c),
    }
}

/// The item or its list is spread.
pub open spec fn spread_spec(node: Node, parent: Option<Node>) -> bool {
    (node matches Node::ListItem(i) && i.spread) || (parent matches Some(Node::List(l)) && l.spread)
}

/// The width of the bullet column: the bullet and a space, rounded up to a tab
/// stop for `tab` indent, or for `mixed` indent of spread items.
pub open spec fn item_size_spec(o: Options, bullet: Seq<char>, node: Node, parent: Option<Node>) -> nat {
    let size = bullet.len() + 1;
    let indent = o.list_item_indent@;
    if indent == "tab"@ || (indent == "mixed"@ && spread_spec(node, parent)) {
        ((size + 3) / 4 * 4) as nat
    } else {
        size as nat
    }
}

fn is_spread(node: &Node, parent: Option<&Node>) -> (r: bool)
    ensures
        r == spread_spec(*node, opt_node(parent)),
{
    match node {
        Node::ListItem(item) => {
            if item.spread {
                return true;
            }
        },
        _ => {},
    }
    match parent {
        Some(Node::List(list)) => list.spread,
        _ => false,
    }
}

/// Handle a list item node: its children as flow, the first line after the
/// bullet and later lines indented by the bullet column.
pub fn handle_list_item(node: &Node, parent: Option<&Node>, state: &mut State, info: &Info) -> (r: String)
    requires
        serializable(*old(state), *node, HandlerFn::ListItem),
    ensures
        wrote(
            *final(state),
            r@,
            ser_with(
                cfg_of(*old(state)),
                ctx_of(*old(state)),
                HandlerFn::ListItem,
                *node,
                opt_node(parent),
                info.before@,
                info.after@,
            ),
        ),
        preserved(*old(state), *final(state)),
    decreases node, 7int,
{
    match node {
        Node::ListItem(_) => {
            let ghost s0 = *state;
            let list_item_indent = check_list_item_indent(state);
            let is_tab = str_eq(list_item_indent, "tab");
            let is_mixed = str_eq(list_item_indent, "mixed");
            let base = match &state.bullet_current {
                Some(b) => owned(b.as_str()),
                None => char_string(check_bullet(&state.options)),
            };
            let mut bullet = owned(base.as_str());
            match parent {
                Some(Node::List(list)) => {
                    if list.ordered {
                        let start: u128 = match list.start {
                            Some(x) => x as u128,
                            None => 1,
                        };
                        let index: u128 = if state.index_stack.len() > 0 {
                            state.index_stack[state.index_stack.len() - 1] as u128
                        } else {
                            0
                        };
                        let number = if state.options.increment_list_marker {
                            start + index
                        } else {
                            start
                        };
                        proof {
                            lemma_decimal_u128(number);
                        }
                        bullet = decimal(number);
                        push_str(&mut bullet, base.as_str());
                    }
                },
                _ => {},
            }
            assert(bullet@ == item_bullet_spec(s0.options, ctx_of(s0), opt_node(parent)));
            let bullet_len = bullet.as_str().unicode_len();
            assert(bullet_len <= 40);
            let mut size = bullet_len + 1;
            if is_tab || (is_mixed && is_spread(node, parent)) {
                size = (size + 3) / 4 * 4;
            }
            proof {
                reveal_strlit("tab");
                reveal_strlit("mixed");
            }
            assert(size == item_size_spec(s0.options, bullet@, *node, opt_node(parent)));
            let mut tracker = Tracker::new(
                &TrackFields { line: info.line, column: info.column, line_shift: info.line_shift },
            );
            let padding = repeat_char(' ', size - bullet_len);
            let mut opening = owned(bullet.as_str());
            push_str(&mut opening, padding.as_str());
            let _ = tracker.move_past(opening.as_str());
            tracker.shift(size);
            state.enter(ConstructName::ListItem);
            let cur = tracker.current();
            let flow_result = state.container_flow(node, &cur);
            let map = IndentMap::ListItem { bullet, size };
            let value = state.indent_lines(flow_result.as_str(), &map);
            state.exit();
            proof {
                assert(state.stack@ =~= s0.stack@);
            }
            value
        },
        _ => String::new(),
    }
}

}
