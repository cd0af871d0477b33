//! Lists.

use vstd::prelude::*;
use crate::check::{bullet_other_spec, check_bullet, check_bullet_ordered, check_bullet_other, check_rule};
use crate::mdast::{List, Node};
use crate::state::{preserved, serializable, State};
use crate::text::{char_string, str_eq};
use crate::output::{cfg_of, ctx_of, opt_node, ser_with, wrote, Ctx};
use crate::types::{construct_eq, same_construct, ConstructName, HandlerFn, Info, Options, TrackFields};

verus! {

/// The list is the first child of a first item of a list that is itself the
/// first child of a first item: the construct stack ends in item, list, item,
/// list, and the last three indices are 0.
pub open spec fn nested_first(st: Seq<ConstructName>, ix: Seq<usize>) -> bool {
    &&& st.len() >= 4
    &&& same_construct(st[st.len() - 1], ConstructName::List)
    &&& same_construct(st[st.len() - 2], ConstructName::ListItem)
    &&& same_construct(st[st.len() - 3], ConstructName::List)
    &&& same_construct(st[st.len() - 4], ConstructName::ListItem)
    &&& ix.len() >= 3
    &&& ix[ix.len() - 1] == 0
    &&& ix[ix.len() - 2] == 0
    &&& ix[ix.len() - 3] == 0
}

/// A list item whose first child is a thematic break.
pub open spec fn item_starts_with_break(n: Node) -> bool {
    n matches Node::ListItem(i) && i.children@.len() > 0 && i.children@[0] is ThematicBreak
}

/// The marker a list uses: the configured one, or the other one when the
/// previous list (a sibling) used the same one, when an empty first item in a
/// nested first list would read as a thematic break, or when an item starts
/// with a thematic break made of the same marker.
pub open spec fn list_marker_spec(o: Options, c: Ctx, l: List, has_parent: bool) -> char {
    let bullet = if l.ordered { o.bullet_ordered } else { o.bullet };
    let other = if l.ordered {
        if bullet == '.' { ')' } else { '.' }
    } else {
        bullet_other_spec(o)
    };
    let last_same = has_parent && c.last_used == Some(seq![bullet]);
    let empty_first = !l.ordered && (bullet == '*' || bullet == '-') && l.children@.len() > 0
        && (l.children@[0] matches Node::ListItem(i) && i.children@.len() == 0) && nested_first(
        c.stack.push(ConstructName::List),
        c.index,
    );
    let rule_clash = !l.ordered && o.rule == bullet && exists|k: int|
        0 <= k < l.children@.len() && #[trigger] item_starts_with_break(l.children@[k]);
    if last_same || empty_first || rule_clash {
        other
    } else {
        bullet
    }
}

fn is_nested_first(state: &State) -> (r: bool)
    ensures
        r == nested_first(state.stack@, state.index_stack@),
{
    let st = &state.stack;
    let ix = &state.index_stack;
    let n = st.len();
    let m = ix.len();
    n >= 4 && construct_eq(&st[n - 1], &ConstructName::List) && construct_eq(&st[n - 2], &ConstructName::ListItem)
        && construct_eq(&st[n - 3], &ConstructName::List) && construct_eq(&st[n - 4], &ConstructName::ListItem)
        && m >= 3 && ix[m - 1] == 0 && ix[m - 2] == 0 && ix[m - 3] == 0
}

/// Whether some item of the list starts with a thematic break.
fn any_item_starts_with_break(list: &List) -> (r: bool)
    ensures
        r == exists|k: int| 0 <= k < list.children@.len() && #[trigger] item_starts_with_break(list.children@[k]),
{
    let mut k: usize = 0;
    while k < list.children.len()
        invariant
            k <= list.children.len(),
            forall|j: int| 0 <= j < k ==> !#[trigger] item_starts_with_break(list.children@[j]),
        decreases list.children.len() - k,
    {
        let starts = match &list.children[k] {
            Node::ListItem(item) => item.children.len() > 0 && match &item.children[0] {
                Node::ThematicBreak(_) => true,
                _ => false,
            },
            _ => false,
        };
        if starts {
            assert(item_starts_with_break(list.children@[k as int]));
            return true;
        }
        k += 1;
    }
    false
}

/// Handle a list node: its items as flow, with the marker `list_marker_spec`
/// picks, which is then recorded as the last one used.
pub fn handle_list(node: &Node, parent: Option<&Node>, state: &mut State, info: &Info) -> (r: String)
    requires
        serializable(*old(state), *node, HandlerFn::List),
    ensures
        wrote(
            *final(state),
            r@,
            ser_with(
                cfg_of(*old(state)),
                ctx_of(*old(state)),
                HandlerFn::List,
                *node,
                opt_node(parent),
                info.before@,
                info.after@,
            ),
        ),
        preserved(*old(state), *final(state)),
    decreases node, 8int,
{
    match node {
        Node::List(list) => {
            let ghost s0 = *state;
            state.enter(ConstructName::List);
            let mut saved_current: Option<String> = None;
            std::mem::swap(&mut saved_current, &mut state.bullet_current);
            let bullet = if list.ordered {
                check_bullet_ordered(&state.options)
            } else {
                check_bullet(&state.options)
            };
            let bullet_other = if list.ordered {
                if bullet == '.' {
                    ')'
                } else {
                    '.'
                }
            } else {
                check_bullet_other(&state.options)
            };
            let bullet_str = char_string(bullet);
            let last_same = parent.is_some() && match &state.bullet_last_used {
                Some(last) => str_eq(bullet_str.as_str(), last.as_str()),
                None => false,
            };
            let mut empty_first = false;
            let mut rule_clash = false;
            if !list.ordered {
                if bullet == '*' || bullet == '-' {
                    if list.children.len() > 0 {
                        match &list.children[0] {
                            Node::ListItem(first_item) => {
                                if first_item.children.len() == 0 && is_nested_first(state) {
                                    empty_first = true;
                                }
                            },
                            _ => {},
                        }
                    }
                }
                let rule = check_rule(&state.options);
                if rule == bullet {
                    rule_clash = any_item_starts_with_break(list);
                }
            }
            let chosen = if last_same || empty_first || rule_clash {
                bullet_other
            } else {
                bullet
            };
            proof {
                assert(state.stack@ == s0.stack@.push(ConstructName::List));
                assert(chosen == list_marker_spec(s0.options, ctx_of(s0), *list, parent is Some));
            }
            state.bullet_current = Some(char_string(chosen));
            let track_fields = TrackFields { line: info.line, column: info.column, line_shift: info.line_shift };
            let value = state.container_flow(node, &track_fields);
            state.bullet_last_used = Some(char_string(chosen));
            state.bullet_current = saved_current;
            state.exit();
            proof {
                assert(state.stack@ =~= s0.stack@);
            }
            value
        },
        _ => String::new(),
    }
}

}
