//! The root.

use vstd::prelude::*;
use crate::format::{is_phrasing, is_phrasing_spec};
use crate::mdast::{node_children, Node};
use crate::output::{cfg_of, ctx_of, has_phrasing_child, opt_node, ser_with, wrote};
use crate::state::{preserved, serializable, State};
use crate::types::{HandlerFn, Info, TrackFields};

verus! {

/// Handle a root node: its children as phrasing when one of them is phrasing,
/// else as flow.
pub fn handle_root(node: &Node, _parent: Option<&Node>, state: &mut State, info: &Info) -> (r: String)
    requires
        serializable(*old(state), *node, HandlerFn::Root),
    ensures
        wrote(
            *final(state),
            r@,
            ser_with(
                cfg_of(*old(state)),
                ctx_of(*old(state)),
                HandlerFn::Root,
                *node,
                opt_node(_parent),
                info.before@,
                info.after@,
            ),
        ),
        preserved(*old(state), *final(state)),
    decreases node, 8int,
{
    match node {
        Node::Root(root) => {
            let mut has_phrasing = false;
            let mut i: usize = 0;
            while i < root.children.len()
                invariant
                    i <= root.children.len(),
                    has_phrasing == exists|j: int| 0 <= j < i && #[trigger] is_phrasing_spec(root.children@[j]),
                decreases root.children.len() - i,
            {
                if is_phrasing(&root.children[i]) {
                    has_phrasing = true;
                }
                i += 1;
            }
            proof {
                assert(node_children(*node) == root.children@);
                if has_phrasing {
                    assert(has_phrasing_child(*node));
                } else {
                    assert(!has_phrasing_child(*node));
                }
            }
            if has_phrasing {
                state.container_phrasing(node, info)
            } else {
                let track_fields = TrackFields {
                    line: info.line,
                    column: info.column,
                    line_shift: info.line_shift,
                };
                state.container_flow(node, &track_fields)
            }
        },
        _ => String::new(),
    }
}

}
