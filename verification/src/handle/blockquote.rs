//! Block quotes.

use vstd::prelude::*;
use crate::indent::{indent_lines_spec, IndentMap, LineMap};
use crate::mdast::Node;
use crate::output::{cfg_of, ctx_of, opt_node, ser_with, wrote};
use crate::state::{preserved, serializable, State};
use crate::types::{ConstructName, HandlerFn, Info};

verus! {

/// Handle a blockquote node: its children as flow, each line prefixed by `>`
/// (and a space when the line is not blank).
pub fn handle_blockquote(node: &Node, _parent: Option<&Node>, state: &mut State, info: &Info) -> (r: String)
    requires
        serializable(*old(state), *node, HandlerFn::Blockquote),
    ensures
        wrote(
            *final(state),
            r@,
            ser_with(
                cfg_of(*old(state)),
                ctx_of(*old(state)),
                HandlerFn::Blockquote,
                *node,
                opt_node(_parent),
                info.before@,
                info.after@,
            ),
        ),
        preserved(*old(state), *final(state)),
    decreases node, 8int,
{
    let ghost s0 = *state;
    state.enter(ConstructName::Blockquote);
    let mut tracker = state.create_tracker(info);
    let _ = tracker.move_past("> ");
    tracker.shift(2);
    let cur = tracker.current();
    let flow_result = state.container_flow(node, &cur);
    let map = IndentMap::Blockquote;
    let value = state.indent_lines(flow_result.as_str(), &map);
    state.exit();
    proof {
        assert(state.stack@ =~= s0.stack@);
    }
    value
}

}
