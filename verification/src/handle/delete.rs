//! Strikethrough.

use vstd::prelude::*;
use crate::mdast::Node;
use crate::output::{same_trail, cfg_of, ctx_of, opt_node, ser_with, wrote};
use crate::state::{preserved, serializable, State};
use crate::text::{owned, push_str};
use crate::types::{ConstructName, HandlerFn, Info};

verus! {

/// Handle a delete (strikethrough) node: its children between `~~` and `~~`.
pub fn handle_delete(node: &Node, _parent: Option<&Node>, state: &mut State, info: &Info) -> (r: String)
    requires
        serializable(*old(state), *node, HandlerFn::Delete),
    ensures
        wrote(
            *final(state),
            r@,
            ser_with(
                cfg_of(*old(state)),
                ctx_of(*old(state)),
                HandlerFn::Delete,
                *node,
                opt_node(_parent),
                info.before@,
                info.after@,
            ),
        ),
        preserved(*old(state), *final(state)),
    decreases node, 8int,
{
    let ghost s0 = *state;
    let mut tracker = state.create_tracker(info);
    state.enter(ConstructName::Strikethrough);
    let mut value = tracker.move_past("~~");
    let cur = tracker.current();
    let phrasing_info = Info {
        before: owned(value.as_str()),
        after: owned("~"),
        line: cur.line,
        column: cur.column,
        line_shift: cur.line_shift,
    };
    let inner = state.container_phrasing(node, &phrasing_info);
    push_str(&mut value, inner.as_str());
    let closing = tracker.move_past("~~");
    push_str(&mut value, closing.as_str());
    state.exit();
    proof {
        assert(state.stack@ =~= s0.stack@);
        assert(value@ =~= "~~"@ + inner@ + "~~"@);
    }
    value
}

/// Peek function for delete (strikethrough).
pub fn peek_delete(_node: &Node, _parent: Option<&Node>, _state: &mut State, _info: &Info) -> (r: String)
    ensures
        preserved(*old(_state), *final(_state)),
        same_trail(*old(_state), *final(_state)),
        r@ == "~"@,
{
    owned("~")
}

}
