//! Paragraphs.

use vstd::prelude::*;
use crate::mdast::Node;
use crate::output::{cfg_of, ctx_of, opt_node, ser_with, wrote};
use crate::state::{preserved, serializable, State};
use crate::types::{ConstructName, HandlerFn, Info};

verus! {

/// Handle a paragraph node: its children as phrasing.
pub fn handle_paragraph(node: &Node, _parent: Option<&Node>, state: &mut State, info: &Info) -> (r: String)
    requires
        serializable(*old(state), *node, HandlerFn::Paragraph),
    ensures
        wrote(
            *final(state),
            r@,
            ser_with(
                cfg_of(*old(state)),
                ctx_of(*old(state)),
                HandlerFn::Paragraph,
                *node,
                opt_node(_parent),
                info.before@,
                info.after@,
            ),
        ),
        preserved(*old(state), *final(state)),
    decreases node, 8int,
{
    let ghost s0 = *state;
    state.enter(ConstructName::Paragraph);
    state.enter(ConstructName::Phrasing);
    let value = state.container_phrasing(node, info);
    state.exit();
    state.exit();
    proof {
        assert(state.stack@ =~= s0.stack@);
    }
    value
}

}
