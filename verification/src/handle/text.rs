//! Text.

use vstd::prelude::*;
use crate::mdast::Node;
use crate::safe::safe_spec;
use crate::output::{cfg_of, ctx_of, opt_node, ser_with, wrote};
use crate::state::{preserved, State};
use crate::text::owned;
use crate::types::{HandlerFn, Info, SafeConfig};

verus! {

/// Handle a text node: its value made safe between the surrounding characters.
pub fn handle_text(node: &Node, _parent: Option<&Node>, state: &mut State, info: &Info) -> (r: String)
    ensures
        wrote(
            *final(state),
            r@,
            ser_with(
                cfg_of(*old(state)),
                ctx_of(*old(state)),
                HandlerFn::Text,
                *node,
                opt_node(_parent),
                info.before@,
                info.after@,
            ),
        ),
        preserved(*old(state), *final(state)),
        r@ == match *node {
            Node::Text(t) => safe_spec(
                old(state).unsafe_patterns@,
                old(state).stack@,
                info.before@,
                t.value@,
                info.after@,
                Seq::empty(),
            ),
            _ => Seq::empty(),
        },
{
    match node {
        Node::Text(text) => {
            let config = SafeConfig {
                before: owned(info.before.as_str()),
                after: owned(info.after.as_str()),
                encode: Vec::new(),
            };
            state.safe(Some(text.value.as_str()), &config)
        },
        _ => String::new(),
    }
}

}
