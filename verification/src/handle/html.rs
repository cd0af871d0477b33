//! Html.

use vstd::prelude::*;
use crate::mdast::Node;
use crate::output::{same_trail, cfg_of, ctx_of, opt_node, ser_with, wrote};
use crate::state::{preserved, State};
use crate::text::owned;
use crate::types::{HandlerFn, Info};

verus! {

/// Handle an html node: its value as is.
pub fn handle_html(node: &Node, _parent: Option<&Node>, _state: &mut State, _info: &Info) -> (r: String)
    ensures
        wrote(
            *final(_state),
            r@,
            ser_with(
                cfg_of(*old(_state)),
                ctx_of(*old(_state)),
                HandlerFn::Html,
                *node,
                opt_node(_parent),
                _info.before@,
                _info.after@,
            ),
        ),
        preserved(*old(_state), *final(_state)),
        r@ == match *node {
            Node::Html(h) => h.value@,
            _ => Seq::empty(),
        },
{
    match node {
        Node::Html(html) => owned(html.value.as_str()),
        _ => String::new(),
    }
}

/// Peek function for html.
pub fn peek_html(_node: &Node, _parent: Option<&Node>, _state: &mut State, _info: &Info) -> (r: String)
    ensures
        preserved(*old(_state), *final(_state)),
        same_trail(*old(_state), *final(_state)),
        r@ == "<"@,
{
    owned("<")
}

}
