//! Rules for the spacing between adjacent flow children.

use vstd::prelude::*;
use crate::format::{
    code_indented_spec, format_code_as_indented, format_heading_as_setext, heading_setext_spec,
};
use crate::mdast::Node;
use crate::state::State;
use crate::types::{JoinFn, Options};

verus! {

/// Between children of a list or item: no opinion for a paragraph followed by a
/// paragraph, a definition or a setext heading; else one blank line when spread,
/// none when tight.
pub open spec fn spread_join(left: Node, right: Node, spread: bool, o: Options) -> Option<i32> {
    if left is Paragraph && (right is Paragraph || right is Definition || (right matches Node::Heading(
        h,
    ) && heading_setext_spec(h, o))) {
        None
    } else {
        Some(if spread { 1i32 } else { 0i32 })
    }
}

/// The default join rule: indented code cannot follow a list or indented code;
/// children of lists and items follow `spread_join`; no opinion otherwise.
pub open spec fn join_defaults_spec(left: Node, right: Node, parent: Node, o: Options) -> Option<i32> {
    if right matches Node::Code(rc) && code_indented_spec(rc, o) && (left is List || (left matches Node::Code(
        lc,
    ) && code_indented_spec(lc, o))) {
        Some(-1i32)
    } else {
        match parent {
            Node::List(l) => spread_join(left, right, l.spread, o),
            Node::ListItem(i) => spread_join(left, right, i.spread, o),
            _ => None,
        }
    }
}

/// Adjacent definitions are joined without a blank line.
pub open spec fn join_definition_spec(left: Node, right: Node) -> Option<i32> {
    if left is Definition && right is Definition {
        Some(0i32)
    } else {
        None
    }
}

/// What a join function decides for two adjacent children.
pub open spec fn join_spec(j: JoinFn, left: Node, right: Node, parent: Node, o: Options) -> Option<i32> {
    match j {
        JoinFn::Defaults => join_defaults_spec(left, right, parent, o),
        JoinFn::Definition => join_definition_spec(left, right),
    }
}

/// Default join functions.
pub fn default_join() -> (r: Vec<JoinFn>)
    ensures
        r@ == seq![JoinFn::Defaults],
{
    let mut v = Vec::new();
    v.push(JoinFn::Defaults);
    v
}

/// Default join function.
pub fn join_defaults(left: &Node, right: &Node, parent: &Node, state: &State) -> (r: Option<i32>)
    ensures
        r == join_defaults_spec(*left, *right, *parent, state.options),
{
    if let Node::Code(right_code) = right {
        if format_code_as_indented(right_code, state) {
            if let Node::List(_) = left {
                return Some(-1);
            }
            if let Node::Code(left_code) = left {
                if format_code_as_indented(left_code, state) {
                    return Some(-1);
                }
            }
        }
    }
    let spread = match parent {
        Node::List(list) => Some(list.spread),
        Node::ListItem(item) => Some(item.spread),
        _ => None,
    };
    match spread {
        Some(spread) => {
            if let Node::Paragraph(_) = left {
                let is_paragraph_pair = match right {
                    Node::Paragraph(_) => true,
                    _ => false,
                };
                let is_definition = match right {
                    Node::Definition(_) => true,
                    _ => false,
                };
                let is_setext_heading = match right {
                    Node::Heading(h) => format_heading_as_setext(h, state),
                    _ => false,
                };
                if is_paragraph_pair || is_definition || is_setext_heading {
                    return None;
                }
            }
            Some(if spread { 1 } else { 0 })
        },
        None => None,
    }
}

/// Join function for tight definitions.
pub fn join_definition(left: &Node, right: &Node, _parent: &Node, _state: &State) -> (r: Option<i32>)
    ensures
        r == join_definition_spec(*left, *right),
{
    match (left, right) {
        (Node::Definition(_), Node::Definition(_)) => Some(0),
        _ => None,
    }
}

impl JoinFn {
    /// Run this join function.
    pub fn apply(&self, left: &Node, right: &Node, parent: &Node, state: &State) -> (r: Option<i32>)
        ensures
            r == join_spec(*self, *left, *right, *parent, state.options),
    {
        match self {
            JoinFn::Defaults => join_defaults(left, right, parent, state),
            JoinFn::Definition => join_definition(left, right, parent, state),
        }
    }
}

}
