//! Definitions.

use vstd::prelude::*;
use crate::check::{check_quote, valid_quote};
use crate::handle::image::{destination_part, has_control_or_space, push_destination, push_title, title_part, CONTROL_OR_SPACE};
use crate::mdast::Node;
use crate::regex_ext::regex_is_match;
use crate::safe::safe_spec;
use crate::output::{cfg_of, ctx_of, opt_node, ser_with, wrote};
use crate::state::{association_spec, preserved, State};
use crate::text::{owned, push_str};
use crate::types::{HandlerFn, ConstructName, Info, SafeConfig, UnsafePattern};

verus! {

/// A definition: `[`, the identifier made safe, `]: `, the destination (between
/// `<` and `>` when empty or holding spaces or controls), and the title.
pub open spec fn definition_spec(
    d: crate::mdast::Definition,
    q: char,
    ps: Seq<UnsafePattern>,
    st: Seq<ConstructName>,
) -> Seq<char> {
    let st_d = st.push(ConstructName::Definition);
    let id = association_spec(Node::Definition(d));
    let v1 = "["@ + safe_spec(ps, st_d.push(ConstructName::Label), "["@, id, "]"@, Seq::empty()) + "]: "@;
    let angle = d.url@.len() == 0 || has_control_or_space(d.url@);
    let v2 = destination_part(ps, st_d, v1, d.url@, d.title is Some, angle, "\n"@);
    title_part(ps, st_d, v2, d.title, q)
}

/// Handle a definition node.
pub fn handle_definition(node: &Node, _parent: Option<&Node>, state: &mut State, info: &Info) -> (r: String)
    requires
        node is Definition ==> valid_quote(old(state).options.quote),
    ensures
        wrote(
            *final(state),
            r@,
            ser_with(
                cfg_of(*old(state)),
                ctx_of(*old(state)),
                HandlerFn::Definition,
                *node,
                opt_node(_parent),
                info.before@,
                info.after@,
            ),
        ),
        preserved(*old(state), *final(state)),
        r@ == match *node {
            Node::Definition(d) => definition_spec(d, old(state).options.quote, old(state).unsafe_patterns@, old(state).stack@),
            _ => Seq::empty(),
        },
{
    match node {
        Node::Definition(def) => {
            let ghost s0 = *state;
            let quote = check_quote(&state.options);
            state.enter(ConstructName::Definition);
            state.enter(ConstructName::Label);
            let mut tracker = state.create_tracker(info);
            let mut value = tracker.move_past("[");
            let id = state.association_id(node);
            let config = SafeConfig { before: owned(value.as_str()), after: owned("]"), encode: Vec::new() };
            let safe_id = state.safe(Some(id.as_str()), &config);
            let moved = tracker.move_past(safe_id.as_str());
            push_str(&mut value, moved.as_str());
            let moved = tracker.move_past("]: ");
            push_str(&mut value, moved.as_str());
            state.exit();
            let angle = def.url.as_str().unicode_len() == 0 || regex_is_match(CONTROL_OR_SPACE, def.url.as_str());
            proof {
                assert(state.stack@ =~= s0.stack@.push(ConstructName::Definition));
            }
            push_destination(state, &mut value, &mut tracker, def.url.as_str(), def.title.is_some(), angle, "\n");
            push_title(state, &mut value, &mut tracker, &def.title, quote);
            state.exit();
            proof {
                assert(state.stack@ =~= s0.stack@);
            }
            value
        },
        _ => String::new(),
    }
}

}
