//! Link references.

use vstd::prelude::*;
use crate::mdast::{Node, ReferenceKind};
use crate::output::{inside, phrasing, trail_of, same_trail, cfg_of, ctx_of, opt_node, ser_with, wrote};
use crate::safe::safe_spec;
use crate::state::{association_spec, preserved, serializable, State};
use crate::text::{concat, owned, push_str, substring};
use crate::types::{ConstructName, HandlerFn, Info, SafeConfig};

verus! {

/// Handle a link reference node: `[`, the text, `][`, then the reference and
/// `]` (full), `]` alone (collapsed), or nothing with the `[` dropped (shortcut).
pub fn handle_link_reference(node: &Node, _parent: Option<&Node>, state: &mut State, info: &Info) -> (r: String)
    requires
        serializable(*old(state), *node, HandlerFn::LinkReference),
    ensures
        wrote(
            *final(state),
            r@,
            ser_with(
                cfg_of(*old(state)),
                ctx_of(*old(state)),
                HandlerFn::LinkReference,
                *node,
                opt_node(_parent),
                info.before@,
                info.after@,
            ),
        ),
        preserved(*old(state), *final(state)),
    decreases node, 8int,
{
    match node {
        Node::LinkReference(link_ref) => {
            let ghost s0 = *state;
            state.enter(ConstructName::LinkReference);
            state.enter(ConstructName::Label);
            let mut tracker = state.create_tracker(info);
            proof {
                reveal_strlit("![");
                reveal_strlit("[");
                reveal_strlit("][");
                reveal_strlit("]");
            }
            let mut value = tracker.move_past("[");
            let cur = tracker.current();
            let text = state.container_phrasing(
                node,
                &Info {
                    before: owned(value.as_str()),
                    after: owned("]"),
                    line: cur.line,
                    column: cur.column,
                    line_shift: cur.line_shift,
                },
            );
            let ghost ph = phrasing(
                cfg_of(s0),
                inside(inside(ctx_of(s0), ConstructName::LinkReference), ConstructName::Label),
                *node,
                "["@,
                "]"@,
            );
            assert(text@ == ph.0);
            assert(trail_of(*state) == ph.1);
            let text_close = concat(text.as_str(), "][");
            let moved = tracker.move_past(text_close.as_str());
            push_str(&mut value, moved.as_str());
            state.exit();
            let mut saved: Vec<ConstructName> = Vec::new();
            std::mem::swap(&mut saved, &mut state.stack);
            state.enter(ConstructName::Reference);
            let id = state.association_id(node);
            let config = SafeConfig { before: owned(value.as_str()), after: owned("]"), encode: Vec::new() };
            assert(state.stack@ =~= seq![ConstructName::Reference]);
            assert(value@ =~= "["@ + ph.0 + "]["@);
            assert(config.encode@ =~= Seq::<char>::empty());
            let reference = state.safe(Some(id.as_str()), &config);
            assert(reference@ == safe_spec(
                cfg_of(s0).unsafe_patterns,
                seq![ConstructName::Reference],
                "["@ + ph.0 + "]["@,
                association_spec(*node),
                "]"@,
                Seq::empty(),
            ));
            state.exit();
            state.stack = saved;
            state.exit();
            proof {
                assert(state.stack@ =~= s0.stack@);
            }
            let ghost head = value@;
            match link_ref.reference_kind {
                ReferenceKind::Full => {
                    let tail = concat(reference.as_str(), "]");
                    let moved = tracker.move_past(tail.as_str());
                    push_str(&mut value, moved.as_str());
                    assert(value@ =~= head + reference@ + "]"@);
                },
                ReferenceKind::Shortcut => {
                    let n = value.as_str().unicode_len();
                    value = substring(value.as_str(), 0, n - 1);
                    assert(value@ =~= head.drop_last());
                },
                ReferenceKind::Collapsed => {
                    let moved = tracker.move_past("]");
                    push_str(&mut value, moved.as_str());
                    assert(value@ =~= head + "]"@);
                },
            }
            assert(trail_of(*state) == ph.1);
            proof {
                assert(value@.len() >= 1 && value@[0] == '[');
                assert(value@ =~= "["@ + value@.skip(1));
            }
            value
        },
        _ => String::new(),
    }
}

/// Peek function for link reference.
pub fn peek_link_reference(_node: &Node, _parent: Option<&Node>, _state: &mut State, _info: &Info) -> (r: String)
    ensures
        preserved(*old(_state), *final(_state)),
        same_trail(*old(_state), *final(_state)),
        r@ == "["@,
{
    owned("[")
}

}
