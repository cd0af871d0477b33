//! Image references.

use vstd::prelude::*;
use crate::mdast::{Node, ReferenceKind};
use crate::safe::safe_spec;
use crate::output::{same_trail, cfg_of, ctx_of, opt_node, ser_with, wrote};
use crate::state::{association_spec, preserved, State};
use crate::text::{concat, owned, push_str, substring};
use crate::types::{HandlerFn, ConstructName, Info, SafeConfig, UnsafePattern};

verus! {

/// An image reference: `![`, the alt text made safe, `][`, then the reference
/// and `]` (full), `]` alone (collapsed), or nothing with the `[` dropped
/// (shortcut).
pub open spec fn image_reference_spec(
    ir: crate::mdast::ImageReference,
    ps: Seq<UnsafePattern>,
    st: Seq<ConstructName>,
) -> Seq<char> {
    let st_i = st.push(ConstructName::ImageReference);
    let v = "!["@ + safe_spec(ps, st_i.push(ConstructName::Label), "!["@, ir.alt@, "]"@, Seq::empty())
        + "]["@;
    let reference = safe_spec(
        ps,
        seq![ConstructName::Reference],
        v,
        association_spec(Node::ImageReference(ir)),
        "]"@,
        Seq::empty(),
    );
    match ir.reference_kind {
        ReferenceKind::Full => v + reference + "]"@,
        ReferenceKind::Shortcut => v.drop_last(),
        ReferenceKind::Collapsed => v + "]"@,
    }
}

/// Handle an image reference node.
pub fn handle_image_reference(node: &Node, _parent: Option<&Node>, state: &mut State, info: &Info) -> (r: String)
    ensures
        wrote(
            *final(state),
            r@,
            ser_with(
                cfg_of(*old(state)),
                ctx_of(*old(state)),
                HandlerFn::ImageReference,
                *node,
                opt_node(_parent),
                info.before@,
                info.after@,
            ),
        ),
        preserved(*old(state), *final(state)),
        r@ == match *node {
            Node::ImageReference(ir) => image_reference_spec(ir, old(state).unsafe_patterns@, old(state).stack@),
            _ => Seq::empty(),
        },
{
    match node {
        Node::ImageReference(image_ref) => {
            let ghost s0 = *state;
            state.enter(ConstructName::ImageReference);
            state.enter(ConstructName::Label);
            let mut tracker = state.create_tracker(info);
            proof {
                reveal_strlit("![");
                reveal_strlit("[");
                reveal_strlit("][");
                reveal_strlit("]");
            }
            let mut value = tracker.move_past("![");
            let config = SafeConfig { before: owned(value.as_str()), after: owned("]"), encode: Vec::new() };
            let alt = state.safe(Some(image_ref.alt.as_str()), &config);
            let alt_close = concat(alt.as_str(), "][");
            let moved = tracker.move_past(alt_close.as_str());
            push_str(&mut value, moved.as_str());
            state.exit();
            let ghost v = value@;
            assert(v =~= "!["@ + alt@ + "]["@);
            let mut saved: Vec<ConstructName> = Vec::new();
            std::mem::swap(&mut saved, &mut state.stack);
            state.enter(ConstructName::Reference);
            assert(state.stack@ =~= seq![ConstructName::Reference]);
            let id = state.association_id(node);
            let config = SafeConfig { before: owned(value.as_str()), after: owned("]"), encode: Vec::new() };
            let reference = state.safe(Some(id.as_str()), &config);
            state.exit();
            state.stack = saved;
            state.exit();
            proof {
                assert(state.stack@ =~= s0.stack@);
            }
            let ghost reference_v = reference@;
            match image_ref.reference_kind {
                ReferenceKind::Full => {
                    let tail = concat(reference.as_str(), "]");
                    let moved = tracker.move_past(tail.as_str());
                    push_str(&mut value, moved.as_str());
                },
                ReferenceKind::Shortcut => {
                    let n = value.as_str().unicode_len();
                    value = substring(value.as_str(), 0, n - 1);
                },
                ReferenceKind::Collapsed => {
                    let moved = tracker.move_past("]");
                    push_str(&mut value, moved.as_str());
                },
            }
            proof {
                assert(value@ =~= image_reference_spec(*image_ref, s0.unsafe_patterns@, s0.stack@));
            }
            value
        },
        _ => String::new(),
    }
}

/// Peek function for image reference.
pub fn peek_image_reference(_node: &Node, _parent: Option<&Node>, _state: &mut State, _info: &Info) -> (r: String)
    ensures
        preserved(*old(_state), *final(_state)),
        same_trail(*old(_state), *final(_state)),
        r@ == "!"@,
{
    owned("!")
}


/// A collapsed image reference is written as the shortcut one followed by
/// `[]`: the alt text between `![` and `]`, then an empty label in brackets.
pub proof fn lemma_collapsed_is_shortcut_and_brackets(
    ir: crate::mdast::ImageReference,
    ps: Seq<UnsafePattern>,
    st: Seq<ConstructName>,
)
    ensures
        image_reference_spec(crate::mdast::ImageReference { reference_kind: ReferenceKind::Collapsed, ..ir }, ps, st)
            == image_reference_spec(crate::mdast::ImageReference { reference_kind: ReferenceKind::Shortcut, ..ir }, ps, st)
            + "[]"@,
{
    reveal_strlit("![");
    reveal_strlit("][");
    reveal_strlit("]");
    reveal_strlit("[]");
    let st_i = st.push(ConstructName::ImageReference);
    let v = "!["@ + safe_spec(ps, st_i.push(ConstructName::Label), "!["@, ir.alt@, "]"@, Seq::empty()) + "]["@;
    assert(v.last() == '[');
    assert(v.drop_last() + "[]"@ =~= v + "]"@);
}

}
