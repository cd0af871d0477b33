//! Strong.

use vstd::prelude::*;
use crate::check::check_strong;
use crate::format::encode_info;
use crate::handle::emphasis::{encode_head, encode_tail};
use crate::mdast::Node;
use crate::output::{same_trail, cfg_of, ctx_of, opt_node, ser_with, wrote};
use crate::state::{preserved, serializable, State};
use crate::text::{char_string, concat, first_char, last_char, owned, push_str};
use crate::types::{ConstructName, EncodeSurrounding, HandlerFn, Info};

verus! {

/// Handle a strong node: its children between two double markers; characters
/// at the edges that would stop the markers from working are encoded.
#[verifier::rlimit(40)]
pub fn handle_strong(node: &Node, _parent: Option<&Node>, state: &mut State, info: &Info) -> (r: String)
    requires
        serializable(*old(state), *node, HandlerFn::Strong),
    ensures
        wrote(
            *final(state),
            r@,
            ser_with(
                cfg_of(*old(state)),
                ctx_of(*old(state)),
                HandlerFn::Strong,
                *node,
                opt_node(_parent),
                info.before@,
                info.after@,
            ),
        ),
        preserved(*old(state), *final(state)),
    decreases node, 8int,
{
    let ghost s0 = *state;
    let marker = check_strong(&state.options);
    let marker_str = char_string(marker);
    let double_marker = concat(marker_str.as_str(), marker_str.as_str());
    assert(double_marker@ =~= seq![marker, marker]);
    state.enter(ConstructName::Strong);
    let mut tracker = state.create_tracker(info);
    let before = tracker.move_past(double_marker.as_str());
    let cur = tracker.current();
    let phrasing_info = Info {
        before: owned(before.as_str()),
        after: owned(marker_str.as_str()),
        line: cur.line,
        column: cur.column,
        line_shift: cur.line_shift,
    };
    let v = state.container_phrasing(node, &phrasing_info);
    let mut between = tracker.move_past(v.as_str());
    let between_head = first_char(between.as_str());
    let info_before_last = last_char(info.before.as_str());
    let open = encode_info(info_before_last, between_head, marker);
    if open.inside {
        match between_head {
            Some(head) => {
                between = encode_head(between.as_str(), head);
            },
            None => {},
        }
    }
    let between_tail = last_char(between.as_str());
    let info_after_first = first_char(info.after.as_str());
    let close = encode_info(info_after_first, between_tail, marker);
    if close.inside {
        match between_tail {
            Some(tail) => {
                between = encode_tail(between.as_str(), tail);
            },
            None => {},
        }
    }
    let after = tracker.move_past(double_marker.as_str());
    state.exit();
    state.attention_encode_surrounding_info = Some(
        EncodeSurrounding { after: close.outside, before: open.outside },
    );
    let mut out = before;
    push_str(&mut out, between.as_str());
    push_str(&mut out, after.as_str());
    proof {
        assert(state.stack@ =~= s0.stack@);
        assert(out@ =~= seq![marker, marker] + between@ + seq![marker, marker]);
    }
    out
}

/// Peek function for strong: its marker.
pub fn peek_strong(_node: &Node, _parent: Option<&Node>, state: &mut State, _info: &Info) -> (r: String)
    ensures
        preserved(*old(state), *final(state)),
        same_trail(*old(state), *final(state)),
        r@ == seq![old(state).options.strong],
{
    char_string(state.options.strong)
}

}
