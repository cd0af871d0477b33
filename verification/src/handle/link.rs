//! Links.

use vstd::prelude::*;
use crate::check::check_quote;
use crate::format::{format_link_as_autolink, link_autolink_spec};
use crate::handle::image::{push_destination, push_title, CONTROL_OR_SPACE};
use crate::mdast::Node;
use crate::regex_ext::regex_is_match;
use crate::output::{phrasing, trail_of, inside, Ctx, same_trail, cfg_of, ctx_of, opt_node, ser_with, wrote};
use crate::state::{preserved, serializable, State};
use crate::text::{owned, push_str};
use crate::types::{ConstructName, HandlerFn, Info};

verus! {

/// Handle a link node: as an autolink (`<`, the text, `>`) when it can be one,
/// else as `[`, the text, `](`, the destination, the title, and `)`.
pub fn handle_link(node: &Node, _parent: Option<&Node>, state: &mut State, info: &Info) -> (r: String)
    requires
        serializable(*old(state), *node, HandlerFn::Link),
    ensures
        wrote(
            *final(state),
            r@,
            ser_with(
                cfg_of(*old(state)),
                ctx_of(*old(state)),
                HandlerFn::Link,
                *node,
                opt_node(_parent),
                info.before@,
                info.after@,
            ),
        ),
        preserved(*old(state), *final(state)),
    decreases node, 8int,
{
    match node {
        Node::Link(link) => {
            let ghost s0 = *state;
            let quote = check_quote(&state.options);
            let mut tracker = state.create_tracker(info);
            if format_link_as_autolink(link, state) {
                let mut saved: Vec<ConstructName> = Vec::new();
                std::mem::swap(&mut saved, &mut state.stack);
                state.enter(ConstructName::Autolink);
                let mut value = tracker.move_past("<");
                proof {
                    reveal_strlit("<");
                    reveal_strlit(">");
                }
                assert(ctx_of(*state) =~= Ctx { stack: seq![ConstructName::Autolink], ..ctx_of(s0) });
                assert(cfg_of(*state) == cfg_of(s0));
                let cur = tracker.current();
                let phrasing_info = Info {
                    before: owned(value.as_str()),
                    after: owned(">"),
                    line: cur.line,
                    column: cur.column,
                    line_shift: cur.line_shift,
                };
                let inner = state.container_phrasing(node, &phrasing_info);
                let moved = tracker.move_past(inner.as_str());
                push_str(&mut value, moved.as_str());
                let close = tracker.move_past(">");
                push_str(&mut value, close.as_str());
                state.exit();
                state.stack = saved;
                proof {
                    assert(value@ =~= "<"@ + inner@ + ">"@);
                }
                return value;
            }
            state.enter(ConstructName::Link);
            state.enter(ConstructName::Label);
            let mut value = tracker.move_past("[");
            proof {
                reveal_strlit("[");
                reveal_strlit(")");
            }
            assert(ctx_of(*state) =~= inside(inside(ctx_of(s0), ConstructName::Link), ConstructName::Label));
            let cur = tracker.current();
            let phrasing_info = Info {
                before: owned(value.as_str()),
                after: owned("]("),
                line: cur.line,
                column: cur.column,
                line_shift: cur.line_shift,
            };
            let inner = state.container_phrasing(node, &phrasing_info);
            let ghost ph = phrasing(
                cfg_of(s0),
                inside(inside(ctx_of(s0), ConstructName::Link), ConstructName::Label),
                *node,
                "["@,
                "]("@,
            );
            assert(inner@ == ph.0);
            assert(trail_of(*state) == ph.1);
            let moved = tracker.move_past(inner.as_str());
            push_str(&mut value, moved.as_str());
            let moved = tracker.move_past("](");
            push_str(&mut value, moved.as_str());
            state.exit();
            let url = link.url.as_str();
            let needs_angle = (url.unicode_len() > 0 && link.title.is_some() && url.unicode_len() == 0)
                || regex_is_match(CONTROL_OR_SPACE, url);
            let angle = (url.unicode_len() == 0 && link.title.is_some()) || needs_angle;
            let ghost before_dest = value@;
            push_destination(state, &mut value, &mut tracker, url, link.title.is_some(), angle, ")");
            assert(before_dest =~= "["@ + ph.0 + "]("@);
            assert(state.stack@ == s0.stack@.push(ConstructName::Link));
            push_title(state, &mut value, &mut tracker, &link.title, quote);
            let close = tracker.move_past(")");
            push_str(&mut value, close.as_str());
            state.exit();
            assert(trail_of(*state) == ph.1);
            proof {
                assert(state.stack@ =~= s0.stack@);
                assert(value@.len() >= 2 && value@[0] == '[' && value@.last() == ')');
                assert(value@ =~= "["@ + value@.subrange(1, value@.len() - 1) + ")"@);
            }
            value
        },
        _ => String::new(),
    }
}

/// Peek function for link: `<` for an autolink, else `[`.
pub fn peek_link(node: &Node, _parent: Option<&Node>, state: &mut State, _info: &Info) -> (r: String)
    ensures
        preserved(*old(state), *final(state)),
        same_trail(*old(state), *final(state)),
        r@ == if (*node matches Node::Link(l) && link_autolink_spec(l, old(state).options)) {
            "<"@
        } else {
            "["@
        },
{
    match node {
        Node::Link(link) => {
            if format_link_as_autolink(link, state) {
                owned("<")
            } else {
                owned("[")
            }
        },
        _ => owned("["),
    }
}

}
