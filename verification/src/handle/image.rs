//! Images, and the destination and title parts shared with links and definitions.

use vstd::prelude::*;
use crate::check::{check_quote, valid_quote};
use crate::mdast::Node;
use crate::regex_ext::regex_is_match;
use crate::safe::safe_spec;
use crate::output::{same_trail, cfg_of, ctx_of, opt_node, ser_with, wrote};
use crate::state::{preserved, State};
use crate::text::{char_string, owned, push_char, push_str};
use crate::track::Tracker;
use crate::types::{HandlerFn, ConstructName, Info, SafeConfig, UnsafePattern};

verus! {

/// The expression for characters that a raw destination cannot hold.
pub const CONTROL_OR_SPACE: &'static str = "[\\x00-\\x20\\x7F]";

/// Some character of `s` is a control character or a space: what
/// `CONTROL_OR_SPACE` finds.
pub open spec fn has_control_or_space(s: Seq<char>) -> bool {
    exists|i: int| 0 <= i < s.len() && ((#[trigger] s[i]) <= ' ' || s[i] == '\x7f')
}

/// The construct of a title in the given quote.
pub open spec fn title_construct(q: char) -> ConstructName {
    if q == '"' {
        ConstructName::TitleQuote
    } else {
        ConstructName::TitleApostrophe
    }
}

/// `prefix` followed by the destination `url`: between `<` and `>` when
/// `angle`, else raw, followed by a space when a title comes, else by `end_raw`.
pub open spec fn destination_part(
    ps: Seq<UnsafePattern>,
    st: Seq<ConstructName>,
    prefix: Seq<char>,
    url: Seq<char>,
    has_title: bool,
    angle: bool,
    end_raw: Seq<char>,
) -> Seq<char> {
    if angle {
        let p2 = prefix + "<"@;
        p2 + safe_spec(ps, st.push(ConstructName::DestinationLiteral), p2, url, ">"@, Seq::empty())
            + ">"@
    } else {
        prefix + safe_spec(
            ps,
            st.push(ConstructName::DestinationRaw),
            prefix,
            url,
            if has_title { " "@ } else { end_raw },
            Seq::empty(),
        )
    }
}

/// `prefix` followed by the title, if any: a space, the quote, the title made
/// safe, the quote.
pub open spec fn title_part(
    ps: Seq<UnsafePattern>,
    st: Seq<ConstructName>,
    prefix: Seq<char>,
    title: Option<String>,
    q: char,
) -> Seq<char> {
    match title {
        Some(t) => {
            let p2 = prefix + seq![' ', q];
            p2 + safe_spec(ps, st.push(title_construct(q)), p2, t@, seq![q], Seq::empty()) + seq![q]
        },
        None => prefix,
    }
}

/// Append a destination to `value`.
pub fn push_destination(
    state: &mut State,
    value: &mut String,
    tracker: &mut Tracker,
    url: &str,
    has_title: bool,
    angle: bool,
    end_raw: &str,
)
    ensures
        preserved(*old(state), *final(state)),
        final(state).attention_encode_surrounding_info == old(state).attention_encode_surrounding_info,
        final(state).bullet_last_used == old(state).bullet_last_used,
        final(value)@ == destination_part(
            old(state).unsafe_patterns@,
            old(state).stack@,
            old(value)@,
            url@,
            has_title,
            angle,
            end_raw@,
        ),
{
    let ghost s0 = *state;
    if angle {
        state.enter(ConstructName::DestinationLiteral);
        let open = tracker.move_past("<");
        push_str(value, open.as_str());
        let config = SafeConfig { before: owned(value.as_str()), after: owned(">"), encode: Vec::new() };
        let safe_url = state.safe(Some(url), &config);
        let moved = tracker.move_past(safe_url.as_str());
        push_str(value, moved.as_str());
        let close = tracker.move_past(">");
        push_str(value, close.as_str());
    } else {
        state.enter(ConstructName::DestinationRaw);
        let after = if has_title { owned(" ") } else { owned(end_raw) };
        let config = SafeConfig { before: owned(value.as_str()), after, encode: Vec::new() };
        let safe_url = state.safe(Some(url), &config);
        let moved = tracker.move_past(safe_url.as_str());
        push_str(value, moved.as_str());
    }
    state.exit();
    proof {
        assert(state.stack@ =~= s0.stack@);
    }
}

/// Append a title (if any) to `value`.
pub fn push_title(state: &mut State, value: &mut String, tracker: &mut Tracker, title: &Option<String>, quote: char)
    ensures
        preserved(*old(state), *final(state)),
        final(state).attention_encode_surrounding_info == old(state).attention_encode_surrounding_info,
        final(state).bullet_last_used == old(state).bullet_last_used,
        final(value)@ == title_part(
            old(state).unsafe_patterns@,
            old(state).stack@,
            old(value)@,
            *title,
            quote,
        ),
{
    let ghost s0 = *state;
    match title {
        Some(t) => {
            let construct = if quote == '"' {
                ConstructName::TitleQuote
            } else {
                ConstructName::TitleApostrophe
            };
            state.enter(construct);
            let mut open = owned(" ");
            push_char(&mut open, quote);
            proof {
                reveal_strlit(" ");
                assert(open@ =~= seq![' ', quote]);
            }
            let ghost v0 = value@;
            let moved = tracker.move_past(open.as_str());
            push_str(value, moved.as_str());
            let ghost p2 = value@;
            assert(p2 == v0 + seq![' ', quote]);
            let config = SafeConfig {
                before: owned(value.as_str()),
                after: char_string(quote),
                encode: Vec::new(),
            };
            let safe_title = state.safe(Some(t.as_str()), &config);
            let moved = tracker.move_past(safe_title.as_str());
            push_str(value, moved.as_str());
            let ghost safe_v = safe_title@;
            let q = char_string(quote);
            let moved = tracker.move_past(q.as_str());
            push_str(value, moved.as_str());
            state.exit();
            proof {
                assert(state.stack@ =~= s0.stack@);
                assert(safe_v == safe_spec(s0.unsafe_patterns@, s0.stack@.push(crate::handle::image::title_construct(quote)), p2, t@, seq![quote], Seq::empty()));
                assert(value@ =~= p2 + safe_v + seq![quote]);
            }
        },
        None => {},
    }
}

/// An image: `![`, the alt text made safe, `](`, the destination, the title,
/// and `)`.
pub open spec fn image_spec(
    img: crate::mdast::Image,
    q: char,
    ps: Seq<UnsafePattern>,
    st: Seq<ConstructName>,
) -> Seq<char> {
    let st_img = st.push(ConstructName::Image);
    let v1 = "!["@ + safe_spec(ps, st_img.push(ConstructName::Label), "!["@, img.alt@, "]"@, Seq::empty())
        + "]("@;
    let angle = (img.url@.len() == 0 && img.title is Some) || has_control_or_space(img.url@);
    let v2 = destination_part(ps, st_img, v1, img.url@, img.title is Some, angle, ")"@);
    title_part(ps, st_img, v2, img.title, q) + ")"@
}

/// Handle an image node.
pub fn handle_image(node: &Node, _parent: Option<&Node>, state: &mut State, info: &Info) -> (r: String)
    requires
        node is Image ==> valid_quote(old(state).options.quote),
    ensures
        wrote(
            *final(state),
            r@,
            ser_with(
                cfg_of(*old(state)),
                ctx_of(*old(state)),
                HandlerFn::Image,
                *node,
                opt_node(_parent),
                info.before@,
                info.after@,
            ),
        ),
        preserved(*old(state), *final(state)),
        r@ == match *node {
            Node::Image(img) => image_spec(img, old(state).options.quote, old(state).unsafe_patterns@, old(state).stack@),
            _ => Seq::empty(),
        },
{
    match node {
        Node::Image(image) => {
            let ghost s0 = *state;
            let quote = check_quote(&state.options);
            state.enter(ConstructName::Image);
            state.enter(ConstructName::Label);
            let mut tracker = state.create_tracker(info);
            let mut value = tracker.move_past("![");
            let config = SafeConfig { before: owned(value.as_str()), after: owned("]"), encode: Vec::new() };
            let safe_alt = state.safe(Some(image.alt.as_str()), &config);
            let moved = tracker.move_past(safe_alt.as_str());
            push_str(&mut value, moved.as_str());
            let moved = tracker.move_past("](");
            push_str(&mut value, moved.as_str());
            state.exit();
            let angle = (image.url.as_str().unicode_len() == 0 && image.title.is_some())
                || regex_is_match(CONTROL_OR_SPACE, image.url.as_str());
            proof {
                assert(state.stack@ =~= s0.stack@.push(ConstructName::Image));
            }
            push_destination(state, &mut value, &mut tracker, image.url.as_str(), image.title.is_some(), angle, ")");
            push_title(state, &mut value, &mut tracker, &image.title, quote);
            let close = tracker.move_past(")");
            push_str(&mut value, close.as_str());
            state.exit();
            proof {
                assert(state.stack@ =~= s0.stack@);
            }
            value
        },
        _ => String::new(),
    }
}

/// Peek function for image.
pub fn peek_image(_node: &Node, _parent: Option<&Node>, _state: &mut State, _info: &Info) -> (r: String)
    ensures
        preserved(*old(_state), *final(_state)),
        same_trail(*old(_state), *final(_state)),
        r@ == "!"@,
{
    owned("!")
}

}
