//! Headings.

use vstd::prelude::*;
use vstd::utf8::encode_utf8;
use crate::format::{format_heading_as_setext, heading_setext_spec};
use crate::handle::emphasis::encode_head;
use crate::mdast::Node;
use crate::safe::char_ref_spec;
use crate::output::{cfg_of, ctx_of, opt_node, ser_with, wrote};
use crate::state::{preserved, serializable, State};
use crate::text::{concat, first_char, owned, push_str, repeat_char, repeat_spec, substring};
use crate::track::is_eol;
use crate::types::{ConstructName, HandlerFn, Info};

verus! {

/// The heading rank: the depth clamped to 1..=6.
pub open spec fn heading_rank(depth: u8) -> nat {
    if depth < 1 {
        1
    } else if depth > 6 {
        6
    } else {
        depth as nat
    }
}

/// Where the text after the last line ending in the first `k` characters starts.
pub open spec fn tail_start(v: Seq<char>, k: int) -> int
    decreases k,
{
    if k <= 0 || k > v.len() {
        0
    } else if is_eol(v[k - 1]) {
        k
    } else {
        tail_start(v, k - 1)
    }
}

/// A setext heading: the content, a line ending, and an underline (`=` for
/// rank 1, `-` else) as long, in bytes, as the content's last line.
pub open spec fn setext_spec(v: Seq<char>, rank: nat) -> Seq<char> {
    let tail = v.subrange(tail_start(v, v.len() as int), v.len() as int);
    v + "\n"@ + repeat_spec(if rank == 1 { '=' } else { '-' }, (encode_utf8(tail).len() as usize) as nat)
}

/// The content with a leading space or tab encoded.
pub open spec fn lead_encoded(v: Seq<char>) -> Seq<char> {
    if v.len() > 0 && (v[0] == '\t' || v[0] == ' ') {
        char_ref_spec((v[0] as u32) as nat) + v.skip(1)
    } else {
        v
    }
}

/// An ATX heading: `rank` number signs, then a space and the content when there
/// is content, then a space and the number signs again when closing.
pub open spec fn atx_spec(v: Seq<char>, rank: nat, close: bool) -> Seq<char> {
    let sequence = repeat_spec('#', rank);
    let content = lead_encoded(v);
    let open = if content.len() == 0 {
        sequence
    } else {
        sequence + " "@ + content
    };
    if close {
        open + " "@ + sequence
    } else {
        open
    }
}

/// Handle a heading node.
pub fn handle_heading(node: &Node, _parent: Option<&Node>, state: &mut State, info: &Info) -> (r: String)
    requires
        serializable(*old(state), *node, HandlerFn::Heading),
    ensures
        wrote(
            *final(state),
            r@,
            ser_with(
                cfg_of(*old(state)),
                ctx_of(*old(state)),
                HandlerFn::Heading,
                *node,
                opt_node(_parent),
                info.before@,
                info.after@,
            ),
        ),
        preserved(*old(state), *final(state)),
    decreases node, 8int,
{
    match node {
        Node::Heading(heading) => {
            let ghost s0 = *state;
            let rank: usize = if heading.depth < 1 {
                1
            } else if heading.depth > 6 {
                6
            } else {
                heading.depth as usize
            };
            let mut tracker = state.create_tracker(info);
            if format_heading_as_setext(heading, state) {
                state.enter(ConstructName::HeadingSetext);
                state.enter(ConstructName::Phrasing);
                let cur = tracker.current();
                let value = state.container_phrasing(
                    node,
                    &Info {
                        before: owned("\n"),
                        after: owned("\n"),
                        line: cur.line,
                        column: cur.column,
                        line_shift: cur.line_shift,
                    },
                );
                state.exit();
                state.exit();
                let n = value.as_str().unicode_len();
                let mut k = n;
                while k > 0 && !(value.as_str().get_char(k - 1) == '\r' || value.as_str().get_char(k - 1) == '\n')
                    invariant
                        k <= n,
                        n == value@.len(),
                        tail_start(value@, n as int) == tail_start(value@, k as int),
                    decreases k,
                {
                    k -= 1;
                }
                let tail = substring(value.as_str(), k, n);
                let underline_len = tail.as_str().len();
                let marker = if rank == 1 { '=' } else { '-' };
                let mut out = owned(value.as_str());
                push_str(&mut out, "\n");
                let underline = repeat_char(marker, underline_len);
                push_str(&mut out, underline.as_str());
                proof {
                    reveal_strlit("\n");
                    assert(state.stack@ =~= s0.stack@);
                    assert(tail_start(value@, k as int) == k);
                    assert(tail@ == value@.subrange(tail_start(value@, value@.len() as int), value@.len() as int));
                    assert(out@ =~= setext_spec(value@, heading_rank(heading.depth)));
                }
                return out;
            }
            let sequence = repeat_char('#', rank);
            state.enter(ConstructName::HeadingAtx);
            state.enter(ConstructName::Phrasing);
            let opening = concat(sequence.as_str(), " ");
            let _ = tracker.move_past(opening.as_str());
            let cur = tracker.current();
            let raw = state.container_phrasing(
                node,
                &Info {
                    before: owned("# "),
                    after: owned("\n"),
                    line: cur.line,
                    column: cur.column,
                    line_shift: cur.line_shift,
                },
            );
            let mut value = owned(raw.as_str());
            match first_char(raw.as_str()) {
                Some(c) => {
                    if c == '\t' || c == ' ' {
                        value = encode_head(raw.as_str(), c);
                    }
                },
                None => {},
            }
            let mut result = if value.as_str().unicode_len() == 0 {
                owned(sequence.as_str())
            } else {
                let mut s = owned(sequence.as_str());
                push_str(&mut s, " ");
                push_str(&mut s, value.as_str());
                s
            };
            if state.options.close_atx {
                push_str(&mut result, " ");
                push_str(&mut result, sequence.as_str());
            }
            state.exit();
            state.exit();
            proof {
                assert(state.stack@ =~= s0.stack@);
                assert(value@ == lead_encoded(raw@));
                assert(result@ =~= atx_spec(raw@, heading_rank(heading.depth), s0.options.close_atx));
            }
            result
        },
        _ => String::new(),
    }
}

}
