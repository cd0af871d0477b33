//! Hard breaks.

use vstd::prelude::*;
use crate::mdast::Node;
use crate::pattern::{pattern_in_scope, pattern_in_scope_spec};
use crate::output::{cfg_of, ctx_of, opt_node, ser_with, wrote};
use crate::state::{preserved, State};
use crate::text::{ends_with, owned};
use crate::types::{HandlerFn, ConstructName, Info, UnsafePattern};

verus! {

/// Some pattern in scope forbids a line ending here.
pub open spec fn eol_unsafe(ps: Seq<UnsafePattern>, stack: Seq<ConstructName>) -> bool {
    exists|i: int| 0 <= i < ps.len() && #[trigger] ps[i].character == '\n' && pattern_in_scope_spec(stack, ps[i])
}

/// A hard break: a backslash and a line ending; where line endings cannot be
/// written (setext headings, tables), a space, or nothing after whitespace.
pub open spec fn break_spec(ps: Seq<UnsafePattern>, stack: Seq<ConstructName>, before: Seq<char>) -> Seq<char> {
    if eol_unsafe(ps, stack) {
        if before.len() > 0 && (before.last() == ' ' || before.last() == '\t') {
            Seq::empty()
        } else {
            " "@
        }
    } else {
        "\\\n"@
    }
}

/// Handle a break (hard break) node.
pub fn handle_break(_node: &Node, _parent: Option<&Node>, state: &mut State, info: &Info) -> (r: String)
    ensures
        wrote(
            *final(state),
            r@,
            ser_with(
                cfg_of(*old(state)),
                ctx_of(*old(state)),
                HandlerFn::Break,
                *_node,
                opt_node(_parent),
                info.before@,
                info.after@,
            ),
        ),
        preserved(*old(state), *final(state)),
        r@ == break_spec(old(state).unsafe_patterns@, old(state).stack@, info.before@),
{
    let mut i: usize = 0;
    while i < state.unsafe_patterns.len()
        invariant
            i <= state.unsafe_patterns.len(),
            forall|j: int| 0 <= j < i ==> !(#[trigger] state.unsafe_patterns@[j].character == '\n'
                && pattern_in_scope_spec(state.stack@, state.unsafe_patterns@[j])),
        decreases state.unsafe_patterns.len() - i,
    {
        let pattern = &state.unsafe_patterns[i];
        if pattern.character == '\n' && pattern_in_scope(state.stack.as_slice(), pattern) {
            let before = info.before.as_str();
            proof {
                reveal_strlit(" ");
                reveal_strlit("\t");
                assert(eol_unsafe(state.unsafe_patterns@, state.stack@));
            }
            let ends_space = ends_with(before, " ");
            let ends_tab = ends_with(before, "\t");
            proof {
                let n = before@.len() as int;
                if n > 0 {
                    assert(before@.subrange(n - 1, n)[0] == before@.last());
                    if before@.last() == ' ' {
                        assert(before@.subrange(n - 1, n) =~= " "@);
                    }
                    if before@.last() == '\t' {
                        assert(before@.subrange(n - 1, n) =~= "\t"@);
                    }
                }
            }
            if ends_space || ends_tab {
                return String::new();
            }
            return owned(" ");
        }
        i += 1;
    }
    owned("\\\n")
}

}
