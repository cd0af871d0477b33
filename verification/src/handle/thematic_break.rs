//! Thematic breaks.

use vstd::prelude::*;
use crate::check::{check_rule, check_rule_repetition, valid_rule};
use crate::mdast::Node;
use crate::output::{cfg_of, ctx_of, opt_node, ser_with, wrote};
use crate::state::{preserved, State};
use crate::text::push_char;
use crate::types::{HandlerFn, Info, Options};

verus! {

/// A thematic break: the rule marker repeated, separated by spaces when asked.
pub open spec fn thematic_break_spec(o: Options) -> Seq<char> {
    if o.rule_spaces {
        Seq::new((2 * o.rule_repetition - 1) as nat, |i: int| if i % 2 == 0 { o.rule } else { ' ' })
    } else {
        Seq::new(o.rule_repetition as nat, |i: int| o.rule)
    }
}

/// The options that a thematic break needs: a valid marker, at least three of
/// them, and room for the spaces between them.
pub open spec fn thematic_break_ok(o: Options) -> bool {
    &&& valid_rule(o.rule)
    &&& o.rule_repetition >= 3
    &&& (o.rule_spaces ==> 2 * o.rule_repetition <= usize::MAX)
}

/// Handle a thematic break node.
pub fn handle_thematic_break(_node: &Node, _parent: Option<&Node>, state: &mut State, _info: &Info) -> (r: String)
    requires
        thematic_break_ok(old(state).options),
    ensures
        wrote(
            *final(state),
            r@,
            ser_with(
                cfg_of(*old(state)),
                ctx_of(*old(state)),
                HandlerFn::ThematicBreak,
                *_node,
                opt_node(_parent),
                _info.before@,
                _info.after@,
            ),
        ),
        preserved(*old(state), *final(state)),
        r@ == thematic_break_spec(old(state).options),
{
    let rule = check_rule(&state.options);
    let repetition = check_rule_repetition(&state.options);
    let rule_spaces = state.options.rule_spaces;
    let mut value = String::new();
    let mut i: usize = 0;
    while i < repetition
        invariant
            i <= repetition,
            repetition == state.options.rule_repetition,
            rule == state.options.rule,
            rule_spaces == state.options.rule_spaces,
            thematic_break_ok(state.options),
            value@ == if rule_spaces && i > 0 {
                Seq::new((2 * i - 1) as nat, |k: int| if k % 2 == 0 { rule } else { ' ' })
            } else {
                Seq::new(i as nat, |k: int| rule)
            },
        decreases repetition - i,
    {
        if rule_spaces && i > 0 {
            push_char(&mut value, ' ');
        }
        push_char(&mut value, rule);
        proof {
            if rule_spaces {
                assert(value@ =~= Seq::new((2 * (i + 1) - 1) as nat, |k: int| if k % 2 == 0 { rule } else { ' ' }));
            } else {
                assert(value@ =~= Seq::new((i + 1) as nat, |k: int| rule));
            }
        }
        i += 1;
    }
    value
}

}
