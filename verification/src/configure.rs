//! Configuring the serializer with extensions.

use vstd::prelude::*;
use crate::state::State;
use crate::types::{lemma_lookup_append, HandlerFn, HandlerMap, JoinFn, Options, UnsafePattern};

verus! {

/// Optional overrides for serialization options: only the values that are set
/// are merged.
pub struct OptionsOverride {
    pub bullet: Option<char>,
    pub bullet_other: Option<char>,
    pub bullet_ordered: Option<char>,
    pub close_atx: Option<bool>,
    pub emphasis: Option<char>,
    pub fence: Option<char>,
    pub fences: Option<bool>,
    pub increment_list_marker: Option<bool>,
    pub list_item_indent: Option<String>,
    pub quote: Option<char>,
    pub resource_link: Option<bool>,
    pub rule: Option<char>,
    pub rule_repetition: Option<usize>,
    pub rule_spaces: Option<bool>,
    pub setext: Option<bool>,
    pub strong: Option<char>,
    pub tight_definitions: Option<bool>,
}

impl Default for OptionsOverride {
    fn default() -> (o: Self)
        ensures
            o.bullet is None && o.bullet_other is None && o.bullet_ordered is None && o.close_atx is None
                && o.emphasis is None && o.fence is None && o.fences is None && o.increment_list_marker is None
                && o.list_item_indent is None && o.quote is None && o.resource_link is None && o.rule is None
                && o.rule_repetition is None && o.rule_spaces is None && o.setext is None && o.strong is None
                && o.tight_definitions is None,
    {
        OptionsOverride {
            bullet: None,
            bullet_other: None,
            bullet_ordered: None,
            close_atx: None,
            emphasis: None,
            fence: None,
            fences: None,
            increment_list_marker: None,
            list_item_indent: None,
            quote: None,
            resource_link: None,
            rule: None,
            rule_repetition: None,
            rule_spaces: None,
            setext: None,
            strong: None,
            tight_definitions: None,
        }
    }
}

/// An input extension: all fields optional; only set fields are merged.
pub struct InputExtension {
    /// Handler overrides.
    pub handlers: Option<HandlerMap>,
    /// Additional unsafe patterns.
    pub unsafe_patterns: Option<Vec<UnsafePattern>>,
    /// Additional join functions.
    pub join: Option<Vec<JoinFn>>,
    /// Sub-extensions to merge first.
    pub extensions: Option<Vec<InputExtension>>,
    /// Options overrides.
    pub options: Option<OptionsOverride>,
}

/// A set value of an override, else the current value.
pub open spec fn or_keep<T>(v: Option<T>, current: T) -> T {
    match v {
        Some(x) => x,
        None => current,
    }
}

/// The options with the set overrides applied.
pub open spec fn override_spec(o: Options, ov: OptionsOverride) -> Options {
    Options {
        bullet: or_keep(ov.bullet, o.bullet),
        bullet_other: match ov.bullet_other {
            Some(c) => Some(c),
            None => o.bullet_other,
        },
        bullet_ordered: or_keep(ov.bullet_ordered, o.bullet_ordered),
        close_atx: or_keep(ov.close_atx, o.close_atx),
        emphasis: or_keep(ov.emphasis, o.emphasis),
        fence: or_keep(ov.fence, o.fence),
        fences: or_keep(ov.fences, o.fences),
        increment_list_marker: or_keep(ov.increment_list_marker, o.increment_list_marker),
        list_item_indent: or_keep(ov.list_item_indent, o.list_item_indent),
        quote: or_keep(ov.quote, o.quote),
        resource_link: or_keep(ov.resource_link, o.resource_link),
        rule: or_keep(ov.rule, o.rule),
        rule_repetition: or_keep(ov.rule_repetition, o.rule_repetition),
        rule_spaces: or_keep(ov.rule_spaces, o.rule_spaces),
        setext: or_keep(ov.setext, o.setext),
        strong: or_keep(ov.strong, o.strong),
        tight_definitions: or_keep(ov.tight_definitions, o.tight_definitions),
        gfm: o.gfm,
    }
}

fn keep_char(v: Option<char>, current: char) -> (r: char)
    ensures
        r == or_keep(v, current),
{
    match v {
        Some(x) => x,
        None => current,
    }
}

fn keep_bool(v: Option<bool>, current: bool) -> (r: bool)
    ensures
        r == or_keep(v, current),
{
    match v {
        Some(x) => x,
        None => current,
    }
}

/// Apply optional overrides to options.
pub fn apply_options_override(options: &mut Options, overrides: OptionsOverride)
    ensures
        *final(options) == override_spec(*old(options), overrides),
{
    options.bullet = keep_char(overrides.bullet, options.bullet);
    if let Some(v) = overrides.bullet_other {
        options.bullet_other = Some(v);
    }
    options.bullet_ordered = keep_char(overrides.bullet_ordered, options.bullet_ordered);
    options.close_atx = keep_bool(overrides.close_atx, options.close_atx);
    options.emphasis = keep_char(overrides.emphasis, options.emphasis);
    options.fence = keep_char(overrides.fence, options.fence);
    options.fences = keep_bool(overrides.fences, options.fences);
    options.increment_list_marker = keep_bool(overrides.increment_list_marker, options.increment_list_marker);
    if let Some(v) = overrides.list_item_indent {
        options.list_item_indent = v;
    }
    options.quote = keep_char(overrides.quote, options.quote);
    options.resource_link = keep_bool(overrides.resource_link, options.resource_link);
    options.rule = keep_char(overrides.rule, options.rule);
    if let Some(v) = overrides.rule_repetition {
        options.rule_repetition = v;
    }
    options.rule_spaces = keep_bool(overrides.rule_spaces, options.rule_spaces);
    options.setext = keep_bool(overrides.setext, options.setext);
    options.strong = keep_char(overrides.strong, options.strong);
    options.tight_definitions = keep_bool(overrides.tight_definitions, options.tight_definitions);
}

/// What configuring accumulates: registered handler entries, patterns, join
/// functions, and the options.
pub struct Configured {
    pub entries: Seq<(Seq<char>, HandlerFn)>,
    pub patterns: Seq<UnsafePattern>,
    pub joins: Seq<JoinFn>,
    pub options: Options,
}

/// The sub-extensions of an extension.
pub open spec fn sub_extensions(e: InputExtension) -> Seq<InputExtension> {
    match e.extensions {
        Some(v) => v@,
        None => Seq::empty(),
    }
}

pub proof fn lemma_sub_extensions_decrease(e: InputExtension)
    ensures
        forall|i: int| 0 <= i < sub_extensions(e).len() ==> decreases_to!(e => #[trigger] sub_extensions(e)[i]),
{
    assert forall|i: int| 0 <= i < sub_extensions(e).len() implies decreases_to!(e => #[trigger] sub_extensions(e)[i]) by {
        match e.extensions {
            Some(v) => {
                assert(decreases_to!(e => e.extensions));
                assert(decreases_to!(e.extensions => v));
                assert(decreases_to!(v => v@));
                assert(decreases_to!(v@ => v@[i]));
            },
            None => {},
        }
    }
}

/// Merging an extension: its sub-extensions first, in order, then its own
/// handlers (later registrations win), patterns and join functions (appended),
/// and option overrides.
pub open spec fn configure_spec(acc: Configured, e: InputExtension) -> Configured
    decreases e, (sub_extensions(e).len() + 1) as int,
{
    let a = configure_subs(acc, e, sub_extensions(e).len() as int);
    Configured {
        entries: a.entries + match e.handlers {
            Some(h) => h@,
            None => Seq::empty(),
        },
        patterns: a.patterns + match e.unsafe_patterns {
            Some(p) => p@,
            None => Seq::empty(),
        },
        joins: a.joins + match e.join {
            Some(j) => j@,
            None => Seq::empty(),
        },
        options: match e.options {
            Some(ov) => override_spec(a.options, ov),
            None => a.options,
        },
    }
}

/// Merging the first `k` sub-extensions of `e`, in order.
pub open spec fn configure_subs(acc: Configured, e: InputExtension, k: int) -> Configured
    decreases e, k,
{
    if k <= 0 || k > sub_extensions(e).len() {
        acc
    } else {
        proof {
            lemma_sub_extensions_decrease(e);
        }
        configure_spec(configure_subs(acc, e, k - 1), sub_extensions(e)[k - 1])
    }
}

/// What configuring works on in a state.
pub open spec fn configured_of(s: State) -> Configured {
    Configured {
        entries: s.handlers@,
        patterns: s.unsafe_patterns@,
        joins: s.join@,
        options: s.options,
    }
}

/// Merge an extension into the state.
#[verifier::loop_isolation(false)]
pub fn configure(state: &mut State, extension: InputExtension)
    ensures
        configured_of(*final(state)) == configure_spec(configured_of(*old(state)), extension),
        final(state).stack@ == old(state).stack@,
        final(state).index_stack@ == old(state).index_stack@,
        final(state).peek_handlers == old(state).peek_handlers,
        final(state).bullet_current == old(state).bullet_current,
        final(state).bullet_last_used == old(state).bullet_last_used,
        final(state).attention_encode_surrounding_info == old(state).attention_encode_surrounding_info,
    decreases extension,
{
    let ghost e = extension;
    let ghost s0 = *state;
    let InputExtension { handlers, unsafe_patterns, join, extensions, options } = extension;
    match extensions {
        Some(exts) => {
            let ghost subs = exts@;
            let mut exts = exts;
            let mut i: usize = 0;
            while exts.len() > 0
                invariant
                    subs == sub_extensions(e),
                    exts@ == subs.skip(i as int),
                    i <= subs.len(),
                    configured_of(*state) == configure_subs(configured_of(s0), e, i as int),
                    state.stack@ == s0.stack@,
                    state.index_stack@ == s0.index_stack@,
                    state.peek_handlers == s0.peek_handlers,
                    state.bullet_current == s0.bullet_current,
                    state.bullet_last_used == s0.bullet_last_used,
                    state.attention_encode_surrounding_info == s0.attention_encode_surrounding_info,
                decreases exts.len(),
            {
                let ext = exts.remove(0);
                proof {
                    assert(ext == subs[i as int]);
                    lemma_sub_extensions_decrease(e);
                    assert(decreases_to!(e => subs[i as int]));
                    assert(exts@ =~= subs.skip(i + 1));
                }
                configure(state, ext);
                i += 1;
            }
            proof {
                assert(i == subs.len());
            }
        },
        None => {},
    }
    let ghost mid = configured_of(*state);
    assert(mid == configure_subs(configured_of(s0), e, sub_extensions(e).len() as int));
    match handlers {
        Some(h) => state.handlers.extend(h),
        None => {},
    }
    match unsafe_patterns {
        Some(p) => {
            let mut p = p;
            state.unsafe_patterns.append(&mut p);
        },
        None => {},
    }
    match join {
        Some(j) => {
            let mut j = j;
            state.join.append(&mut j);
        },
        None => {},
    }
    match options {
        Some(ov) => apply_options_override(&mut state.options, ov),
        None => {},
    }
    proof {
        assert(configured_of(*state) =~= configure_spec(configured_of(s0), e));
    }
}

}
