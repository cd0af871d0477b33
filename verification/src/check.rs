//! Validation of the marker options.
//!
//! Each check returns the configured marker; an invalid marker is outside the
//! functions' domain (the serializer refuses to write with it).

use vstd::prelude::*;
use crate::types::Options;

verus! {

/// A marker usable for unordered list items.
pub open spec fn valid_bullet(c: char) -> bool {
    c == '*' || c == '+' || c == '-'
}

/// The alternative bullet that `options` selects.
pub open spec fn bullet_other_spec(o: Options) -> char {
    match o.bullet_other {
        Some(c) => c,
        None => if o.bullet == '*' { '-' } else { '*' },
    }
}

/// The bullet and its alternative are usable and differ.
pub open spec fn bullet_other_ok(o: Options) -> bool {
    valid_bullet(o.bullet) && valid_bullet(bullet_other_spec(o)) && bullet_other_spec(o) != o.bullet
}

/// A list item indent style: `tab`, `one` or `mixed`.
pub open spec fn valid_list_item_indent(s: Seq<char>) -> bool {
    s == "tab"@ || s == "one"@ || s == "mixed"@
}

pub open spec fn valid_bullet_ordered(c: char) -> bool {
    c == '.' || c == ')'
}

pub open spec fn valid_attention(c: char) -> bool {
    c == '*' || c == '_'
}

pub open spec fn valid_fence(c: char) -> bool {
    c == '`' || c == '~'
}

pub open spec fn valid_quote(c: char) -> bool {
    c == '"' || c == '\''
}

pub open spec fn valid_rule(c: char) -> bool {
    c == '*' || c == '-' || c == '_'
}

/// Get the bullet character for unordered lists.
pub fn check_bullet(options: &Options) -> (r: char)
    requires
        valid_bullet(options.bullet),
    ensures
        r == options.bullet,
{
    options.bullet
}

/// Get the alternative bullet character for unordered lists
/// (used when the primary bullet can't be used, e.g. two adjacent lists).
pub fn check_bullet_other(options: &Options) -> (r: char)
    requires
        bullet_other_ok(*options),
    ensures
        r == bullet_other_spec(*options),
        r != options.bullet,
        valid_bullet(r),
{
    let bullet = check_bullet(options);
    match options.bullet_other {
        Some(c) => c,
        None => if bullet == '*' { '-' } else { '*' },
    }
}

/// Get the bullet character for ordered lists.
pub fn check_bullet_ordered(options: &Options) -> (r: char)
    requires
        valid_bullet_ordered(options.bullet_ordered),
    ensures
        r == options.bullet_ordered,
{
    options.bullet_ordered
}

/// Get the emphasis marker character.
pub fn check_emphasis(options: &Options) -> (r: char)
    requires
        valid_attention(options.emphasis),
    ensures
        r == options.emphasis,
{
    options.emphasis
}

/// Get the fence marker character.
pub fn check_fence(options: &Options) -> (r: char)
    requires
        valid_fence(options.fence),
    ensures
        r == options.fence,
{
    options.fence
}

/// Get the quote marker character.
pub fn check_quote(options: &Options) -> (r: char)
    requires
        valid_quote(options.quote),
    ensures
        r == options.quote,
{
    options.quote
}

/// Get the thematic break rule marker.
pub fn check_rule(options: &Options) -> (r: char)
    requires
        valid_rule(options.rule),
    ensures
        r == options.rule,
{
    options.rule
}

/// Get the thematic break repetition count (at least 3).
pub fn check_rule_repetition(options: &Options) -> (r: usize)
    requires
        options.rule_repetition >= 3,
    ensures
        r == options.rule_repetition,
{
    options.rule_repetition
}

/// Get the strong marker character.
pub fn check_strong(options: &Options) -> (r: char)
    requires
        valid_attention(options.strong),
    ensures
        r == options.strong,
{
    options.strong
}

}
