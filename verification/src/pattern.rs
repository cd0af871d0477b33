//! Unsafe patterns: their regular expressions and when they apply.

use vstd::prelude::*;
use crate::regex_ext::regex_is_match;
use crate::text::{char_string, concat, concat3, owned, push_char, push_str};
use crate::types::{construct_eq, same_construct, ConstructName, UnsafePattern};

verus! {

/// The characters with a special meaning in a regular expression that a pattern's
/// character must be escaped from.
pub const REGEX_METACHAR: &'static str = "[|\\\\{}\\(\\)\\[\\]\\^$+*?.\\-]";

/// The characters of `REGEX_METACHAR`.
pub open spec fn is_regex_metachar(c: char) -> bool {
    c == '|' || c == '\\' || c == '{' || c == '}' || c == '(' || c == ')' || c == '[' || c == ']' || c == '^'
        || c == '$' || c == '+' || c == '*' || c == '?' || c == '.' || c == '-'
}

/// Some character of `s` is one of `REGEX_METACHAR`.
pub open spec fn has_regex_metachar(s: Seq<char>) -> bool {
    exists|i: int| 0 <= i < s.len() && is_regex_metachar(#[trigger] s[i])
}

/// What must stand before the unsafe character: a line break when `at_break`,
/// then the `before` expression when given.
pub open spec fn before_part_spec(p: UnsafePattern) -> Seq<char> {
    (if p.at_break { "[\\r\\n][\\t ]*"@ } else { Seq::empty() }) + match p.before {
        Some(b) => "(?:"@ + b@ + ")"@,
        None => Seq::empty(),
    }
}

/// The unsafe character as a regular expression.
pub open spec fn char_part_spec(c: char) -> Seq<char> {
    if is_regex_metachar(c) {
        seq!['\\', c]
    } else {
        seq![c]
    }
}

/// What must stand after the unsafe character.
pub open spec fn after_part_spec(p: UnsafePattern) -> Seq<char> {
    match p.after {
        Some(a) => "(?:"@ + a@ + ")"@,
        None => Seq::empty(),
    }
}

/// The regular expression of an unsafe pattern: the `before` context as capture
/// group 1 (when there is one), the character, then the `after` context.
pub open spec fn compile_pattern_spec(p: UnsafePattern) -> Seq<char> {
    let before = before_part_spec(p);
    if before.len() == 0 {
        char_part_spec(p.character) + after_part_spec(p)
    } else {
        "("@ + before + ")"@ + char_part_spec(p.character) + after_part_spec(p)
    }
}

/// Compile an unsafe pattern to the source of its regular expression.
pub fn compile_pattern(pattern: &UnsafePattern) -> (r: String)
    ensures
        r@ == compile_pattern_spec(*pattern),
{
    let mut before = if pattern.at_break { owned("[\\r\\n][\\t ]*") } else { String::new() };
    match &pattern.before {
        Some(b) => {
            push_str(&mut before, "(?:");
            push_str(&mut before, b.as_str());
            push_str(&mut before, ")");
        },
        None => {},
    }
    let c = char_string(pattern.character);
    proof {
        assert(c@[0] == pattern.character);
    }
    let char_str = if regex_is_match(REGEX_METACHAR, c.as_str()) {
        let mut s = owned("\\");
        push_char(&mut s, pattern.character);
        proof {
            reveal_strlit("\\");
            assert(s@ =~= seq!['\\', pattern.character]);
        }
        s
    } else {
        c
    };
    assert(char_str@ == char_part_spec(pattern.character));
    let after_part = match &pattern.after {
        Some(a) => concat3("(?:", a.as_str(), ")"),
        None => String::new(),
    };
    assert(before@ == before_part_spec(*pattern));
    assert(after_part@ == after_part_spec(*pattern));
    if before.as_str().unicode_len() == 0 {
        concat(char_str.as_str(), after_part.as_str())
    } else {
        let mut s = concat3("(", before.as_str(), ")");
        push_str(&mut s, char_str.as_str());
        push_str(&mut s, after_part.as_str());
        s
    }
}

/// Whether some construct of the stack is `c`.
pub open spec fn stack_has(stack: Seq<ConstructName>, c: ConstructName) -> bool {
    exists|i: int| 0 <= i < stack.len() && same_construct(#[trigger] stack[i], c)
}

/// Whether some construct of `list` is on the stack; `none` when the list is empty.
pub open spec fn list_in_scope_spec(stack: Seq<ConstructName>, list: Seq<ConstructName>, none: bool) -> bool {
    if list.len() == 0 {
        none
    } else {
        exists|j: int| 0 <= j < list.len() && stack_has(stack, #[trigger] list[j])
    }
}

/// A pattern applies when one of its `in_construct` constructs is on the stack
/// (or the list is empty) and none of its `not_in_construct` constructs is.
pub open spec fn pattern_in_scope_spec(stack: Seq<ConstructName>, p: UnsafePattern) -> bool {
    list_in_scope_spec(stack, p.in_construct@, true) && !list_in_scope_spec(
        stack,
        p.not_in_construct@,
        false,
    )
}

/// Whether the construct `c` is on the stack.
pub fn stack_contains(stack: &[ConstructName], c: &ConstructName) -> (r: bool)
    ensures
        r == stack_has(stack@, *c),
{
    let mut i: usize = 0;
    while i < stack.len()
        invariant
            i <= stack.len(),
            forall|j: int| 0 <= j < i ==> !same_construct(#[trigger] stack@[j], *c),
        decreases stack.len() - i,
    {
        if construct_eq(&stack[i], c) {
            return true;
        }
        i += 1;
    }
    false
}

/// Check whether an unsafe pattern is in scope given the current construct stack.
pub fn pattern_in_scope(stack: &[ConstructName], pattern: &UnsafePattern) -> (r: bool)
    ensures
        r == pattern_in_scope_spec(stack@, *pattern),
{
    list_in_scope(stack, pattern.in_construct.as_slice(), true) && !list_in_scope(
        stack,
        pattern.not_in_construct.as_slice(),
        false,
    )
}

/// Check whether any construct in the stack matches any construct in the list.
/// If the list is empty, returns `none`.
pub fn list_in_scope(stack: &[ConstructName], list: &[ConstructName], none: bool) -> (r: bool)
    ensures
        r == list_in_scope_spec(stack@, list@, none),
{
    if list.len() == 0 {
        return none;
    }
    let mut j: usize = 0;
    while j < list.len()
        invariant
            j <= list.len(),
            forall|k: int| 0 <= k < j ==> !stack_has(stack@, #[trigger] list@[k]),
        decreases list.len() - j,
    {
        if stack_contains(stack, &list[j]) {
            return true;
        }
        j += 1;
    }
    false
}

/// A cache key for an unsafe pattern: its character, before, after and at-break
/// fields joined by `|`.
pub open spec fn pattern_cache_key_spec(p: UnsafePattern) -> Seq<char> {
    seq![p.character] + "|"@ + (match p.before { Some(b) => b@, None => Seq::empty() }) + "|"@
        + (match p.after { Some(a) => a@, None => Seq::empty() }) + "|"@ + (if p.at_break {
        "true"@
    } else {
        "false"@
    })
}

/// Generate a cache key for an unsafe pattern.
pub fn pattern_cache_key(pattern: &UnsafePattern) -> (r: String)
    ensures
        r@ == pattern_cache_key_spec(*pattern),
{
    let mut s = char_string(pattern.character);
    push_str(&mut s, "|");
    match &pattern.before {
        Some(b) => push_str(&mut s, b.as_str()),
        None => {},
    }
    push_str(&mut s, "|");
    match &pattern.after {
        Some(a) => push_str(&mut s, a.as_str()),
        None => {},
    }
    push_str(&mut s, "|");
    push_str(&mut s, if pattern.at_break { "true" } else { "false" });
    s
}

}
