//! Tests of the serializer's helpers: text extraction, line padding, patterns,
//! escaping and position tracking.

use swarm_markdown::format::{longest_streak, node_to_string};
use swarm_markdown::indent::{indent_lines, IndentMap};
use swarm_markdown::mdast::{LinkReference, Node, Paragraph, ReferenceKind, Text};
use swarm_markdown::pattern::{compile_pattern, pattern_in_scope};
use swarm_markdown::regex_ext::regex_is_match;
use swarm_markdown::safe::{encode_character_reference, escape_backslashes};
use swarm_markdown::track::{split_lines, Tracker};
use swarm_markdown::types::{ConstructName, TrackFields, UnsafePattern};

#[test]
fn test_longest_streak() {
    assert_eq!(longest_streak("abc", '`'), 0);
    assert_eq!(longest_streak("a`b``c```d", '`'), 3);
    assert_eq!(longest_streak("~~~", '~'), 3);
}

#[test]
fn test_node_to_string() {
    let node = Node::Text(Text { value: "hello".to_string() });
    assert_eq!(node_to_string(&node), "hello");
}

#[test]
fn node_to_string_reads_link_references() {
    let node = Node::Paragraph(Paragraph {
        children: vec![
            Node::Text(Text { value: "a".to_string() }),
            Node::LinkReference(LinkReference {
                children: vec![Node::Text(Text { value: "b".to_string() })],
                reference_kind: ReferenceKind::Shortcut,
                identifier: "b".to_string(),
                label: None,
            }),
        ],
    });
    assert_eq!(node_to_string(&node), "ab");
}

#[test]
fn test_indent_lines_basic() {
    let add_prefix = IndentMap::Prefix("> ".to_string());
    let result = indent_lines("hello\nworld", &add_prefix);
    assert_eq!(result, "> hello\n> world");
}

#[test]
fn test_indent_lines_with_blank() {
    let add_prefix = IndentMap::Prefix("  ".to_string());
    let result = indent_lines("a\n\nb", &add_prefix);
    assert_eq!(result, "  a\n\n  b");
}

#[test]
fn test_compile_basic_pattern() {
    let pattern = UnsafePattern {
        character: '*',
        before: None,
        after: None,
        at_break: false,
        in_construct: vec![],
        not_in_construct: vec![],
    };
    let re = compile_pattern(&pattern);
    assert!(regex_is_match(&re, "hello * world"));
}

#[test]
fn test_compile_pattern_with_before_after() {
    let pattern = UnsafePattern {
        character: '.',
        before: Some("\\d+".to_string()),
        after: Some("(?:[ \\t\\r\\n]|$)".to_string()),
        at_break: true,
        in_construct: vec![],
        not_in_construct: vec![],
    };
    let re = compile_pattern(&pattern);
    // Should match "1." at start of line (after break)
    assert!(regex_is_match(&re, "\n1. item"));
}

#[test]
fn test_pattern_in_scope_empty_lists() {
    let stack = vec![ConstructName::Phrasing];
    let pattern = UnsafePattern {
        character: '*',
        before: None,
        after: None,
        at_break: false,
        in_construct: vec![],
        not_in_construct: vec![],
    };
    // Empty in_construct -> always active; empty not_in_construct -> not excluded
    assert!(pattern_in_scope(&stack, &pattern));
}

#[test]
fn test_pattern_in_scope_matching() {
    let stack = vec![ConstructName::Phrasing];
    let pattern = UnsafePattern {
        character: '*',
        before: None,
        after: None,
        at_break: false,
        in_construct: vec![ConstructName::Phrasing],
        not_in_construct: vec![],
    };
    assert!(pattern_in_scope(&stack, &pattern));
}

#[test]
fn test_pattern_in_scope_not_matching() {
    let stack = vec![ConstructName::HeadingAtx];
    let pattern = UnsafePattern {
        character: '*',
        before: None,
        after: None,
        at_break: false,
        in_construct: vec![ConstructName::Phrasing],
        not_in_construct: vec![],
    };
    assert!(!pattern_in_scope(&stack, &pattern));
}

#[test]
fn test_pattern_not_in_scope_excluded() {
    let stack = vec![ConstructName::Phrasing, ConstructName::Autolink];
    let pattern = UnsafePattern {
        character: '*',
        before: None,
        after: None,
        at_break: false,
        in_construct: vec![ConstructName::Phrasing],
        not_in_construct: vec![ConstructName::Autolink],
    };
    assert!(!pattern_in_scope(&stack, &pattern));
}

#[test]
fn test_encode_character_reference() {
    assert_eq!(encode_character_reference(0x26), "&#x26;");
    assert_eq!(encode_character_reference(0x3C), "&#x3C;");
}

#[test]
fn test_escape_backslashes() {
    // Backslash before punctuation should be double-escaped
    assert_eq!(escape_backslashes("a\\*b", ""), "a\\\\*b");
    // Backslash not before punctuation should be left alone
    assert_eq!(escape_backslashes("a\\b", ""), "a\\b");
}

#[test]
fn test_tracker_basic() {
    let fields = TrackFields { line: 1, column: 1, line_shift: 0 };
    let mut tracker = Tracker::new(&fields);

    tracker.move_past("hello");
    let current = tracker.current();
    assert_eq!(current.line, 1);
    assert_eq!(current.column, 6);

    tracker.move_past("\nworld");
    let current = tracker.current();
    assert_eq!(current.line, 2);
    assert_eq!(current.column, 6);
}

#[test]
fn test_tracker_with_shift() {
    let fields = TrackFields { line: 1, column: 1, line_shift: 2 };
    let mut tracker = Tracker::new(&fields);

    tracker.move_past("hello\nworld");
    let current = tracker.current();
    assert_eq!(current.line, 2);
    // 1 + "world".len() + line_shift(2) = 1 + 5 + 2 = 8
    assert_eq!(current.column, 8);
}

#[test]
fn test_split_lines() {
    assert_eq!(split_lines("a\nb\nc"), vec!["a", "b", "c"]);
    assert_eq!(split_lines("a\r\nb"), vec!["a", "b"]);
    assert_eq!(split_lines("a\rb"), vec!["a", "b"]);
    assert_eq!(split_lines("abc"), vec!["abc"]);
    assert_eq!(split_lines(""), vec![""]);
}

#[test]
fn indent_lines_keeps_each_line_ending() {
    let add_prefix = IndentMap::Prefix("> ".to_string());
    assert_eq!(indent_lines("a\r\nb\rc\n\nd", &add_prefix), "> a\r\n> b\r> c\n\n> d");
}
