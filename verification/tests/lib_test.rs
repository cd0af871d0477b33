//! Smoke tests of the serializer.

use swarm_markdown::mdast::{
    AlignKind, Blockquote, Break, Code, Definition, Delete, Emphasis, Heading, Html, Image,
    ImageReference, InlineCode, Link, LinkReference, List, ListItem, Node, Paragraph, ReferenceKind,
    Root, Strong, Table, TableCell, TableRow, Text, ThematicBreak,
};
use swarm_markdown::to_markdown;
use swarm_markdown::types::Options;
#[test]
fn test_empty_tree() {
    let tree = Node::Root(Root {
        children: vec![],
    });
    let result = to_markdown(&tree, &Options::default());
    assert_eq!(result, "");
}

#[test]
fn test_to_markdown_returns_string() {
    let tree = Node::Root(Root {
        children: vec![],
    });
    let result = to_markdown(&tree, &Options::default());
    assert!(result.is_empty() || result.ends_with('\n'));
}

#[test]
fn test_default_options() {
    let opts = Options::default();
    assert_eq!(opts.bullet, '*');
    assert_eq!(opts.emphasis, '*');
    assert_eq!(opts.strong, '*');
    assert_eq!(opts.fence, '`');
    assert!(opts.fences);
    assert!(opts.increment_list_marker);
    assert_eq!(opts.list_item_indent, "one");
    assert_eq!(opts.quote, '"');
    assert_eq!(opts.rule, '*');
    assert_eq!(opts.rule_repetition, 3);
    assert!(!opts.setext);
    assert!(!opts.close_atx);
    assert!(!opts.rule_spaces);
    assert!(!opts.tight_definitions);
    assert!(!opts.resource_link);
    assert!(opts.gfm);
}

#[test]
fn smoke_paragraph() {
    let tree = Node::Root(Root {
        children: vec![Node::Paragraph(Paragraph {
            children: vec![Node::Text(Text {
                value: "Hello world".into(),
            })],
        })],
    });
    let result = to_markdown(&tree, &Options::default());
    assert_eq!(result, "Hello world\n");
}

#[test]
fn smoke_heading() {
    let tree = Node::Root(Root {
        children: vec![Node::Heading(Heading {
            depth: 2,
            children: vec![Node::Text(Text {
                value: "Title".into(),
            })],
        })],
    });
    let result = to_markdown(&tree, &Options::default());
    assert_eq!(result, "## Title\n");
}

#[test]
fn smoke_unordered_list() {
    let tree = Node::Root(Root {
        children: vec![Node::List(List {
            ordered: false,
            start: None,
            spread: false,
            children: vec![
                Node::ListItem(ListItem {
                    checked: None,
                    spread: false,
                    children: vec![Node::Paragraph(Paragraph {
                        children: vec![Node::Text(Text {
                            value: "one".into(),
                        })],
                    })],
                }),
                Node::ListItem(ListItem {
                    checked: None,
                    spread: false,
                    children: vec![Node::Paragraph(Paragraph {
                        children: vec![Node::Text(Text {
                            value: "two".into(),
                        })],
                    })],
                }),
            ],
        })],
    });
    let result = to_markdown(&tree, &Options::default());
    assert_eq!(result, "* one\n* two\n");
}

#[test]
fn smoke_emphasis_strong() {
    let tree = Node::Root(Root {
        children: vec![Node::Paragraph(Paragraph {
            children: vec![
                Node::Emphasis(Emphasis {
                    children: vec![Node::Text(Text {
                        value: "em".into(),
                    })],
                }),
                Node::Text(Text {
                    value: " and ".into(),
                }),
                Node::Strong(Strong {
                    children: vec![Node::Text(Text {
                        value: "strong".into(),
                    })],
                }),
            ],
        })],
    });
    let result = to_markdown(&tree, &Options::default());
    assert_eq!(result, "*em* and **strong**\n");
}

#[test]
fn smoke_code_block() {
    let tree = Node::Root(Root {
        children: vec![Node::Code(Code {
            lang: Some("rust".into()),
            meta: None,
            value: "fn main() {}".into(),
        })],
    });
    let result = to_markdown(&tree, &Options::default());
    assert_eq!(result, "```rust\nfn main() {}\n```\n");
}

#[test]
fn smoke_inline_code() {
    let tree = Node::Root(Root {
        children: vec![Node::Paragraph(Paragraph {
            children: vec![Node::InlineCode(InlineCode {
                value: "code".into(),
            })],
        })],
    });
    let result = to_markdown(&tree, &Options::default());
    assert_eq!(result, "`code`\n");
}

#[test]
fn smoke_blockquote() {
    let tree = Node::Root(Root {
        children: vec![Node::Blockquote(Blockquote {
            children: vec![Node::Paragraph(Paragraph {
                children: vec![Node::Text(Text {
                    value: "quoted".into(),
                })],
            })],
        })],
    });
    let result = to_markdown(&tree, &Options::default());
    assert_eq!(result, "> quoted\n");
}

#[test]
fn smoke_thematic_break() {
    let tree = Node::Root(Root {
        children: vec![Node::ThematicBreak(ThematicBreak {})],
    });
    let result = to_markdown(&tree, &Options::default());
    assert_eq!(result, "***\n");
}

#[test]
fn smoke_link() {
    let tree = Node::Root(Root {
        children: vec![Node::Paragraph(Paragraph {
            children: vec![Node::Link(Link {
                url: "https://example.com".into(),
                title: None,
                children: vec![Node::Text(Text {
                    value: "example".into(),
                })],
            })],
        })],
    });
    let result = to_markdown(&tree, &Options::default());
    assert_eq!(result, "[example](https://example.com)\n");
}

#[test]
fn smoke_image() {
    let tree = Node::Root(Root {
        children: vec![Node::Paragraph(Paragraph {
            children: vec![Node::Image(Image {
                url: "img.png".into(),
                alt: "alt text".into(),
                title: None,
            })],
        })],
    });
    let result = to_markdown(&tree, &Options::default());
    assert_eq!(result, "![alt text](img.png)\n");
}

#[test]
fn smoke_html() {
    let tree = Node::Root(Root {
        children: vec![Node::Html(Html {
            value: "<div>hello</div>".into(),
        })],
    });
    let result = to_markdown(&tree, &Options::default());
    assert_eq!(result, "<div>hello</div>\n");
}

#[test]
fn smoke_ordered_list() {
    let tree = Node::Root(Root {
        children: vec![Node::List(List {
            ordered: true,
            start: Some(1),
            spread: false,
            children: vec![
                Node::ListItem(ListItem {
                    checked: None,
                    spread: false,
                    children: vec![Node::Paragraph(Paragraph {
                        children: vec![Node::Text(Text {
                            value: "first".into(),
                        })],
                    })],
                }),
                Node::ListItem(ListItem {
                    checked: None,
                    spread: false,
                    children: vec![Node::Paragraph(Paragraph {
                        children: vec![Node::Text(Text {
                            value: "second".into(),
                        })],
                    })],
                }),
            ],
        })],
    });
    let result = to_markdown(&tree, &Options::default());
    assert_eq!(result, "1. first\n2. second\n");
}

#[test]
fn smoke_task_list() {
    let tree = Node::Root(Root {
        children: vec![Node::List(List {
            ordered: false,
            start: None,
            spread: false,
            children: vec![
                Node::ListItem(ListItem {
                    checked: Some(true),
                    spread: false,
                    children: vec![Node::Paragraph(Paragraph {
                        children: vec![Node::Text(Text {
                            value: "done".into(),
                        })],
                    })],
                }),
                Node::ListItem(ListItem {
                    checked: Some(false),
                    spread: false,
                    children: vec![Node::Paragraph(Paragraph {
                        children: vec![Node::Text(Text {
                            value: "todo".into(),
                        })],
                    })],
                }),
            ],
        })],
    });
    let result = to_markdown(&tree, &Options::default());
    assert_eq!(result, "* [x] done\n* [ ] todo\n");
}

#[test]
fn smoke_table() {
    let tree = Node::Root(Root {
        children: vec![Node::Table(Table {
            align: vec![AlignKind::Left, AlignKind::Right],
            children: vec![
                Node::TableRow(TableRow {
                    children: vec![
                        Node::TableCell(TableCell {
                            children: vec![Node::Text(Text {
                                value: "Name".into(),
                            })],
                        }),
                        Node::TableCell(TableCell {
                            children: vec![Node::Text(Text {
                                value: "Value".into(),
                            })],
                        }),
                    ],
                }),
                Node::TableRow(TableRow {
                    children: vec![
                        Node::TableCell(TableCell {
                            children: vec![Node::Text(Text {
                                value: "a".into(),
                            })],
                        }),
                        Node::TableCell(TableCell {
                            children: vec![Node::Text(Text {
                                value: "1".into(),
                            })],
                        }),
                    ],
                }),
            ],
        })],
    });
    let result = to_markdown(&tree, &Options::default());
    assert!(result.contains("| Name"));
    assert!(result.contains("| a"));
    assert!(result.contains("---"));
}

#[test]
fn smoke_strikethrough() {
    let tree = Node::Root(Root {
        children: vec![Node::Paragraph(Paragraph {
            children: vec![Node::Delete(Delete {
                children: vec![Node::Text(Text {
                    value: "deleted".into(),
                })],
            })],
        })],
    });
    let result = to_markdown(&tree, &Options::default());
    assert_eq!(result, "~~deleted~~\n");
}

#[test]
fn smoke_hard_break() {
    let tree = Node::Root(Root {
        children: vec![Node::Paragraph(Paragraph {
            children: vec![
                Node::Text(Text {
                    value: "line1".into(),
                }),
                Node::Break(Break {}),
                Node::Text(Text {
                    value: "line2".into(),
                }),
            ],
        })],
    });
    let result = to_markdown(&tree, &Options::default());
    assert_eq!(result, "line1\\\nline2\n");
}

#[test]
fn smoke_definition() {
    let tree = Node::Root(Root {
        children: vec![Node::Definition(Definition {
            url: "https://example.com".into(),
            title: Some("Example".into()),
            identifier: "ex".into(),
            label: Some("ex".into()),
        })],
    });
    let result = to_markdown(&tree, &Options::default());
    assert_eq!(result, "[ex]: https://example.com \"Example\"\n");
}

#[test]
fn heading_with_break_in_link_reference_is_setext() {
    let tree = Node::Root(Root {
        children: vec![Node::Heading(Heading {
            depth: 1,
            children: vec![Node::LinkReference(LinkReference {
                children: vec![Node::Text(Text { value: "a\nb".into() })],
                reference_kind: ReferenceKind::Shortcut,
                identifier: "a b".into(),
                label: None,
            })],
        })],
    });
    let result = to_markdown(&tree, &Options::default());
    assert!(!result.starts_with('#'));
    assert!(result.ends_with("b]\n==\n"));
}

fn ordered_task_tree() -> Node {
    Node::Root(Root {
        children: vec![Node::List(List {
            ordered: true,
            start: Some(9),
            spread: false,
            children: vec![Node::ListItem(ListItem {
                checked: Some(true),
                spread: false,
                children: vec![Node::Paragraph(Paragraph {
                    children: vec![Node::Text(Text { value: "done".into() })],
                })],
            })],
        })],
    })
}

#[test]
fn ordered_task_item_gets_checkbox_after_number() {
    let result = to_markdown(&ordered_task_tree(), &Options::default());
    assert_eq!(result, "9. [x] done\n");
}

#[test]
fn parenthesis_ordered_task_item_has_no_checkbox() {
    let mut opts = Options::default();
    opts.bullet_ordered = ')';
    let result = to_markdown(&ordered_task_tree(), &opts);
    assert_eq!(result, "9) done\n");
}
