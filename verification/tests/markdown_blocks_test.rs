use swarm_markdown::blocknote::blocks::{Block, BlockContent, InlineContent};
use swarm_markdown::blocknote::markdown::{blocks_to_markdown, IdGenerator, IdRecord};
use swarm_markdown::blocknote::schema::BlockType;
use swarm_markdown::blocknote::parse::{markdown_to_blocks, markdown_to_blocks_with, RandomIds};

/// Ids `test-1`, `test-2`, ...
struct TestIds {
    counter: u32,
}

impl IdGenerator for TestIds {
    fn next_id(&mut self) -> String {
        self.counter += 1;
        format!("test-{}", self.counter)
    }
}

fn test_id_gen() -> TestIds {
    TestIds { counter: 0 }
}

fn inline(b: &Block) -> &[InlineContent] {
    b.content.as_inline()
}

#[test]
fn heading() {
    let blocks = markdown_to_blocks_with("## Hello World\n", &mut IdRecord::new(test_id_gen()));
    assert_eq!(blocks.len(), 1);
    assert_eq!(blocks[0].block_type, BlockType::Heading);
    assert_eq!(blocks[0].props.level, Some(2));
    match &inline(&blocks[0])[0] {
        InlineContent::Text { text, .. } => assert_eq!(text, "Hello World"),
        _ => panic!("expected text"),
    }
}

#[test]
fn paragraph_with_bold_and_italic() {
    let blocks = markdown_to_blocks_with("Hello **bold** and *italic*\n", &mut IdRecord::new(test_id_gen()));
    assert_eq!(blocks.len(), 1);
    assert_eq!(blocks[0].block_type, BlockType::Paragraph);
    assert!(inline(&blocks[0]).len() >= 3);
    let has_bold = inline(&blocks[0]).iter().any(|c| matches!(c, InlineContent::Text { styles, .. } if styles.bold));
    assert!(has_bold);
    let has_italic = inline(&blocks[0]).iter().any(|c| matches!(c, InlineContent::Text { styles, .. } if styles.italic));
    assert!(has_italic);
}

#[test]
fn bullet_list() {
    let blocks = markdown_to_blocks_with("- item one\n- item two\n", &mut IdRecord::new(test_id_gen()));
    assert_eq!(blocks.len(), 2);
    assert_eq!(blocks[0].block_type, BlockType::BulletListItem);
    assert_eq!(blocks[1].block_type, BlockType::BulletListItem);
}

#[test]
fn ordered_list() {
    let blocks = markdown_to_blocks_with("1. first\n2. second\n", &mut IdRecord::new(test_id_gen()));
    assert_eq!(blocks.len(), 2);
    assert_eq!(blocks[0].block_type, BlockType::NumberedListItem);
}

#[test]
fn task_list() {
    let blocks = markdown_to_blocks_with("- [x] done\n- [ ] todo\n", &mut IdRecord::new(test_id_gen()));
    assert_eq!(blocks.len(), 2);
    assert_eq!(blocks[0].block_type, BlockType::CheckListItem);
    assert_eq!(blocks[0].props.checked, Some(true));
    assert_eq!(blocks[1].props.checked, Some(false));
}

#[test]
fn code_block() {
    let blocks = markdown_to_blocks_with("```rust\nfn main() {}\n```\n", &mut IdRecord::new(test_id_gen()));
    assert_eq!(blocks.len(), 1);
    assert_eq!(blocks[0].block_type, BlockType::CodeBlock);
    assert_eq!(blocks[0].props.language.as_deref(), Some("rust"));
}

#[test]
fn image() {
    let blocks = markdown_to_blocks_with("![alt text](image.png)\n", &mut IdRecord::new(test_id_gen()));
    assert_eq!(blocks.len(), 1);
    assert_eq!(blocks[0].block_type, BlockType::Image);
    assert_eq!(blocks[0].props.url.as_deref(), Some("image.png"));
    assert_eq!(blocks[0].props.caption.as_deref(), Some("alt text"));
}

#[test]
fn divider() {
    let blocks = markdown_to_blocks_with("---\n", &mut IdRecord::new(test_id_gen()));
    assert_eq!(blocks.len(), 1);
    assert_eq!(blocks[0].block_type, BlockType::Divider);
}

#[test]
fn table() {
    let text = "| A | B |\n|---|---|\n| 1 | 2 |\n";
    let blocks = markdown_to_blocks_with(text, &mut IdRecord::new(test_id_gen()));
    assert_eq!(blocks.len(), 1);
    assert_eq!(blocks[0].block_type, BlockType::Table);
    assert_eq!(blocks[0].children.len(), 2);
}

#[test]
fn markdown_table_rows_in_content_and_children() {
    let text = "| A | B |\n|---|---|\n| 1 | 2 |\n";
    let blocks = markdown_to_blocks_with(text, &mut IdRecord::new(test_id_gen()));
    match blocks[0].content.as_table() {
        Some(t) => assert_eq!(t.rows.len(), 2),
        None => panic!("expected table content"),
    }
    assert_eq!(blocks[0].children[0].block_type, BlockType::TableRow);
    assert_eq!(blocks[0].children[1].block_type, BlockType::TableRow);
    assert_eq!(blocks[0].children[0].id, "test-1");
    assert_eq!(blocks[0].children[1].id, "test-2");
    assert_eq!(blocks[0].id, "test-3");
    assert!(blocks[0].children[0].children.is_empty());
}

#[test]
fn nested_list() {
    let text = "- parent\n  - child\n";
    let blocks = markdown_to_blocks_with(text, &mut IdRecord::new(test_id_gen()));
    assert_eq!(blocks.len(), 1);
    assert_eq!(blocks[0].block_type, BlockType::BulletListItem);
    assert_eq!(blocks[0].children.len(), 1);
    assert_eq!(blocks[0].children[0].block_type, BlockType::BulletListItem);
}

#[test]
fn inline_link() {
    let blocks = markdown_to_blocks_with("Click [here](https://example.com)\n", &mut IdRecord::new(test_id_gen()));
    let has_link = inline(&blocks[0])
        .iter()
        .any(|c| matches!(c, InlineContent::Link { href, .. } if href == "https://example.com"));
    assert!(has_link);
}

#[test]
fn roundtrip_heading() {
    let blocks = markdown_to_blocks_with("## Hello **World**\n", &mut IdRecord::new(test_id_gen()));
    let output = blocks_to_markdown(&blocks).unwrap();
    assert!(output.contains("##"));
    assert!(output.contains("**World**"));
}

#[test]
fn markdown_complex_document_renders_each_block() {
    let text = "# Title\n\nSome **bold** and *italic*.\n\n- bullet\n\n1. first\n\n- [x] done\n- [ ] pending\n\n```rust\nfn main() {}\n```\n\n---\n\n![image](pic.png)\n\n| A | B |\n|---|---|\n| 1 | 2 |\n";
    let blocks = markdown_to_blocks_with(text, &mut IdRecord::new(test_id_gen()));
    let output = blocks_to_markdown(&blocks).unwrap();
    assert_eq!(
        output,
        "# Title\n\nSome **bold** and *italic*.\n\n- bullet\n\n1. first\n\n- [x] done\n- [ ] pending\n\n```rust\nfn main() {}\n```\n\n***\n\n![image](pic.png)\n\n| A | B |\n| --- | --- |\n| 1 | 2 |\n"
    );
}

#[test]
fn roundtrip_complex_document() {
    let md = "# Title\n\nSome **bold** and *italic*.\n\n- bullet\n\n1. first\n\n- [x] done\n- [ ] pending\n\n```rust\nfn main() {}\n```\n\n---\n\n![image](pic.png)\n\n| A | B |\n|---|---|\n| 1 | 2 |\n";
    let blocks = markdown_to_blocks_with(md, &mut IdRecord::new(test_id_gen()));
    let output = blocks_to_markdown(&blocks).unwrap();

    assert!(output.contains("# Title"));
    assert!(output.contains("**bold**"));
    assert!(output.contains("- bullet"));
    assert!(output.contains("[x]"));
    assert!(output.contains("```rust"));
    assert!(output.contains("---"));
    assert!(output.contains("![image](pic.png)"));
    assert!(output.contains("| A | B |"));
}

#[test]
fn markdown_roundtrip_gfm_table() {
    let text = "| A | B |\n|---|---|\n| 1 | 2 |\n";
    let blocks = markdown_to_blocks_with(text, &mut IdRecord::new(test_id_gen()));
    let output = blocks_to_markdown(&blocks).unwrap();
    assert!(output.contains("| A"), "table header preserved");
    assert!(output.contains("| B"), "table header B preserved");
    assert!(output.contains("| 1"), "table body preserved");
    assert!(output.contains("| 2"), "table body 2 preserved");
}

#[test]
fn markdown_roundtrip_blockquote() {
    let text = "> This is a quote\n";
    let blocks = markdown_to_blocks_with(text, &mut IdRecord::new(test_id_gen()));
    assert_eq!(blocks.len(), 1);
    assert_eq!(blocks[0].block_type, BlockType::Quote);
    let output = blocks_to_markdown(&blocks).unwrap();
    assert!(output.contains("> This is a quote"), "blockquote preserved");
}

#[test]
fn markdown_roundtrip_basic_blocks() {
    let text = "## Heading\n\nA paragraph.\n\n- bullet item\n";
    let blocks = markdown_to_blocks_with(text, &mut IdRecord::new(test_id_gen()));
    let output = blocks_to_markdown(&blocks).unwrap();
    assert!(output.contains("## Heading"), "heading preserved");
    assert!(output.contains("A paragraph"), "paragraph preserved");
    assert!(output.contains("bullet item"), "list preserved");
}

#[test]
fn debug_ordered_list_roundtrip() {
    let text = "1. **A**: first\n2. **B**: second\n";
    let blocks = markdown_to_blocks(text);
    for (i, b) in blocks.iter().enumerate() {
        println!("block[{i}]: {:?} content={:?}", b.block_type, b.content);
    }
    let output = blocks_to_markdown(&blocks).unwrap();
    println!("---output---\n{output}---end---");
    assert!(output.contains("second"), "second item should be in output");
}

#[test]
fn debug_all_rendering_issues() {
    let md1 = "1. First\n2. Second\n3. Third\n";
    let b1 = markdown_to_blocks(md1);
    let o1 = blocks_to_markdown(&b1).unwrap();
    println!("=== Issue 1: Consecutive numbered list ===\nINPUT:\n{md1}OUTPUT:\n{o1}===\n");

    let md2 = "## 1. Problem\n";
    let b2 = markdown_to_blocks(md2);
    let o2 = blocks_to_markdown(&b2).unwrap();
    println!("=== Issue 2: Number in heading ===\nINPUT:\n{md2}OUTPUT:\n{o2}===\n");

    let md3 = "| A | B |\n|---|---|\n| 1 | 2 |\n";
    let b3 = markdown_to_blocks(md3);
    let o3 = blocks_to_markdown(&b3).unwrap();
    println!("=== Issue 3: Table separator ===\nINPUT:\n{md3}OUTPUT:\n{o3}===\n");

    let md4 = "- **A** — desc\n- **B** — desc\n";
    let b4 = markdown_to_blocks(md4);
    let o4 = blocks_to_markdown(&b4).unwrap();
    println!("=== Issue 4: Tight bullet list ===\nINPUT:\n{md4}OUTPUT:\n{o4}===\n");

    let md5 = "> Quote line 1\n> Quote line 2\n";
    let b5 = markdown_to_blocks(md5);
    let o5 = blocks_to_markdown(&b5).unwrap();
    println!("=== Issue 5: Blockquote ===\nINPUT:\n{md5}OUTPUT:\n{o5}===\n");
}

#[test]
fn blocks_ids_are_unique() {
    let blocks = markdown_to_blocks_with("# A\n\n# B\n\n# C\n", &mut IdRecord::new(RandomIds));
    let ids: Vec<_> = blocks.iter().map(|b| &b.id).collect();
    for (i, id) in ids.iter().enumerate() {
        for (j, other) in ids.iter().enumerate() {
            if i != j {
                assert_ne!(id, other, "IDs must be unique");
            }
        }
    }
}

#[test]
fn markdown_blocks_have_given_ids_in_order() {
    let blocks = markdown_to_blocks_with("# A\n\nB\n", &mut IdRecord::new(test_id_gen()));
    assert_eq!(blocks.len(), 2);
    assert_eq!(blocks[0].id, "test-1");
    assert_eq!(blocks[1].id, "test-2");
}

#[test]
fn markdown_quote_children_and_content() {
    let blocks = markdown_to_blocks_with("> first\n>\n> second\n>\n> ---\n", &mut IdRecord::new(test_id_gen()));
    assert_eq!(blocks.len(), 1);
    assert_eq!(blocks[0].block_type, BlockType::Quote);
    match &inline(&blocks[0])[0] {
        InlineContent::Text { text, .. } => assert_eq!(text, "first"),
        _ => panic!("expected text"),
    }
    assert_eq!(blocks[0].children.len(), 2);
    assert_eq!(blocks[0].children[0].block_type, BlockType::Paragraph);
    assert_eq!(blocks[0].children[1].block_type, BlockType::Divider);
}

#[test]
fn markdown_numbered_list_keeps_start() {
    let blocks = markdown_to_blocks_with("3. three\n4. four\n", &mut IdRecord::new(test_id_gen()));
    assert_eq!(blocks.len(), 2);
    assert_eq!(blocks[0].props.start, Some(3));
    assert_eq!(blocks[1].props.start, Some(3));
    let blocks = markdown_to_blocks_with("1. one\n", &mut IdRecord::new(test_id_gen()));
    assert_eq!(blocks[0].props.start, None);
}

#[test]
fn markdown_loose_list_marks_spread() {
    let blocks = markdown_to_blocks_with("- a\n\n- b\n", &mut IdRecord::new(test_id_gen()));
    assert_eq!(blocks.len(), 2);
    assert_eq!(blocks[0].props.get_other("listSpread").as_deref(), Some("true"));
    let output = blocks_to_markdown(&blocks).unwrap();
    assert_eq!(output, "- a\n\n- b\n");
}

#[test]
fn markdown_inline_styles_nest() {
    let blocks = markdown_to_blocks_with("***~~x~~*** `c` [**l**](u)\n", &mut IdRecord::new(test_id_gen()));
    let items = inline(&blocks[0]);
    match &items[0] {
        InlineContent::Text { text, styles } => {
            assert_eq!(text, "x");
            assert!(styles.bold && styles.italic && styles.strikethrough && !styles.code);
        }
        _ => panic!("expected text"),
    }
    assert!(items.iter().any(|c| matches!(c, InlineContent::Text { text, styles } if text == "c" && styles.code)));
    let link = items.iter().find(|c| matches!(c, InlineContent::Link { .. })).unwrap();
    match link {
        InlineContent::Link { href, content } => {
            assert_eq!(href, "u");
            assert!(matches!(&content[0], InlineContent::Text { text, styles } if text == "l" && styles.bold));
        }
        _ => panic!("expected link"),
    }
}

#[test]
fn markdown_table_header_row() {
    let blocks = markdown_to_blocks_with("| A | B |\n|---|---|\n| 1 | 2 |\n", &mut IdRecord::new(test_id_gen()));
    let t = blocks[0].content.as_table().unwrap();
    assert_eq!(t.header_rows, Some(1));
    assert_eq!(t.header_cols, None);
    assert_eq!(t.column_widths, vec![None, None]);
    assert_eq!(t.rows[0].cells.len(), 2);
    let _ = BlockContent::Empty;
}

/// Markdown through blocks and the document tree, back to blocks.
fn markdown_through_tree(md: &str) -> Vec<Block> {
    let blocks = markdown_to_blocks(md);
    let group = swarm_markdown::blocknote::doc_tree::blocks_to_fragment(&blocks, &mut test_id_gen());
    swarm_markdown::blocknote::doc_tree::doc_to_blocks(&[group]).unwrap()
}

#[test]
fn md_to_doc_to_md_roundtrip() {
    let md = r"# Title

Hello **bold** and *italic* text.

- bullet one
- bullet two

1. first
2. second

- [x] done
- [ ] pending

```rust
fn main() {}
```

---

![photo](pic.png)

| A | B |
|---|---|
| 1 | 2 |
";

    let output = blocks_to_markdown(&markdown_through_tree(md)).unwrap();

    assert!(output.contains("# Title"), "heading preserved");
    assert!(output.contains("**bold**"), "bold preserved");
    assert!(output.contains("*italic*"), "italic preserved");
    assert!(output.contains("bullet"), "bullet list preserved");
    assert!(output.contains("1."), "ordered list preserved");
    assert!(output.contains("[x]"), "checked task preserved");
    assert!(output.contains("[ ]"), "unchecked task preserved");
    assert!(output.contains("```rust"), "code fence preserved");
    assert!(output.contains("fn main()"), "code content preserved");
    assert!(output.contains("---"), "divider preserved");
    assert!(output.contains("![photo](pic.png)"), "image preserved");
}

#[test]
fn md_to_doc_to_blocks_preserves_structure() {
    let blocks = markdown_through_tree("## Hello\n\nWorld\n");
    assert_eq!(blocks.len(), 2);
    assert_eq!(blocks[0].block_type, BlockType::Heading);
    assert_eq!(blocks[0].props.level, Some(2));
    assert_eq!(blocks[1].block_type, BlockType::Paragraph);
}

#[test]
fn markdown_nested_ids_children_first() {
    let blocks = markdown_to_blocks_with("- parent\n  - child\n", &mut IdRecord::new(test_id_gen()));
    assert_eq!(blocks[0].children[0].id, "test-1");
    assert_eq!(blocks[0].id, "test-2");
    let quote = markdown_to_blocks_with("> first\n>\n> second\n>\n> ---\n", &mut IdRecord::new(test_id_gen()));
    assert_eq!(quote[0].children[0].id, "test-1");
    assert_eq!(quote[0].children[1].id, "test-2");
    assert_eq!(quote[0].id, "test-3");
}

#[test]
fn markdown_random_ids_are_url_safe() {
    let blocks = markdown_to_blocks("# A\n\n- b\n  - c\n");
    let all = vec![&blocks[0].id, &blocks[1].id, &blocks[1].children[0].id];
    assert_ne!(all[0], all[1]);
    assert_ne!(all[0], all[2]);
    assert_ne!(all[1], all[2]);
    for id in all {
        assert_eq!(id.chars().count(), 21);
        assert!(id.chars().all(|c| c.is_ascii_alphanumeric() || c == '_' || c == '-'));
    }
}
