use swarm_markdown::blocknote::blocks::{Block, InlineContent, Styles};
use swarm_markdown::blocknote::doc_tree::{blocks_to_fragment, doc_to_blocks};
use swarm_markdown::blocknote::markdown::IdGenerator;
use swarm_markdown::blocknote::schema::BlockType;

struct NoIds;

impl IdGenerator for NoIds {
    fn next_id(&mut self) -> String {
        "generated".to_string()
    }
}

/// Write blocks as a document tree and read them back.
fn through_tree(blocks: &[Block]) -> Vec<Block> {
    let group = blocks_to_fragment(blocks, &mut NoIds);
    doc_to_blocks(&[group]).unwrap()
}

fn make_paragraph(id: &str, text: &str) -> Block {
    Block::new(BlockType::Paragraph, id.into()).with_content(vec![InlineContent::plain(text)])
}

#[test]
fn roundtrip_paragraph() {
    let result = through_tree(&[make_paragraph("p1", "Hello world")]);
    assert_eq!(result.len(), 1);
    assert_eq!(result[0].block_type, BlockType::Paragraph);
    assert_eq!(result[0].id, "p1");
    match &result[0].content.as_inline()[0] {
        InlineContent::Text { text, .. } => assert_eq!(text, "Hello world"),
        _ => panic!("expected text"),
    }
}

#[test]
fn roundtrip_heading_with_props() {
    let mut block = Block::new(BlockType::Heading, "h1".into())
        .with_level(2)
        .with_content(vec![InlineContent::plain("Title")]);
    block.props.text_color = Some("red".into());
    block.props.text_alignment = Some("center".into());
    let result = through_tree(&[block]);
    assert_eq!(result[0].props.level, Some(2));
    assert_eq!(result[0].props.text_color.as_deref(), Some("red"));
    assert_eq!(result[0].props.text_alignment.as_deref(), Some("center"));
}

#[test]
fn roundtrip_bold_text() {
    let blocks = vec![Block::new(BlockType::Paragraph, "p1".into()).with_content(vec![
        InlineContent::styled("Hello ", Styles::default().with_bold()),
        InlineContent::plain("world"),
    ])];
    let result = through_tree(&blocks);
    let inlines = result[0].content.as_inline();
    assert_eq!(inlines.len(), 2);
    match &inlines[0] {
        InlineContent::Text { text, styles } => {
            assert_eq!(text, "Hello ");
            assert!(styles.bold);
        }
        _ => panic!("expected text"),
    }
    match &inlines[1] {
        InlineContent::Text { text, styles } => {
            assert_eq!(text, "world");
            assert!(!styles.bold);
        }
        _ => panic!("expected text"),
    }
}

#[test]
fn roundtrip_link() {
    let blocks = vec![Block::new(BlockType::Paragraph, "p1".into()).with_content(vec![InlineContent::link(
        "https://example.com",
        vec![InlineContent::plain("click here")],
    )])];
    let result = through_tree(&blocks);
    match &result[0].content.as_inline()[0] {
        InlineContent::Link { href, content } => {
            assert_eq!(href, "https://example.com");
            match &content[0] {
                InlineContent::Text { text, .. } => assert_eq!(text, "click here"),
                _ => panic!("expected text inside link"),
            }
        }
        _ => panic!("expected link"),
    }
}

#[test]
fn roundtrip_nested_children() {
    let blocks = vec![Block::new(BlockType::BulletListItem, "list1".into())
        .with_content(vec![InlineContent::plain("parent")])
        .with_children(vec![make_paragraph("child1", "child paragraph")])];
    let result = through_tree(&blocks);
    assert_eq!(result[0].children.len(), 1);
    assert_eq!(result[0].children[0].block_type, BlockType::Paragraph);
    assert_eq!(result[0].children[0].id, "child1");
}

#[test]
fn roundtrip_preserves_id() {
    let result = through_tree(&[make_paragraph("my-custom-id", "text")]);
    assert_eq!(result[0].id, "my-custom-id");
}

#[test]
fn yrs_test_roundtrip_divider() {
    let result = through_tree(&[Block::new(BlockType::Divider, "d1".into())]);
    assert_eq!(result[0].block_type, BlockType::Divider);
    assert!(result[0].content.is_empty());
}

#[test]
fn yrs_test_roundtrip_image() {
    let blocks = vec![Block::new(BlockType::Image, "img1".into()).with_url("photo.png").with_caption("A photo")];
    let result = through_tree(&blocks);
    assert_eq!(result[0].block_type, BlockType::Image);
    assert_eq!(result[0].props.url.as_deref(), Some("photo.png"));
    assert_eq!(result[0].props.caption.as_deref(), Some("A photo"));
}

#[test]
fn tree_blocks_without_id_get_one() {
    let result = through_tree(&[make_paragraph("", "text")]);
    assert_eq!(result[0].id, "generated");
}
