use std::str::FromStr;

use swarm_markdown::blocknote::blocks::{
    Block, BlockContent, InlineContent, Styles, TableCell, TableCellProps, TableCellType, TableContent, TableRow,
};
use swarm_markdown::blocknote::doc_tree::{
    blocks_to_fragment, decode_cell_props, decode_fragment, doc_to_blocks, encode_inline_content, props_from_attrs, props_to_attrs,
    TextRun, XmlElement, XmlNode,
};
use swarm_markdown::blocknote::error::ConvertError;
use swarm_markdown::blocknote::from_mdast::mdast_to_blocks;
use swarm_markdown::blocknote::markdown::{blocks_to_markdown, blocks_to_mdast, IdGenerator, IdRecord};
use swarm_markdown::blocknote::numbers::{parse_uint, parse_width_list};
use swarm_markdown::blocknote::props::Props;
use swarm_markdown::blocknote::schema::BlockType;

struct TestIds {
    counter: u32,
}

impl IdGenerator for TestIds {
    fn next_id(&mut self) -> String {
        self.counter += 1;
        format!("gen-{}", self.counter)
    }
}

fn ids() -> TestIds {
    TestIds { counter: 0 }
}

/// Write blocks as a document tree and read them back.
fn roundtrip(blocks: Vec<Block>) {
    let group = blocks_to_fragment(&blocks, &mut ids());
    let output = doc_to_blocks(&[group]).unwrap();
    assert_eq!(output, blocks);
}

fn text_props() -> Props {
    Props {
        background_color: Some("default".into()),
        text_color: Some("default".into()),
        text_alignment: Some("left".into()),
        ..Props::default()
    }
}

fn plain(text: &str) -> InlineContent {
    InlineContent::plain(text)
}

fn cell(text: &str) -> TableCell {
    TableCell { cell_type: TableCellType::TableCell, props: TableCellProps::default(), content: vec![plain(text)] }
}

fn block(id: &str, block_type: BlockType, props: Props, content: BlockContent, children: Vec<Block>) -> Block {
    Block { id: id.into(), block_type, props, content, children }
}

#[test]
fn block_type_strum_roundtrip() {
    let bt = BlockType::NumberedListItem;
    let s = bt.name().to_string();
    assert_eq!(s, "numberedListItem");
    let parsed = BlockType::from_str(&s).unwrap();
    assert_eq!(parsed, bt);
}

#[test]
fn props_typed_fields() {
    let props = Props {
        level: Some(3),
        checked: Some(true),
        language: Some("rust".into()),
        url: Some("img.png".into()),
        caption: Some("A photo".into()),
        start: Some(5),
        ..Props::default()
    };

    assert_eq!(props.level, Some(3));
    assert_eq!(props.checked, Some(true));
    assert_eq!(props.language.as_deref(), Some("rust"));
    assert_eq!(props.url.as_deref(), Some("img.png"));
    assert_eq!(props.caption.as_deref(), Some("A photo"));
    assert_eq!(props.start, Some(5));
}

#[test]
fn roundtrip_simple_paragraphs() {
    roundtrip(vec![
        block("1", BlockType::Paragraph, text_props(), BlockContent::Inline(vec![plain("First paragraph")]), vec![]),
        block(
            "2",
            BlockType::Paragraph,
            Props { text_alignment: Some("center".into()), ..text_props() },
            BlockContent::Inline(vec![plain("Second paragraph")]),
            vec![],
        ),
    ]);
}

#[test]
fn roundtrip_deeply_nested_lists() {
    let l4 = block("4", BlockType::BulletListItem, text_props(), BlockContent::Inline(vec![plain("Level 4")]), vec![]);
    let l3 = block("3", BlockType::BulletListItem, text_props(), BlockContent::Inline(vec![plain("Level 3")]), vec![l4]);
    let l2 = block("2", BlockType::BulletListItem, text_props(), BlockContent::Inline(vec![plain("Level 2")]), vec![l3]);
    let l1 = block("1", BlockType::BulletListItem, text_props(), BlockContent::Inline(vec![plain("Level 1")]), vec![l2]);
    roundtrip(vec![l1]);
}

#[test]
fn roundtrip_numbered_lists() {
    roundtrip(vec![
        block("1", BlockType::NumberedListItem, text_props(), BlockContent::Inline(vec![plain("First item")]), vec![]),
        block(
            "2",
            BlockType::NumberedListItem,
            text_props(),
            BlockContent::Inline(vec![plain("Second item")]),
            vec![block("3", BlockType::NumberedListItem, text_props(), BlockContent::Inline(vec![plain("Nested item")]), vec![])],
        ),
    ]);
}

#[test]
fn roundtrip_checklists() {
    roundtrip(vec![
        block(
            "1",
            BlockType::CheckListItem,
            Props { checked: Some(true), ..text_props() },
            BlockContent::Inline(vec![plain("Completed task")]),
            vec![],
        ),
        block(
            "2",
            BlockType::CheckListItem,
            Props { checked: Some(false), ..text_props() },
            BlockContent::Inline(vec![plain("Pending task")]),
            vec![block(
                "3",
                BlockType::CheckListItem,
                Props { checked: Some(false), ..text_props() },
                BlockContent::Inline(vec![plain("Subtask")]),
                vec![],
            )],
        ),
    ]);
}

#[test]
fn roundtrip_code_blocks() {
    roundtrip(vec![
        block(
            "1",
            BlockType::CodeBlock,
            Props { language: Some("javascript".into()), ..Props::default() },
            BlockContent::Inline(vec![plain("console.log(\"Hello, world!\");")]),
            vec![],
        ),
        block(
            "2",
            BlockType::CodeBlock,
            Props { language: Some("typescript".into()), ..Props::default() },
            BlockContent::Inline(vec![plain("const x: number = 42;")]),
            vec![],
        ),
    ]);
}

#[test]
fn roundtrip_headings_with_levels() {
    roundtrip(vec![
        block(
            "1",
            BlockType::Heading,
            Props { level: Some(1), is_toggleable: Some(false), ..text_props() },
            BlockContent::Inline(vec![plain("Heading 1")]),
            vec![],
        ),
        block(
            "2",
            BlockType::Heading,
            Props { level: Some(2), is_toggleable: Some(false), ..text_props() },
            BlockContent::Inline(vec![plain("Heading 2")]),
            vec![],
        ),
        block(
            "3",
            BlockType::Heading,
            Props { level: Some(3), is_toggleable: Some(true), ..text_props() },
            BlockContent::Inline(vec![plain("Toggle Heading 3")]),
            vec![block(
                "4",
                BlockType::Paragraph,
                text_props(),
                BlockContent::Inline(vec![plain("Content under toggle heading")]),
                vec![],
            )],
        ),
    ]);
}

#[test]
fn roundtrip_inline_styles_and_links() {
    roundtrip(vec![
        block(
            "1",
            BlockType::Paragraph,
            text_props(),
            BlockContent::Inline(vec![
                InlineContent::styled("Bold ", Styles::default().with_bold()),
                InlineContent::styled("italic ", Styles::default().with_italic()),
                InlineContent::styled("underline ", Styles { underline: true, ..Styles::default() }),
                InlineContent::styled("strikethrough ", Styles::default().with_strikethrough()),
                InlineContent::styled("code", Styles::default().with_code()),
            ]),
            vec![],
        ),
        block(
            "2",
            BlockType::Paragraph,
            text_props(),
            BlockContent::Inline(vec![InlineContent::link("https://example.com", vec![plain("Link text")])]),
            vec![],
        ),
    ]);
}

#[test]
fn roundtrip_table() {
    let header = |t: &str| TableCell {
        cell_type: TableCellType::TableCell,
        props: TableCellProps { colwidth: Some(vec![100]), ..TableCellProps::default() },
        content: vec![InlineContent::styled(t, Styles::default().with_bold())],
    };
    roundtrip(vec![block(
        "1",
        BlockType::Table,
        Props { text_color: Some("default".into()), ..Props::default() },
        BlockContent::Table(TableContent {
            column_widths: vec![Some(100), Some(100), Some(100)],
            header_rows: None,
            header_cols: None,
            rows: vec![
                TableRow { cells: vec![header("Header 1"), header("Header 2"), header("Header 3")] },
                TableRow { cells: vec![cell("Cell 1"), cell("Cell 2"), cell("Cell 3")] },
            ],
        }),
        vec![],
    )]);
}

#[test]
fn compat_test_roundtrip_image() {
    roundtrip(vec![block(
        "img1",
        BlockType::Image,
        Props {
            background_color: Some("default".into()),
            text_alignment: Some("left".into()),
            name: Some("Example".into()),
            url: Some("exampleURL".into()),
            caption: Some("Caption".into()),
            show_preview: Some(true),
            preview_width: Some(256),
            ..Props::default()
        },
        BlockContent::Empty,
        vec![],
    )]);
}

#[test]
fn compat_test_roundtrip_divider() {
    roundtrip(vec![
        block("1", BlockType::Paragraph, text_props(), BlockContent::Inline(vec![plain("Before divider")]), vec![]),
        block("2", BlockType::Divider, Props::default(), BlockContent::Empty, vec![]),
        block("3", BlockType::Paragraph, text_props(), BlockContent::Inline(vec![plain("After divider")]), vec![]),
    ]);
}

#[test]
fn roundtrip_quote_with_children() {
    roundtrip(vec![block(
        "1",
        BlockType::Quote,
        text_props(),
        BlockContent::Inline(vec![InlineContent::styled("This is a quote", Styles::default().with_italic())]),
        vec![block("2", BlockType::Paragraph, text_props(), BlockContent::Inline(vec![plain("Nested in quote")]), vec![])],
    )]);
}

#[test]
fn roundtrip_toggle_list_item_with_children() {
    roundtrip(vec![block(
        "1",
        BlockType::ToggleListItem,
        text_props(),
        BlockContent::Inline(vec![plain("Toggle item")]),
        vec![block("2", BlockType::Paragraph, text_props(), BlockContent::Inline(vec![plain("Hidden content")]), vec![])],
    )]);
}

#[test]
fn roundtrip_empty_document() {
    let group = blocks_to_fragment(&[], &mut ids());
    assert!(doc_to_blocks(&[group]).unwrap().is_empty());
}

#[test]
fn table_cell_props_roundtrip() {
    let blocks = vec![block(
        "t1",
        BlockType::Table,
        Props::default(),
        BlockContent::Table(TableContent {
            column_widths: vec![Some(200)],
            header_rows: None,
            header_cols: None,
            rows: vec![TableRow {
                cells: vec![TableCell {
                    cell_type: TableCellType::TableCell,
                    props: TableCellProps {
                        colspan: 2,
                        rowspan: 1,
                        colwidth: Some(vec![200]),
                        background_color: "red".into(),
                        text_color: "default".into(),
                        text_alignment: "left".into(),
                    },
                    content: vec![plain("merged cell")],
                }],
            }],
        }),
        vec![],
    )];
    let group = blocks_to_fragment(&blocks, &mut ids());
    let output = doc_to_blocks(&[group]).unwrap();
    let table = output[0].content.as_table().expect("expected table");
    let cell = &table.rows[0].cells[0];
    assert_eq!(cell.props.colspan, 2);
    assert_eq!(cell.props.rowspan, 1);
    assert_eq!(cell.props.colwidth, Some(vec![200]));
    assert_eq!(cell.props.background_color, "red");
    assert_eq!(cell.props.text_color, "default");
    assert_eq!(cell.props.text_alignment, "left");
}

#[test]
fn roundtrip_original_blocknote_test_case() {
    let image = |id: &str, show_preview: bool| {
        block(
            id,
            BlockType::Image,
            Props {
                background_color: Some("default".into()),
                text_alignment: Some("left".into()),
                name: Some("Example".into()),
                url: Some("exampleURL".into()),
                caption: Some("Caption".into()),
                show_preview: Some(show_preview),
                preview_width: Some(256),
                ..Props::default()
            },
            BlockContent::Empty,
            vec![],
        )
    };
    let blocks = vec![
        block(
            "1",
            BlockType::Heading,
            Props {
                background_color: Some("blue".into()),
                text_color: Some("yellow".into()),
                text_alignment: Some("right".into()),
                level: Some(2),
                is_toggleable: Some(false),
                ..Props::default()
            },
            BlockContent::Inline(vec![
                InlineContent::styled("Heading ", Styles { bold: true, underline: true, ..Styles::default() }),
                InlineContent::styled("2", Styles::default().with_italic().with_strikethrough()),
            ]),
            vec![
                block(
                    "2",
                    BlockType::Paragraph,
                    Props {
                        background_color: Some("red".into()),
                        text_alignment: Some("left".into()),
                        text_color: Some("default".into()),
                        ..Props::default()
                    },
                    BlockContent::Inline(vec![plain("Paragraph")]),
                    vec![],
                ),
                block("3", BlockType::BulletListItem, text_props(), BlockContent::Inline(vec![plain("list item")]), vec![]),
            ],
        ),
        image("4", true),
        image("5", false),
    ];
    roundtrip(blocks);
}

#[test]
fn tree_empty_fragment_has_no_blocks() {
    assert!(doc_to_blocks(&[]).unwrap().is_empty());
}

#[test]
fn tree_wrong_root_is_invalid_schema() {
    let root = XmlNode::Element(XmlElement { tag: "notBlockGroup".into(), attrs: vec![], children: vec![] });
    let err = doc_to_blocks(&[root]).unwrap_err();
    assert_eq!(err, ConvertError::InvalidSchema("expected 'blockGroup', found 'notBlockGroup'".into()));
    assert!(err.message().contains("blockGroup"));
    let err = doc_to_blocks(&[XmlNode::Text(vec![])]).unwrap_err();
    assert_eq!(err, ConvertError::InvalidSchema("root child is not an XmlElement".into()));
}

#[test]
fn fragment_length_without_children_is_invalid_schema() {
    assert!(decode_fragment(0, &[XmlNode::Text(vec![])]).unwrap().is_empty());
    let err = decode_fragment(3, &[]).unwrap_err();
    assert_eq!(err, ConvertError::InvalidSchema("fragment reports non-zero len but no children".into()));
    let root = XmlNode::Element(XmlElement { tag: "blockGroup".into(), attrs: vec![], children: vec![] });
    assert!(decode_fragment(1, &[root]).unwrap().is_empty());
}

#[test]
fn tree_missing_id_is_generated() {
    let blocks = vec![block("", BlockType::Divider, Props::default(), BlockContent::Empty, vec![])];
    let group = blocks_to_fragment(&blocks, &mut ids());
    let output = doc_to_blocks(&[group]).unwrap();
    assert_eq!(output[0].id, "gen-1");
}

#[test]
fn tree_default_props_are_written() {
    let blocks = vec![block("h", BlockType::Heading, Props::default(), BlockContent::Inline(vec![plain("x")]), vec![])];
    let group = blocks_to_fragment(&blocks, &mut ids());
    let output = doc_to_blocks(&[group]).unwrap();
    assert_eq!(output[0].props.level, Some(1));
    assert_eq!(output[0].props.is_toggleable, Some(false));
    assert_eq!(output[0].props.text_color.as_deref(), Some("default"));
    assert_eq!(output[0].props.text_alignment.as_deref(), Some("left"));
}

#[test]
fn tree_adjacent_links_with_one_target_merge() {
    let content = vec![
        InlineContent::link("u", vec![plain("a")]),
        InlineContent::link("u", vec![plain("b")]),
        InlineContent::HardBreak,
    ];
    let runs = encode_inline_content(&content);
    assert_eq!(runs.len(), 2);
    assert_eq!(runs[1].link.as_deref(), Some("u"));
    let blocks = vec![block("p", BlockType::Paragraph, text_props(), BlockContent::Inline(content), vec![])];
    let group = blocks_to_fragment(&blocks, &mut ids());
    let output = doc_to_blocks(&[group]).unwrap();
    assert_eq!(
        output[0].content,
        BlockContent::Inline(vec![InlineContent::link("u", vec![plain("a"), plain("b")])])
    );
}

#[test]
fn tree_props_roundtrip_keeps_other_props() {
    let mut props = Props { level: Some(4), start: Some(12), preview_width: Some(640), ..text_props() };
    props.set_other("custom".into(), "value".into());
    let attrs = props_to_attrs(&props);
    let back = props_from_attrs(&attrs);
    assert_eq!(back, props);
}

#[test]
fn tree_props_ignore_values_without_text_and_bad_numbers() {
    let attrs = vec![
        ("level".to_string(), Some("x".to_string())),
        ("checked".to_string(), Some("yes".to_string())),
        ("name".to_string(), None),
        ("other".to_string(), Some("1".to_string())),
    ];
    let p = props_from_attrs(&attrs);
    assert_eq!(p.level, None);
    assert_eq!(p.checked, Some(false));
    assert_eq!(p.name, None);
    assert_eq!(p.get_other("other").as_deref(), Some("1"));
}

#[test]
fn tree_cell_props_parse_spans_and_widths() {
    let attrs = vec![
        ("colspan".to_string(), Some("2".to_string())),
        ("rowspan".to_string(), Some("bad".to_string())),
        ("colwidth".to_string(), Some(" 10, x ,20".to_string())),
        ("textColor".to_string(), Some("red".to_string())),
    ];
    let p = decode_cell_props(&attrs);
    assert_eq!(p.colspan, 2);
    assert_eq!(p.rowspan, 1);
    assert_eq!(p.colwidth, Some(vec![10, 20]));
    assert_eq!(p.text_color, "red");
    assert_eq!(p.background_color, "default");
}

#[test]
fn tree_text_runs_group_links() {
    let run = |t: &str, marks: &[&str], link: Option<&str>| TextRun {
        insert: Some(t.to_string()),
        marks: marks.iter().map(|m| m.to_string()).collect(),
        link: link.map(|l| l.to_string()),
    };
    let para = XmlElement {
        tag: "paragraph".into(),
        attrs: vec![],
        children: vec![XmlNode::Text(vec![
            run("a", &["bold"], None),
            run("b", &[], Some("x")),
            run("c", &["italic", "link"], Some("x")),
            TextRun { insert: None, marks: vec![], link: None },
            run("d", &["strike"], Some("y")),
        ])],
    };
    let container = XmlElement { tag: "blockContainer".into(), attrs: vec![], children: vec![XmlNode::Element(para)] };
    let group = XmlElement { tag: "blockGroup".into(), attrs: vec![], children: vec![XmlNode::Element(container)] };
    let blocks = doc_to_blocks(&[XmlNode::Element(group)]).unwrap();
    assert_eq!(blocks[0].id, "");
    assert_eq!(
        blocks[0].content,
        BlockContent::Inline(vec![
            InlineContent::styled("a", Styles::default().with_bold()),
            InlineContent::link("x", vec![plain("b"), InlineContent::styled("c", Styles::default().with_italic())]),
            InlineContent::link("y", vec![InlineContent::styled("d", Styles::default().with_strikethrough())]),
        ])
    );
}

#[test]
fn numbers_parse_like_std() {
    assert_eq!(parse_uint("42", 255), Some(42));
    assert_eq!(parse_uint("+7", 255), Some(7));
    assert_eq!(parse_uint("256", 255), None);
    assert_eq!(parse_uint("", 255), None);
    assert_eq!(parse_uint("+", 255), None);
    assert_eq!(parse_uint("-1", 255), None);
    assert_eq!(parse_uint(" 1", 255), None);
    assert_eq!(parse_uint("255", 255), Some(255));
    assert_eq!(parse_width_list("100,200"), vec![100, 200]);
    assert_eq!(parse_width_list(""), Vec::<u32>::new());
}

#[test]
fn props_merge_and_defaults() {
    let own = Props { text_color: Some("red".into()), level: Some(2), ..Props::default() };
    let p = BlockType::Heading.props_with_defaults(&own);
    assert_eq!(p.text_color.as_deref(), Some("red"));
    assert_eq!(p.background_color.as_deref(), Some("default"));
    assert_eq!(p.level, Some(2));
    assert_eq!(p.is_toggleable, Some(false));
    let d = BlockType::CheckListItem.default_props();
    assert_eq!(d.checked, Some(false));
    assert_eq!(BlockType::Image.default_props(), Props::default());
    assert!(BlockType::Quote.has_text_props() && BlockType::Quote.has_inline_content());
    assert!(!BlockType::Table.has_inline_content());
}

#[test]
fn props_other_last_write_wins() {
    let mut p = Props::default();
    p.set_other("k".into(), "1".into());
    p.set_other("k".into(), "2".into());
    assert_eq!(p.get_other("k").as_deref(), Some("2"));
    assert_eq!(p.other.len(), 1);
    assert_eq!(p.get_other("missing"), None);
}

#[test]
fn block_new_defaults() {
    let b = Block::new(BlockType::Table, "t".into());
    assert_eq!(b.content, BlockContent::Table(TableContent::default()));
    let b = Block::new(BlockType::Divider, "d".into());
    assert_eq!(b.content, BlockContent::Empty);
    assert!(b.content.is_empty());
    let b = Block::new(BlockType::Paragraph, "p".into()).with_content(vec![plain("x")]);
    assert_eq!(b.content.as_inline().len(), 1);
    assert_eq!(b.props.text_alignment.as_deref(), Some("left"));
}

#[test]
fn blocks_render_markdown() {
    let blocks = vec![
        Block::new(BlockType::Heading, "h".into()).with_level(2).with_content(vec![plain("Title")]),
        Block::new(BlockType::BulletListItem, "a".into()).with_content(vec![plain("one")]),
        Block::new(BlockType::BulletListItem, "b".into()).with_content(vec![plain("two")]),
        Block::new(BlockType::CheckListItem, "c".into()).with_checked(true).with_content(vec![plain("done")]),
        Block::new(BlockType::NumberedListItem, "n".into()).with_start(3).with_content(vec![plain("three")]),
    ];
    let md = blocks_to_markdown(&blocks).unwrap();
    assert_eq!(md, "## Title\n\n- one\n- two\n\n* [x] done\n\n3. three\n");
}

#[test]
fn error_messages() {
    assert_eq!(ConvertError::MarkdownRender("x".into()).message(), "markdown render error: x");
    assert_eq!(ConvertError::FragmentNotFound("f".into()).message(), "XmlFragment 'f' not found in Y.Doc");
    assert_eq!(ConvertError::InvalidSchema("s".into()).message(), "invalid BlockNote schema: s");
}

#[test]
fn syntax_tree_roundtrip_keeps_inline_content() {
    let content = vec![
        InlineContent::styled("a", Styles::default().with_bold().with_italic()),
        InlineContent::styled("b", Styles::default().with_code().with_strikethrough()),
        InlineContent::link("u", vec![InlineContent::styled("c", Styles::default().with_italic())]),
        InlineContent::HardBreak,
        plain("d"),
    ];
    let blocks = vec![
        Block::new(BlockType::Heading, "h".into()).with_level(3).with_content(vec![plain("t")]),
        Block::new(BlockType::Paragraph, "p".into()).with_content(content),
    ];
    let tree = blocks_to_mdast(&blocks);
    let back = mdast_to_blocks(&tree, &mut IdRecord::new(ids()));
    assert_eq!(back.len(), 2);
    assert_eq!(back[0].props.level, Some(3));
    assert_eq!(back[0].content, blocks[0].content);
    assert_eq!(back[1].content, blocks[1].content);
    assert_eq!(back[1].id, "gen-2");
}
