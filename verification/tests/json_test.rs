use swarm_markdown::blocknote::blocks::BlockContent;
use swarm_markdown::blocknote::markdown::{IdGenerator, IdRecord};
use swarm_markdown::blocknote::parse::{
    default_id_generator, markdown_to_blocks, markdown_to_blocks_with, tree_json_to_blocks,
};
use swarm_markdown::blocknote::schema::BlockType;
use swarm_markdown::json::{parse_json, Json};
use swarm_markdown::mdast as md;
use swarm_markdown::mdast::Node;
use swarm_markdown::mdast_json::decode_node;

struct CountIds(u32);

impl IdGenerator for CountIds {
    fn next_id(&mut self) -> String {
        self.0 += 1;
        format!("id-{}", self.0)
    }
}

fn node_of(json: &str) -> Option<Node> {
    decode_node(&parse_json(json).expect("json"))
}

#[test]
fn json_literals() {
    assert!(matches!(parse_json("null"), Some(Json::Null)));
    assert!(matches!(parse_json("true"), Some(Json::Bool(true))));
    assert!(matches!(parse_json("false"), Some(Json::Bool(false))));
    assert!(matches!(parse_json("nul"), None));
    assert!(matches!(parse_json("[]"), Some(Json::Array(v)) if v.is_empty()));
    assert!(matches!(parse_json("{}"), Some(Json::Object(v)) if v.is_empty()));
}

#[test]
fn json_numbers_keep_their_text() {
    match parse_json("[12,-3,0]") {
        Some(Json::Array(items)) => {
            let texts: Vec<String> = items
                .iter()
                .map(|i| match i {
                    Json::Number(t) => t.clone(),
                    _ => panic!("not a number"),
                })
                .collect();
            assert_eq!(texts, vec!["12".to_string(), "-3".to_string(), "0".to_string()]);
        }
        _ => panic!("not an array"),
    }
    assert!(parse_json("-").is_none());
    assert!(parse_json("1.5").is_none());
}

#[test]
fn json_string_escapes() {
    match parse_json(r#""a\"b\\c\/d\n\t\r\b\f\u0041\u00e9é""#) {
        Some(Json::Str(s)) => assert_eq!(s, "a\"b\\c/d\n\t\r\u{8}\u{c}A\u{e9}é"),
        other => panic!("{:?}", other),
    }
}

#[test]
fn json_string_errors() {
    assert!(parse_json(r#""\ud800""#).is_none());
    assert!(parse_json(r#""\x""#).is_none());
    assert!(parse_json(r#""\u00g1""#).is_none());
    assert!(parse_json(r#""open"#).is_none());
}

#[test]
fn json_object_members_in_order() {
    match parse_json(r#"{"b":1,"a":[true,null],"c":{"d":"e"}}"#) {
        Some(Json::Object(ms)) => {
            let keys: Vec<&str> = ms.iter().map(|m| m.key.as_str()).collect();
            assert_eq!(keys, vec!["b", "a", "c"]);
            assert!(matches!(&ms[1].value, Json::Array(v) if v.len() == 2));
        }
        other => panic!("{:?}", other),
    }
}

#[test]
fn json_refuses_whitespace_and_trailing_text() {
    assert!(parse_json("[1, 2]").is_none());
    assert!(parse_json("[1]x").is_none());
    assert!(parse_json("{\"a\" :1}").is_none());
    assert!(parse_json("[1,]").is_none());
    assert!(parse_json("").is_none());
}

#[test]
fn decode_paragraph_with_text() {
    let n = node_of(
        r#"{"type":"paragraph","children":[{"type":"text","value":"hi","position":{"start":{"line":1}}}],"position":null}"#,
    );
    assert_eq!(
        n,
        Some(Node::Paragraph(md::Paragraph {
            children: vec![Node::Text(md::Text { value: "hi".to_string() })]
        }))
    );
}

#[test]
fn decode_fields_of_each_shape() {
    assert_eq!(
        node_of(r#"{"type":"heading","children":[],"depth":2}"#),
        Some(Node::Heading(md::Heading { children: vec![], depth: 2 }))
    );
    assert_eq!(
        node_of(r#"{"type":"list","children":[],"ordered":true,"start":3,"spread":false}"#),
        Some(Node::List(md::List { children: vec![], ordered: true, start: Some(3), spread: false }))
    );
    assert_eq!(
        node_of(r#"{"type":"listItem","children":[],"spread":true,"checked":false}"#),
        Some(Node::ListItem(md::ListItem { children: vec![], checked: Some(false), spread: true }))
    );
    assert_eq!(
        node_of(r#"{"type":"code","value":"x","lang":"rs"}"#),
        Some(Node::Code(md::Code { value: "x".to_string(), lang: Some("rs".to_string()), meta: None }))
    );
    assert_eq!(
        node_of(r#"{"type":"table","children":[],"align":["left",null,"center","right"]}"#),
        Some(Node::Table(md::Table {
            children: vec![],
            align: vec![md::AlignKind::Left, md::AlignKind::Unset, md::AlignKind::Center, md::AlignKind::Right]
        }))
    );
    assert_eq!(
        node_of(r#"{"type":"linkReference","children":[],"referenceType":"full","identifier":"a","label":"A"}"#),
        Some(Node::LinkReference(md::LinkReference {
            children: vec![],
            reference_kind: md::ReferenceKind::Full,
            identifier: "a".to_string(),
            label: Some("A".to_string())
        }))
    );
    assert_eq!(node_of(r#"{"type":"thematicBreak"}"#), Some(Node::ThematicBreak(md::ThematicBreak {})));
}

#[test]
fn decode_refuses_what_is_no_node() {
    assert_eq!(node_of(r#"{"type":"heading","children":[],"depth":300}"#), None);
    assert_eq!(node_of(r#"{"type":"heading","depth":1}"#), None);
    assert_eq!(node_of(r#"{"type":"sparkle"}"#), None);
    assert_eq!(node_of(r#"{"children":[]}"#), None);
    assert_eq!(node_of(r#"{"type":"text"}"#), None);
    assert_eq!(node_of(r#"{"type":"table","children":[],"align":["middle"]}"#), None);
    assert_eq!(node_of(r#"{"type":"root","children":[{"type":"text"}]}"#), None);
    assert_eq!(node_of(r#"[1]"#), None);
}

#[test]
fn decode_last_member_wins() {
    assert_eq!(
        node_of(r#"{"type":"text","value":"a","value":"b"}"#),
        Some(Node::Text(md::Text { value: "b".to_string() }))
    );
}

#[test]
fn tree_json_gives_blocks() {
    let json = r#"{"type":"root","children":[{"type":"heading","children":[{"type":"text","value":"Hi"}],"depth":1}]}"#;
    let blocks = tree_json_to_blocks(json, &mut IdRecord::new(CountIds(0)));
    assert_eq!(blocks.len(), 1);
    assert_eq!(blocks[0].block_type, BlockType::Heading);
    assert_eq!(blocks[0].id, "id-1");
}

#[test]
fn tree_json_that_is_no_tree_gives_no_blocks() {
    assert!(tree_json_to_blocks("not json", &mut IdRecord::new(CountIds(0))).is_empty());
    assert!(tree_json_to_blocks(r#"{"type":"nope"}"#, &mut IdRecord::new(CountIds(0))).is_empty());
    assert!(tree_json_to_blocks(r#"{"type":"paragraph","children":[]}"#, &mut IdRecord::new(CountIds(0))).is_empty());
}

#[test]
fn markdown_is_parsed_through_the_tree() {
    let blocks = markdown_to_blocks_with("# Title\n\nSome *text*\n", &mut IdRecord::new(CountIds(0)));
    assert_eq!(blocks.len(), 2);
    assert_eq!(blocks[0].block_type, BlockType::Heading);
    assert_eq!(blocks[1].block_type, BlockType::Paragraph);
    assert!(matches!(blocks[1].content, BlockContent::Inline(_)));
    assert_eq!(blocks[1].id, "id-2");
}

#[test]
fn markdown_with_unicode_and_escapes() {
    let blocks = markdown_to_blocks_with("Ünïcode \"quote\" \\ tab\there\n", &mut IdRecord::new(CountIds(0)));
    assert_eq!(blocks.len(), 1);
    let text: String = blocks[0]
        .content
        .as_inline()
        .iter()
        .map(|i| match i {
            swarm_markdown::blocknote::blocks::InlineContent::Text { text, .. } => text.clone(),
            _ => String::new(),
        })
        .collect();
    assert_eq!(text, "Ünïcode \"quote\" \\ tab\there");
}

#[test]
fn default_ids_are_21_safe_characters() {
    let id = default_id_generator();
    assert_eq!(id.chars().count(), 21);
    assert!(id.chars().all(|c| c.is_ascii_alphanumeric() || c == '_' || c == '-'));
    let blocks = markdown_to_blocks("a\n\nb\n");
    assert_eq!(blocks.len(), 2);
    assert_eq!(blocks[0].id.len(), 21);
    assert_ne!(blocks[0].id, blocks[1].id);
}
