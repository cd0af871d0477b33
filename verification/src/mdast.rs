//! The markdown syntax tree (mdast) that the serializer reads.
//!
//! Each node kind holds, as plain values, the fields that serialization looks at.

use vstd::prelude::*;

verus! {

/// How a table column is aligned.
#[derive(Debug, Clone, Copy, PartialEq, Eq)]
pub enum AlignKind {
    Left,
    Right,
    Center,
    /// No alignment given for the column.
    Unset,
}

/// The kind of a reference (`[a][b]`, `[a][]`, `[a]`).
#[derive(Debug, Clone, Copy, PartialEq, Eq)]
pub enum ReferenceKind {
    Shortcut,
    Collapsed,
    Full,
}

#[derive(Debug, PartialEq, Eq)]
pub struct Root {
    pub children: Vec<Node>,
}

#[derive(Debug, PartialEq, Eq)]
pub struct Blockquote {
    pub children: Vec<Node>,
}

#[derive(Debug, PartialEq, Eq)]
pub struct FootnoteDefinition {
    pub children: Vec<Node>,
    pub identifier: String,
    pub label: Option<String>,
}

#[derive(Debug, PartialEq, Eq)]
pub struct MdxJsxFlowElement {
    pub children: Vec<Node>,
    pub name: Option<String>,
}

#[derive(Debug, PartialEq, Eq)]
pub struct List {
    pub children: Vec<Node>,
    pub ordered: bool,
    pub start: Option<u32>,
    pub spread: bool,
}

#[derive(Debug, PartialEq, Eq)]
pub struct MdxjsEsm {
    pub value: String,
}

#[derive(Debug, PartialEq, Eq)]
pub struct Toml {
    pub value: String,
}

#[derive(Debug, PartialEq, Eq)]
pub struct Yaml {
    pub value: String,
}

#[derive(Debug, PartialEq, Eq)]
pub struct Break {}

#[derive(Debug, PartialEq, Eq)]
pub struct InlineCode {
    pub value: String,
}

#[derive(Debug, PartialEq, Eq)]
pub struct InlineMath {
    pub value: String,
}

#[derive(Debug, PartialEq, Eq)]
pub struct Delete {
    pub children: Vec<Node>,
}

#[derive(Debug, PartialEq, Eq)]
pub struct Emphasis {
    pub children: Vec<Node>,
}

#[derive(Debug, PartialEq, Eq)]
pub struct MdxTextExpression {
    pub value: String,
}

#[derive(Debug, PartialEq, Eq)]
pub struct FootnoteReference {
    pub identifier: String,
    pub label: Option<String>,
}

#[derive(Debug, PartialEq, Eq)]
pub struct Html {
    pub value: String,
}

#[derive(Debug, PartialEq, Eq)]
pub struct Image {
    pub alt: String,
    pub url: String,
    pub title: Option<String>,
}

#[derive(Debug, PartialEq, Eq)]
pub struct ImageReference {
    pub alt: String,
    pub reference_kind: ReferenceKind,
    pub identifier: String,
    pub label: Option<String>,
}

#[derive(Debug, PartialEq, Eq)]
pub struct MdxJsxTextElement {
    pub children: Vec<Node>,
    pub name: Option<String>,
}

#[derive(Debug, PartialEq, Eq)]
pub struct Link {
    pub children: Vec<Node>,
    pub url: String,
    pub title: Option<String>,
}

#[derive(Debug, PartialEq, Eq)]
pub struct LinkReference {
    pub children: Vec<Node>,
    pub reference_kind: ReferenceKind,
    pub identifier: String,
    pub label: Option<String>,
}

#[derive(Debug, PartialEq, Eq)]
pub struct Strong {
    pub children: Vec<Node>,
}

#[derive(Debug, PartialEq, Eq)]
pub struct Text {
    pub value: String,
}

#[derive(Debug, PartialEq, Eq)]
pub struct Code {
    pub value: String,
    pub lang: Option<String>,
    pub meta: Option<String>,
}

#[derive(Debug, PartialEq, Eq)]
pub struct Math {
    pub value: String,
    pub meta: Option<String>,
}

#[derive(Debug, PartialEq, Eq)]
pub struct MdxFlowExpression {
    pub value: String,
}

#[derive(Debug, PartialEq, Eq)]
pub struct Heading {
    pub children: Vec<Node>,
    pub depth: u8,
}

#[derive(Debug, PartialEq, Eq)]
pub struct Table {
    pub children: Vec<Node>,
    pub align: Vec<AlignKind>,
}

#[derive(Debug, PartialEq, Eq)]
pub struct ThematicBreak {}

#[derive(Debug, PartialEq, Eq)]
pub struct TableRow {
    pub children: Vec<Node>,
}

#[derive(Debug, PartialEq, Eq)]
pub struct TableCell {
    pub children: Vec<Node>,
}

#[derive(Debug, PartialEq, Eq)]
pub struct ListItem {
    pub children: Vec<Node>,
    pub checked: Option<bool>,
    pub spread: bool,
}

#[derive(Debug, PartialEq, Eq)]
pub struct Definition {
    pub url: String,
    pub title: Option<String>,
    pub identifier: String,
    pub label: Option<String>,
}

#[derive(Debug, PartialEq, Eq)]
pub struct Paragraph {
    pub children: Vec<Node>,
}

/// A node of the markdown syntax tree.
#[derive(Debug, PartialEq, Eq)]
pub enum Node {
    Root(Root),
    Blockquote(Blockquote),
    FootnoteDefinition(FootnoteDefinition),
    MdxJsxFlowElement(MdxJsxFlowElement),
    List(List),
    MdxjsEsm(MdxjsEsm),
    Toml(Toml),
    Yaml(Yaml),
    Break(Break),
    InlineCode(InlineCode),
    InlineMath(InlineMath),
    Delete(Delete),
    Emphasis(Emphasis),
    MdxTextExpression(MdxTextExpression),
    FootnoteReference(FootnoteReference),
    Html(Html),
    Image(Image),
    ImageReference(ImageReference),
    MdxJsxTextElement(MdxJsxTextElement),
    Link(Link),
    LinkReference(LinkReference),
    Strong(Strong),
    Text(Text),
    Code(Code),
    Math(Math),
    MdxFlowExpression(MdxFlowExpression),
    Heading(Heading),
    Table(Table),
    ThematicBreak(ThematicBreak),
    TableRow(TableRow),
    TableCell(TableCell),
    ListItem(ListItem),
    Definition(Definition),
    Paragraph(Paragraph),
}

/// Every child of a node, whatever its kind.
pub open spec fn node_children(n: Node) -> Seq<Node> {
    match n {
        Node::Root(x) => x.children@,
        Node::Blockquote(x) => x.children@,
        Node::FootnoteDefinition(x) => x.children@,
        Node::MdxJsxFlowElement(x) => x.children@,
        Node::List(x) => x.children@,
        Node::Delete(x) => x.children@,
        Node::Emphasis(x) => x.children@,
        Node::MdxJsxTextElement(x) => x.children@,
        Node::Link(x) => x.children@,
        Node::LinkReference(x) => x.children@,
        Node::Strong(x) => x.children@,
        Node::Heading(x) => x.children@,
        Node::Table(x) => x.children@,
        Node::TableRow(x) => x.children@,
        Node::TableCell(x) => x.children@,
        Node::ListItem(x) => x.children@,
        Node::Paragraph(x) => x.children@,
        _ => Seq::empty(),
    }
}

/// Each child of a node is structurally smaller than the node.
pub proof fn lemma_children_decrease(n: Node)
    ensures
        forall|i: int| 0 <= i < node_children(n).len() ==> decreases_to!(n => #[trigger] node_children(n)[i]),
{
    assert forall|i: int| 0 <= i < node_children(n).len() implies decreases_to!(n => #[trigger] node_children(n)[i]) by {
        match n {
            Node::Root(x) => assert(decreases_to!(n => x.children@[i])),
            Node::Blockquote(x) => assert(decreases_to!(n => x.children@[i])),
            Node::FootnoteDefinition(x) => assert(decreases_to!(n => x.children@[i])),
            Node::MdxJsxFlowElement(x) => assert(decreases_to!(n => x.children@[i])),
            Node::List(x) => assert(decreases_to!(n => x.children@[i])),
            Node::Delete(x) => assert(decreases_to!(n => x.children@[i])),
            Node::Emphasis(x) => assert(decreases_to!(n => x.children@[i])),
            Node::MdxJsxTextElement(x) => assert(decreases_to!(n => x.children@[i])),
            Node::Link(x) => assert(decreases_to!(n => x.children@[i])),
            Node::LinkReference(x) => assert(decreases_to!(n => x.children@[i])),
            Node::Strong(x) => assert(decreases_to!(n => x.children@[i])),
            Node::Heading(x) => assert(decreases_to!(n => x.children@[i])),
            Node::Table(x) => assert(decreases_to!(n => x.children@[i])),
            Node::TableRow(x) => assert(decreases_to!(n => x.children@[i])),
            Node::TableCell(x) => assert(decreases_to!(n => x.children@[i])),
            Node::ListItem(x) => assert(decreases_to!(n => x.children@[i])),
            Node::Paragraph(x) => assert(decreases_to!(n => x.children@[i])),
            _ => {},
        }
    }
}

}
