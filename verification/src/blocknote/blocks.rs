//! Blocks: the document nodes, their content and inline content.

use vstd::prelude::*;
use crate::blocknote::props::Props;
use crate::blocknote::schema::{default_props_spec, has_inline_content_spec, BlockType};
use crate::text::owned;

verus! {

/// Inline formatting styles.
#[derive(Debug, Clone, Copy, Default, PartialEq, Eq, Structural)]
pub struct Styles {
    pub bold: bool,
    pub italic: bool,
    pub underline: bool,
    pub strikethrough: bool,
    pub code: bool,
}

impl Styles {
    /// These styles, bold.
    pub fn with_bold(self) -> (r: Self)
        ensures
            r == (Styles { bold: true, ..self }),
    {
        Styles { bold: true, ..self }
    }

    /// These styles, italic.
    pub fn with_italic(self) -> (r: Self)
        ensures
            r == (Styles { italic: true, ..self }),
    {
        Styles { italic: true, ..self }
    }

    /// These styles, struck through.
    pub fn with_strikethrough(self) -> (r: Self)
        ensures
            r == (Styles { strikethrough: true, ..self }),
    {
        Styles { strikethrough: true, ..self }
    }

    /// These styles, as code.
    pub fn with_code(self) -> (r: Self)
        ensures
            r == (Styles { code: true, ..self }),
    {
        Styles { code: true, ..self }
    }

    /// Whether no style is set.
    pub fn is_empty(&self) -> (r: bool)
        ensures
            r == (!self.bold && !self.italic && !self.underline && !self.strikethrough && !self.code),
    {
        !self.bold && !self.italic && !self.underline && !self.strikethrough && !self.code
    }
}

/// No style is set by default.
pub fn default_styles() -> (r: Styles)
    ensures
        !r.bold && !r.italic && !r.underline && !r.strikethrough && !r.code,
{
    Styles { bold: false, italic: false, underline: false, strikethrough: false, code: false }
}

/// Inline content within a block.
#[derive(Debug, PartialEq)]
pub enum InlineContent {
    Text { text: String, styles: Styles },
    Link { href: String, content: Vec<InlineContent> },
    HardBreak,
}

impl InlineContent {
    /// A plain text segment with no formatting.
    pub fn plain(text: &str) -> (r: Self)
        ensures
            r matches InlineContent::Text { text: t, styles } && t@ == text@ && !styles.bold && !styles.italic
                && !styles.underline && !styles.strikethrough && !styles.code,
    {
        InlineContent::Text { text: owned(text), styles: default_styles() }
    }

    /// A text segment with the given styles.
    pub fn styled(text: &str, styles: Styles) -> (r: Self)
        ensures
            r matches InlineContent::Text { text: t, styles: s } && t@ == text@ && s == styles,
    {
        InlineContent::Text { text: owned(text), styles }
    }

    /// A link wrapping inline content.
    pub fn link(href: &str, content: Vec<InlineContent>) -> (r: Self)
        ensures
            r matches InlineContent::Link { href: h, content: c } && h@ == href@ && c == content,
    {
        InlineContent::Link { href: owned(href), content }
    }
}

/// Type of a table cell element.
#[derive(Debug, Clone, Copy, PartialEq, Eq, Structural)]
pub enum TableCellType {
    TableCell,
    TableHeader,
}

/// Properties of a table cell.
#[derive(Debug, Clone, PartialEq)]
pub struct TableCellProps {
    pub background_color: String,
    pub text_color: String,
    pub text_alignment: String,
    pub colspan: u32,
    pub rowspan: u32,
    pub colwidth: Option<Vec<u32>>,
}

impl Default for TableCellProps {
    fn default() -> (p: Self)
        ensures
            p.background_color@ == "default"@,
            p.text_color@ == "default"@,
            p.text_alignment@ == "left"@,
            p.colspan == 1,
            p.rowspan == 1,
            p.colwidth is None,
    {
        TableCellProps {
            background_color: owned("default"),
            text_color: owned("default"),
            text_alignment: owned("left"),
            colspan: 1,
            rowspan: 1,
            colwidth: None,
        }
    }
}

/// A single table cell.
#[derive(Debug, PartialEq)]
pub struct TableCell {
    pub cell_type: TableCellType,
    pub props: TableCellProps,
    pub content: Vec<InlineContent>,
}

/// A single table row.
#[derive(Debug, PartialEq)]
pub struct TableRow {
    pub cells: Vec<TableCell>,
}

/// Table content structure.
#[derive(Debug, PartialEq)]
pub struct TableContent {
    pub column_widths: Vec<Option<u32>>,
    pub header_rows: Option<usize>,
    pub header_cols: Option<usize>,
    pub rows: Vec<TableRow>,
}

/// An empty table.
pub open spec fn empty_table(t: TableContent) -> bool {
    t.column_widths@.len() == 0 && t.header_rows is None && t.header_cols is None && t.rows@.len() == 0
}

impl Default for TableContent {
    fn default() -> (t: Self)
        ensures
            empty_table(t),
    {
        TableContent { column_widths: Vec::new(), header_rows: None, header_cols: None, rows: Vec::new() }
    }
}

/// Block content: inline text, a table, or nothing.
#[derive(Debug, PartialEq)]
pub enum BlockContent {
    /// Inline rich text content (paragraph, heading, list items, code block).
    Inline(Vec<InlineContent>),
    /// Table content structure.
    Table(TableContent),
    /// No content (image, divider, etc.).
    Empty,
}

impl Default for BlockContent {
    fn default() -> (c: Self)
        ensures
            c is Empty,
    {
        BlockContent::Empty
    }
}

impl BlockContent {
    /// The inline content, or nothing when this is not inline content.
    pub fn as_inline(&self) -> (r: &[InlineContent])
        ensures
            r@ == match *self {
                BlockContent::Inline(v) => v@,
                _ => Seq::empty(),
            },
    {
        match self {
            BlockContent::Inline(v) => v.as_slice(),
            _ => &[],
        }
    }

    /// The inline content for changing, if this is inline content.
    pub fn as_inline_mut(&mut self) -> (r: Option<&mut Vec<InlineContent>>)
        ensures
            (r is Some) == (*old(self) is Inline),
            r is Some ==> *r.unwrap() == old(self)->Inline_0,
            r is Some ==> *final(self) == BlockContent::Inline(*final(r.unwrap())),
            r is None ==> *final(self) == *old(self),
    {
        match self {
            BlockContent::Inline(v) => Some(v),
            _ => None,
        }
    }

    /// The table content, if this is a table.
    pub fn as_table(&self) -> (r: Option<&TableContent>)
        ensures
            match *self {
                BlockContent::Table(t) => r == Some(&t),
                _ => r is None,
            },
    {
        match self {
            BlockContent::Table(t) => Some(t),
            _ => None,
        }
    }

    /// Whether there is no content: no inline items, no table rows, or nothing.
    pub fn is_empty(&self) -> (r: bool)
        ensures
            r == match *self {
                BlockContent::Inline(v) => v@.len() == 0,
                BlockContent::Table(t) => t.rows@.len() == 0,
                BlockContent::Empty => true,
            },
    {
        match self {
            BlockContent::Inline(v) => v.len() == 0,
            BlockContent::Table(t) => t.rows.len() == 0,
            BlockContent::Empty => true,
        }
    }
}

/// A single document node.
#[derive(Debug, PartialEq)]
pub struct Block {
    pub id: String,
    pub block_type: BlockType,
    pub props: Props,
    pub content: BlockContent,
    pub children: Vec<Block>,
}

/// The ids of a block and of every block under it: those of its children
/// first, in order, then its own.
pub open spec fn block_ids(b: Block) -> Seq<Seq<char>>
    decreases b, 0int,
{
    blocks_ids(b.children@) + seq![b.id@]
}

/// The ids of blocks and of every block under them, block after block.
pub open spec fn blocks_ids(bs: Seq<Block>) -> Seq<Seq<char>>
    decreases bs, 1int,
{
    if bs.len() == 0 {
        Seq::empty()
    } else {
        blocks_ids(bs.drop_last()) + block_ids(bs.last())
    }
}

/// A block without children has only its own id.
pub proof fn lemma_leaf_ids(b: Block)
    requires
        b.children@.len() == 0,
    ensures
        block_ids(b) == seq![b.id@],
{
    assert(blocks_ids(b.children@) =~= Seq::<Seq<char>>::empty());
    assert(block_ids(b) =~= seq![b.id@]);
}

/// The ids of blocks one after the other are those of the first, then those
/// of the second.
pub proof fn lemma_blocks_ids_append(a: Seq<Block>, b: Seq<Block>)
    ensures
        blocks_ids(a + b) == blocks_ids(a) + blocks_ids(b),
    decreases b.len(),
{
    if b.len() == 0 {
        assert(a + b =~= a);
        assert(blocks_ids(a) + blocks_ids(b) =~= blocks_ids(a));
    } else {
        assert((a + b).drop_last() =~= a + b.drop_last());
        assert((a + b).last() == b.last());
        lemma_blocks_ids_append(a, b.drop_last());
        assert(blocks_ids(a + b) =~= blocks_ids(a) + blocks_ids(b));
    }
}

/// Blocks with one more at the end.
pub proof fn lemma_blocks_ids_push(a: Seq<Block>, b: Block)
    ensures
        blocks_ids(a.push(b)) == blocks_ids(a) + block_ids(b),
{
    assert(a.push(b).drop_last() =~= a);
    assert(a.push(b).last() == b);
}

/// The content a new block of a type starts with: empty inline content, an
/// empty table, or none.
pub open spec fn initial_content(t: BlockType, c: BlockContent) -> bool {
    if has_inline_content_spec(t) {
        c matches BlockContent::Inline(v) && v@.len() == 0
    } else if t == BlockType::Table {
        c matches BlockContent::Table(tc) && empty_table(tc)
    } else {
        c is Empty
    }
}

impl Block {
    /// Create a new block with default props for the given type, empty content
    /// and children.
    pub fn new(block_type: BlockType, id: String) -> (b: Self)
        ensures
            b.id == id,
            b.block_type == block_type,
            default_props_spec(block_type, b.props),
            initial_content(block_type, b.content),
            b.children@.len() == 0,
    {
        let content = if block_type.has_inline_content() {
            BlockContent::Inline(Vec::new())
        } else if block_type == BlockType::Table {
            BlockContent::Table(TableContent::default())
        } else {
            BlockContent::Empty
        };
        Block { id, props: block_type.default_props(), block_type, content, children: Vec::new() }
    }

    /// Set the inline content.
    pub fn with_inline_content(self, content: Vec<InlineContent>) -> (r: Self)
        ensures
            r == (Block { content: BlockContent::Inline(content), ..self }),
    {
        Block { content: BlockContent::Inline(content), ..self }
    }

    /// Set the inline content.
    pub fn with_content(self, content: Vec<InlineContent>) -> (r: Self)
        ensures
            r == (Block { content: BlockContent::Inline(content), ..self }),
    {
        Block { content: BlockContent::Inline(content), ..self }
    }

    /// Set the table content.
    pub fn with_table_content(self, table: TableContent) -> (r: Self)
        ensures
            r == (Block { content: BlockContent::Table(table), ..self }),
    {
        Block { content: BlockContent::Table(table), ..self }
    }

    /// Set the children blocks.
    pub fn with_children(self, children: Vec<Block>) -> (r: Self)
        ensures
            r == (Block { children, ..self }),
    {
        Block { children, ..self }
    }

    /// Set the heading level.
    pub fn with_level(self, level: u8) -> (r: Self)
        ensures
            r == (Block { props: Props { level: Some(level), ..self.props }, ..self }),
    {
        let mut s = self;
        s.props.level = Some(level);
        s
    }

    /// Set the checked state (for check list items).
    pub fn with_checked(self, checked: bool) -> (r: Self)
        ensures
            r == (Block { props: Props { checked: Some(checked), ..self.props }, ..self }),
    {
        let mut s = self;
        s.props.checked = Some(checked);
        s
    }

    /// Set the code block language.
    pub fn with_language(self, lang: &str) -> (r: Self)
        ensures
            r.props.language matches Some(l) && l@ == lang@,
            r == (Block { props: Props { language: r.props.language, ..self.props }, ..self }),
    {
        let mut s = self;
        s.props.language = Some(owned(lang));
        s
    }

    /// Set the list start number.
    pub fn with_start(self, start: usize) -> (r: Self)
        ensures
            r == (Block { props: Props { start: Some(start), ..self.props }, ..self }),
    {
        let mut s = self;
        s.props.start = Some(start);
        s
    }

    /// Set the media URL.
    pub fn with_url(self, url: &str) -> (r: Self)
        ensures
            r.props.url matches Some(u) && u@ == url@,
            r == (Block { props: Props { url: r.props.url, ..self.props }, ..self }),
    {
        let mut s = self;
        s.props.url = Some(owned(url));
        s
    }

    /// Set the media caption.
    pub fn with_caption(self, caption: &str) -> (r: Self)
        ensures
            r.props.caption matches Some(c) && c@ == caption@,
            r == (Block { props: Props { caption: r.props.caption, ..self.props }, ..self }),
    {
        let mut s = self;
        s.props.caption = Some(owned(caption));
        s
    }
}

}
