//! Conversion of a markdown syntax tree into blocks.

use vstd::prelude::*;
use crate::blocknote::props::Props;
use crate::blocknote::blocks::{
    default_styles, Block, BlockContent, InlineContent, Styles, TableCell, TableCellProps,
    TableCellType, TableContent, TableRow, block_ids, blocks_ids, initial_content, lemma_blocks_ids_append,
    lemma_blocks_ids_push, lemma_leaf_ids,
};
use crate::blocknote::markdown::{block_inline, block_node_ok, inline_node_ok, inline_nodes_ok, only_child, wrapped, IdGenerator, IdRecord};
use crate::blocknote::props::other_lookup;
use crate::blocknote::schema::{default_props_base, default_props_spec, BlockType};
use crate::mdast::{self as md, Node};
use crate::text::owned;

verus! {

// ── Inline content ──────────────────────────────────────────

/// Inline content as a mathematical value.
pub enum InlineView {
    Text(Seq<char>, Styles),
    Link(Seq<char>, Seq<InlineView>),
    HardBreak,
}

/// The value of one inline item.
pub open spec fn inline_view(i: InlineContent) -> InlineView
    decreases i,
{
    match i {
        InlineContent::Text { text, styles } => InlineView::Text(text@, styles),
        InlineContent::Link { href, content } => InlineView::Link(href@, inline_views(content@)),
        InlineContent::HardBreak => InlineView::HardBreak,
    }
}

/// The values of a sequence of inline items.
pub open spec fn inline_views(s: Seq<InlineContent>) -> Seq<InlineView>
    decreases s,
{
    if s.len() == 0 {
        Seq::empty()
    } else {
        inline_views(s.drop_last()).push(inline_view(s.last()))
    }
}

/// The inline content that phrasing nodes become under the given styles:
/// text and inline code become text segments (code adds the code style),
/// strong, emphasis and strikethrough add their style to what they hold, a
/// link keeps its target around what it holds, a break is a hard break, an
/// image gives its alt text, and a paragraph gives what it holds.
pub open spec fn collect_spec(children: Seq<Node>, st: Styles) -> Seq<InlineView>
    decreases children,
{
    if children.len() == 0 {
        Seq::empty()
    } else {
        collect_spec(children.drop_last(), st) + node_inlines(children.last(), st)
    }
}

/// The inline content that one phrasing node becomes under the given styles.
pub open spec fn node_inlines(n: Node, st: Styles) -> Seq<InlineView>
    decreases n,
{
    match n {
        Node::Text(t) => seq![InlineView::Text(t.value@, st)],
        Node::InlineCode(c) => seq![InlineView::Text(c.value@, Styles { code: true, ..st })],
        Node::Break(_) => seq![InlineView::HardBreak],
        Node::Strong(s) => collect_spec(s.children@, Styles { bold: true, ..st }),
        Node::Emphasis(e) => collect_spec(e.children@, Styles { italic: true, ..st }),
        Node::Delete(d) => collect_spec(d.children@, Styles { strikethrough: true, ..st }),
        Node::Link(l) => seq![InlineView::Link(l.url@, collect_spec(l.children@, st))],
        Node::Image(img) => seq![InlineView::Text(img.alt@, st)],
        Node::Paragraph(p) => collect_spec(p.children@, st),
        _ => Seq::empty(),
    }
}

/// The styles of plain text.
pub open spec fn no_styles() -> Styles {
    Styles { bold: false, italic: false, underline: false, strikethrough: false, code: false }
}

/// Append the inline content of phrasing nodes, under the given styles.
fn collect_inlines_recursive(children: &[Node], parent_styles: &Styles, result: &mut Vec<InlineContent>)
    ensures
        inline_views(final(result)@) == inline_views(old(result)@) + collect_spec(children@, *parent_styles),
    decreases children@,
{
    let mut i: usize = 0;
    while i < children.len()
        invariant
            i <= children.len(),
            inline_views(result@) == inline_views(old(result)@) + collect_spec(children@.take(i as int), *parent_styles),
        decreases children.len() - i,
    {
        let child = &children[i];
        let ghost before = result@;
        proof {
            assert(decreases_to!(children@ => children@[i as int]));
            assert(children@.take(i + 1).drop_last() =~= children@.take(i as int));
            assert(children@.take(i + 1).last() == children@[i as int]);
        }
        match child {
            Node::Text(t) => {
                let item = InlineContent::Text { text: t.value.clone(), styles: *parent_styles };
                result.push(item);
                proof { lemma_views_push(before, item); }
            },
            Node::InlineCode(c) => {
                let item = InlineContent::Text { text: c.value.clone(), styles: parent_styles.with_code() };
                result.push(item);
                proof { lemma_views_push(before, item); }
            },
            Node::Break(_) => {
                result.push(InlineContent::HardBreak);
                proof { lemma_views_push(before, InlineContent::HardBreak); }
            },
            Node::Strong(s) => {
                proof {
                    assert(decreases_to!(children@[i as int] => *s));
                    assert(decreases_to!(*s => s.children));
                    assert(decreases_to!(s.children => s.children@));
                }
                collect_inlines_recursive(s.children.as_slice(), &parent_styles.with_bold(), result);
            },
            Node::Emphasis(e) => {
                proof {
                    assert(decreases_to!(children@[i as int] => *e));
                    assert(decreases_to!(*e => e.children));
                    assert(decreases_to!(e.children => e.children@));
                }
                collect_inlines_recursive(e.children.as_slice(), &parent_styles.with_italic(), result);
            },
            Node::Delete(d) => {
                proof {
                    assert(decreases_to!(children@[i as int] => *d));
                    assert(decreases_to!(*d => d.children));
                    assert(decreases_to!(d.children => d.children@));
                }
                collect_inlines_recursive(d.children.as_slice(), &parent_styles.with_strikethrough(), result);
            },
            Node::Link(link) => {
                proof {
                    assert(decreases_to!(children@[i as int] => *link));
                    assert(decreases_to!(*link => link.children));
                    assert(decreases_to!(link.children => link.children@));
                }
                let mut link_content: Vec<InlineContent> = Vec::new();
                collect_inlines_recursive(link.children.as_slice(), parent_styles, &mut link_content);
                proof {
                    assert(inline_views(Seq::<InlineContent>::empty()) =~= Seq::<InlineView>::empty());
                    assert(inline_views(link_content@) =~= collect_spec(link.children@, *parent_styles));
                }
                let item = InlineContent::Link { href: link.url.clone(), content: link_content };
                result.push(item);
                proof { lemma_views_push(before, item); }
            },
            Node::Image(img) => {
                let item = InlineContent::Text { text: img.alt.clone(), styles: *parent_styles };
                result.push(item);
                proof { lemma_views_push(before, item); }
            },
            Node::Paragraph(p) => {
                proof {
                    assert(decreases_to!(children@[i as int] => *p));
                    assert(decreases_to!(*p => p.children));
                    assert(decreases_to!(p.children => p.children@));
                }
                collect_inlines_recursive(p.children.as_slice(), parent_styles, result);
            },
            _ => {
                assert(node_inlines(children@[i as int], *parent_styles) =~= Seq::<InlineView>::empty());
            },
        }
        proof {
            assert(inline_views(result@) =~= inline_views(before) + node_inlines(children@[i as int], *parent_styles));
            lemma_collect_step(children@, i as int, *parent_styles);
            assert(inline_views(result@) =~= inline_views(old(result)@) + collect_spec(children@.take(i + 1), *parent_styles));
        }
        i += 1;
    }
    proof {
        assert(children@.take(children@.len() as int) =~= children@);
    }
}

/// Appending an item appends its value.
proof fn lemma_views_push(s: Seq<InlineContent>, x: InlineContent)
    ensures
        inline_views(s.push(x)) == inline_views(s).push(inline_view(x)),
        inline_views(s.push(x)) == inline_views(s) + seq![inline_view(x)],
{
    assert(s.push(x).drop_last() =~= s);
    assert(inline_views(s).push(inline_view(x)) =~= inline_views(s) + seq![inline_view(x)]);
}

/// One more child adds what that child becomes.
proof fn lemma_collect_step(children: Seq<Node>, i: int, st: Styles)
    requires
        0 <= i < children.len(),
    ensures
        collect_spec(children.take(i + 1), st) == collect_spec(children.take(i), st) + node_inlines(children[i], st),
{
    assert(children.take(i + 1).drop_last() =~= children.take(i));
}

/// Collect inline content from phrasing nodes, starting from plain text.
pub fn collect_inline_content_from_children(children: &[Node]) -> (r: Vec<InlineContent>)
    ensures
        inline_views(r@) == collect_spec(children@, no_styles()),
{
    let mut result: Vec<InlineContent> = Vec::new();
    let st = default_styles();
    collect_inlines_recursive(children, &st, &mut result);
    proof {
        assert(inline_views(Seq::<InlineContent>::empty()) =~= Seq::<InlineView>::empty());
        assert(inline_views(result@) =~= collect_spec(children@, no_styles()));
    }
    result
}


// ── Blocks ──────────────────────────────────────────────────

/// The inline content of block content, if it is inline.
pub open spec fn content_views(c: BlockContent) -> Option<Seq<InlineView>> {
    match c {
        BlockContent::Inline(v) => Some(inline_views(v@)),
        _ => None,
    }
}

/// The nodes that become blocks of their own.
pub open spec fn converts_to_block(n: Node) -> bool {
    n is Heading || n is Paragraph || n is Code || n is ThematicBreak || n is Table || n is Blockquote
}

/// The list items among nodes, in order.
pub open spec fn list_items(children: Seq<Node>) -> Seq<md::ListItem>
    decreases children.len(),
{
    if children.len() == 0 {
        Seq::empty()
    } else {
        let rest = list_items(children.drop_last());
        match children.last() {
            Node::ListItem(li) => rest.push(li),
            _ => rest,
        }
    }
}

/// The table rows among nodes, in order.
pub open spec fn table_rows(children: Seq<Node>) -> Seq<md::TableRow>
    decreases children.len(),
{
    if children.len() == 0 {
        Seq::empty()
    } else {
        let rest = table_rows(children.drop_last());
        match children.last() {
            Node::TableRow(r) => rest.push(r),
            _ => rest,
        }
    }
}

/// The table cells among nodes, in order.
pub open spec fn table_cells(children: Seq<Node>) -> Seq<md::TableCell>
    decreases children.len(),
{
    if children.len() == 0 {
        Seq::empty()
    } else {
        let rest = table_cells(children.drop_last());
        match children.last() {
            Node::TableCell(c) => rest.push(c),
            _ => rest,
        }
    }
}

/// The inline content of a list item: that of its first paragraph that has
/// any.
pub open spec fn item_content(children: Seq<Node>) -> Seq<InlineView>
    decreases children.len(),
{
    if children.len() == 0 {
        Seq::empty()
    } else {
        let c = item_content(children.drop_last());
        match children.last() {
            Node::Paragraph(p) => if c.len() == 0 { collect_spec(p.children@, no_styles()) } else { c },
            _ => c,
        }
    }
}

/// The child blocks that the children of a list item give: a paragraph
/// block for each paragraph after the content, and the blocks of each nested
/// list.
pub open spec fn item_blocks_ok(children: Seq<Node>, bs: Seq<Block>) -> bool
    decreases children,
{
    if children.len() == 0 {
        bs.len() == 0
    } else {
        let prev = children.drop_last();
        let x = children.last();
        if x is Paragraph && item_content(prev).len() > 0 {
            &&& bs.len() > 0
            &&& text_block_ok(bs.last(), BlockType::Paragraph, collect_spec(x->Paragraph_0.children@, no_styles()))
            &&& item_blocks_ok(prev, bs.drop_last())
        } else if x is List {
            let n = list_items(x->List_0.children@).len();
            &&& n <= bs.len()
            &&& item_blocks_ok(prev, bs.subrange(0, bs.len() - n))
            &&& list_blocks_ok(x->List_0, x->List_0.children@, bs.subrange(bs.len() - n, bs.len() as int))
        } else {
            item_blocks_ok(prev, bs)
        }
    }
}

/// The blocks that the children of a list give: one per list item.
pub open spec fn list_blocks_ok(list: md::List, children: Seq<Node>, bs: Seq<Block>) -> bool
    decreases children,
{
    if children.len() == 0 {
        bs.len() == 0
    } else {
        match children.last() {
            Node::ListItem(li) => {
                &&& bs.len() > 0
                &&& item_block_ok(list, li, bs.last())
                &&& list_blocks_ok(list, children.drop_last(), bs.drop_last())
            },
            _ => list_blocks_ok(list, children.drop_last(), bs),
        }
    }
}

/// The block type a list item becomes: a check item when it has a checkbox,
/// else a numbered or bullet item as the list is ordered or not.
pub open spec fn item_kind(ordered: bool, li: md::ListItem) -> BlockType {
    if li.checked is Some {
        BlockType::CheckListItem
    } else if ordered {
        BlockType::NumberedListItem
    } else {
        BlockType::BulletListItem
    }
}

/// The block a list item of a list becomes.
pub open spec fn item_block_ok(list: md::List, li: md::ListItem, b: Block) -> bool
    decreases li,
{
    let kind = item_kind(list.ordered, li);
    let start: u32 = match list.start {
        Some(s) => s,
        None => 1,
    };
    &&& b.block_type == kind
    &&& default_props_base(kind, b.props)
    &&& b.props.level is None
    &&& b.props.checked == match li.checked {
        Some(c) => Some(c),
        None => None,
    }
    &&& b.props.start == if kind == BlockType::NumberedListItem && start != 1 {
        Some(start as usize)
    } else {
        None
    }
    &&& (list.spread ==> other_lookup(b.props.other@, "listSpread"@) == Some("true"@) && b.props.other@.len() == 1)
    &&& (!list.spread ==> b.props.other@.len() == 0)
    &&& content_views(b.content) == Some(item_content(li.children@))
    &&& item_blocks_ok(li.children@, b.children@)
}

/// A block of the given type with its default props and the given inline
/// content.
pub open spec fn text_block_ok(b: Block, t: BlockType, content: Seq<InlineView>) -> bool {
    &&& b.block_type == t
    &&& default_props_spec(t, b.props)
    &&& content_views(b.content) == Some(content)
    &&& b.children@.len() == 0
}

/// The inline content of a blockquote: that of its first paragraph, if it
/// has one.
pub open spec fn quote_content(children: Seq<Node>) -> Option<Seq<InlineView>>
    decreases children.len(),
{
    if children.len() == 0 {
        None
    } else {
        let c = quote_content(children.drop_last());
        let x = children.last();
        if c is None && x is Paragraph {
            Some(collect_spec(x->Paragraph_0.children@, no_styles()))
        } else {
            c
        }
    }
}

/// The child blocks that the children of a blockquote give: the block of
/// each node that converts, but the first paragraph.
pub open spec fn quote_blocks_ok(children: Seq<Node>, bs: Seq<Block>) -> bool
    decreases children,
{
    if children.len() == 0 {
        bs.len() == 0
    } else {
        let prev = children.drop_last();
        let x = children.last();
        if quote_content(prev) is None && x is Paragraph {
            quote_blocks_ok(prev, bs)
        } else if converts_to_block(x) {
            &&& bs.len() > 0
            &&& node_block_ok(x, bs.last())
            &&& quote_blocks_ok(prev, bs.drop_last())
        } else {
            quote_blocks_ok(prev, bs)
        }
    }
}

/// The cells that a table row becomes.
pub open spec fn row_ok(r: md::TableRow, row: TableRow, header: bool) -> bool {
    let cells = table_cells(r.children@);
    &&& row.cells@.len() == cells.len()
    &&& forall|j: int| 0 <= j < cells.len() ==> {
        let c = #[trigger] row.cells@[j];
        &&& c.cell_type == if header { TableCellType::TableHeader } else { TableCellType::TableCell }
        &&& inline_views(c.content@) == collect_spec(cells[j].children@, no_styles())
        &&& c.props.colspan == 1 && c.props.rowspan == 1 && c.props.colwidth is None
    }
}

/// The table that a table node becomes: one row per table row node (the
/// row at the first position is the header row), no column widths yet, and
/// one header row when the first row is a header row with cells.
pub open spec fn table_ok(t: md::Table, tc: TableContent) -> bool {
    let rows = table_rows(t.children@);
    let first_is_header = t.children@.len() > 0 && t.children@[0] is TableRow;
    &&& tc.rows@.len() == rows.len()
    &&& (forall|i: int| 0 <= i < rows.len() ==> row_ok(rows[i], #[trigger] tc.rows@[i], i == 0 && first_is_header))
    &&& tc.column_widths@.len() == if rows.len() > 0 { table_cells(rows[0].children@).len() } else { 0 }
    &&& (forall|i: int| 0 <= i < tc.column_widths@.len() ==> (#[trigger] tc.column_widths@[i]) is None)
    &&& tc.header_rows == if first_is_header && table_cells(rows[0].children@).len() > 0 { Some(1usize) } else { None }
    &&& tc.header_cols is None
}

/// A row block of a table: a `TableRow` block with default props and nothing
/// in or under it.
pub open spec fn row_block_ok(b: Block) -> bool {
    &&& b.block_type == BlockType::TableRow
    &&& default_props_spec(BlockType::TableRow, b.props)
    &&& initial_content(BlockType::TableRow, b.content)
    &&& b.children@.len() == 0
}

/// The block a node becomes.
pub open spec fn node_block_ok(n: Node, b: Block) -> bool
    decreases n,
{
    match n {
        Node::Heading(h) => {
            &&& b.block_type == BlockType::Heading
            &&& default_props_spec(BlockType::Heading, Props { level: Some(1u8), ..b.props })
            &&& b.props.level == Some(h.depth)
            &&& content_views(b.content) == Some(collect_spec(h.children@, no_styles()))
            &&& b.children@.len() == 0
        },
        Node::Paragraph(p) => text_block_ok(b, BlockType::Paragraph, collect_spec(p.children@, no_styles())),
        Node::Code(c) => {
            &&& b.block_type == BlockType::CodeBlock
            &&& default_props_base(BlockType::CodeBlock, Props { language: None, ..b.props })
            &&& b.props.level is None && b.props.checked is None && b.props.start is None && b.props.other@.len() == 0
            &&& b.props.language matches Some(l) && l@ == match c.lang {
                Some(x) => x@,
                None => Seq::empty(),
            }
            &&& content_views(b.content) == Some(seq![InlineView::Text(c.value@, no_styles())])
            &&& b.children@.len() == 0
        },
        Node::ThematicBreak(_) => {
            &&& b.block_type == BlockType::Divider
            &&& default_props_spec(BlockType::Divider, b.props)
            &&& b.content is Empty
            &&& b.children@.len() == 0
        },
        Node::Table(t) => {
            &&& b.block_type == BlockType::Table
            &&& default_props_spec(BlockType::Table, b.props)
            &&& b.content matches BlockContent::Table(tc) && table_ok(t, tc)
            &&& b.children@.len() == table_rows(t.children@).len()
            &&& forall|i: int| 0 <= i < b.children@.len() ==> row_block_ok(#[trigger] b.children@[i])
        },
        Node::Blockquote(q) => {
            &&& b.block_type == BlockType::Quote
            &&& default_props_spec(BlockType::Quote, b.props)
            &&& content_views(b.content) == Some(match quote_content(q.children@) {
                Some(c) => c,
                None => Seq::empty(),
            })
            &&& quote_blocks_ok(q.children@, b.children@)
        },
        _ => false,
    }
}

/// The block an image becomes: an image block with its URL and its alt text
/// as caption.
pub open spec fn image_block_ok(img: md::Image, b: Block) -> bool {
    &&& b.block_type == BlockType::Image
    &&& default_props_base(BlockType::Image, Props { url: None, caption: None, ..b.props })
    &&& b.props.level is None && b.props.checked is None && b.props.start is None && b.props.other@.len() == 0
    &&& b.props.url matches Some(u) && u@ == img.url@
    &&& b.props.caption matches Some(c) && c@ == img.alt@
    &&& b.content is Empty
    &&& b.children@.len() == 0
}

/// A paragraph that holds exactly one node, an image.
pub open spec fn image_paragraph(n: Node) -> bool {
    n matches Node::Paragraph(p) && p.children@.len() == 1 && p.children@[0] is Image
}

/// The blocks that one child of the root becomes: one per item of a list, an
/// image block for a paragraph that is one image, one block for a node that
/// converts, and none for the rest.
pub open spec fn child_blocks_ok(n: Node, bs: Seq<Block>) -> bool {
    if n is List {
        list_blocks_ok(n->List_0, n->List_0.children@, bs)
    } else if image_paragraph(n) {
        bs.len() == 1 && image_block_ok(n->Paragraph_0.children@[0]->Image_0, bs[0])
    } else if converts_to_block(n) {
        bs.len() == 1 && node_block_ok(n, bs[0])
    } else {
        bs.len() == 0
    }
}

/// How many blocks one child of the root becomes.
pub open spec fn child_count(n: Node) -> nat {
    if n is List {
        list_items(n->List_0.children@).len()
    } else if converts_to_block(n) {
        1
    } else {
        0
    }
}

/// The blocks that the children of the root become, in order.
pub open spec fn root_blocks_ok(children: Seq<Node>, bs: Seq<Block>) -> bool
    decreases children.len(),
{
    if children.len() == 0 {
        bs.len() == 0
    } else {
        let k = bs.len() - child_count(children.last());
        &&& 0 <= k
        &&& root_blocks_ok(children.drop_last(), bs.take(k))
        &&& child_blocks_ok(children.last(), bs.skip(k))
    }
}

/// A list gives one block per list item.
proof fn lemma_list_blocks_len(list: md::List, children: Seq<Node>, bs: Seq<Block>)
    requires
        list_blocks_ok(list, children, bs),
    ensures
        bs.len() == list_items(children).len(),
    decreases children.len(),
{
    if children.len() > 0 {
        if children.last() is ListItem {
            lemma_list_blocks_len(list, children.drop_last(), bs.drop_last());
        } else {
            lemma_list_blocks_len(list, children.drop_last(), bs);
        }
    }
}

/// The blocks of one more child follow those of the children before it.
proof fn lemma_root_step(children: Seq<Node>, bs: Seq<Block>, j: int)
    requires
        children.len() > 0,
        0 <= j <= bs.len(),
        root_blocks_ok(children.drop_last(), bs.take(j)),
        child_blocks_ok(children.last(), bs.skip(j)),
    ensures
        root_blocks_ok(children, bs),
{
    let x = children.last();
    if x is List {
        lemma_list_blocks_len(x->List_0, x->List_0.children@, bs.skip(j));
    }
}

/// The value of a sequence has one item per item.
proof fn lemma_views_len(s: Seq<InlineContent>)
    ensures
        inline_views(s).len() == s.len(),
    decreases s.len(),
{
    if s.len() > 0 {
        lemma_views_len(s.drop_last());
    }
}

/// The value of a single item.
proof fn lemma_views_single(x: InlineContent)
    ensures
        inline_views(seq![x]) == seq![inline_view(x)],
{
    assert(seq![x].drop_last() =~= Seq::<InlineContent>::empty());
    assert(inline_views(Seq::<InlineContent>::empty()) =~= Seq::<InlineView>::empty());
    assert(inline_views(seq![x]) =~= seq![inline_view(x)]);
}

/// Whether a node is a paragraph holding exactly one image.
fn is_image_paragraph(node: &Node) -> (r: bool)
    ensures
        r == image_paragraph(*node),
{
    match node {
        Node::Paragraph(p) => {
            if p.children.len() != 1 {
                return false;
            }
            match &p.children[0] {
                Node::Image(_) => true,
                _ => false,
            }
        },
        _ => false,
    }
}

/// The image block of the first image in a paragraph.
fn extract_image_from_paragraph<G: IdGenerator>(node: &Node, id_gen: &mut IdRecord<G>) -> (r: Option<Block>)
    ensures
        (r is Some) == (node matches Node::Paragraph(p) && exists|i: int| 0 <= i < p.children@.len() && #[trigger] p.children@[i] is Image),
        r matches Some(b) ==> node matches Node::Paragraph(p) && exists|i: int|
            0 <= i < p.children@.len() && (forall|j: int| 0 <= j < i ==> !(#[trigger] p.children@[j] is Image))
                && (#[trigger] p.children@[i] matches Node::Image(img) && image_block_ok(img, b)),
        final(id_gen).issued() == match r {
            Some(b) => old(id_gen).issued() + block_ids(b),
            None => old(id_gen).issued(),
        },
{
    let ghost issued0 = id_gen.issued();
    match node {
        Node::Paragraph(p) => {
            let mut i: usize = 0;
            while i < p.children.len()
                invariant
                    i <= p.children.len(),
                    *node == Node::Paragraph(*p),
                    id_gen.issued() == issued0,
                    issued0 == old(id_gen).issued(),
                    forall|j: int| 0 <= j < i ==> !(#[trigger] p.children@[j] is Image),
                decreases p.children.len() - i,
            {
                match &p.children[i] {
                    Node::Image(img) => {
                        let b = Block::new(BlockType::Image, id_gen.next_id());
                        let b = b.with_url(img.url.as_str());
                        let b = b.with_caption(img.alt.as_str());
                        proof {
                            assert(p.children@[i as int] matches Node::Image(im) && image_block_ok(im, b));
                            lemma_leaf_ids(b);
                            assert(id_gen.issued() =~= issued0 + block_ids(b));
                        }
                        return Some(b);
                    },
                    _ => {},
                }
                i += 1;
            }
            None
        },
        _ => None,
    }
}

/// Convert a single node into a block, if it becomes one.
fn node_to_block<G: IdGenerator>(node: &Node, id_gen: &mut IdRecord<G>) -> (r: Option<Block>)
    ensures
        (r is Some) == converts_to_block(*node),
        r matches Some(b) ==> node_block_ok(*node, b),
        final(id_gen).issued() == match r {
            Some(b) => old(id_gen).issued() + block_ids(b),
            None => old(id_gen).issued(),
        },
    decreases *node, 1int,
{
    match node {
        Node::Heading(h) => {
            let b0 = Block::new(BlockType::Heading, id_gen.next_id());
            let b = b0.with_level(h.depth);
            let content = collect_inline_content_from_children(h.children.as_slice());
            let r = b.with_content(content);
            proof {
                assert(Props { level: Some(1u8), ..r.props } == b0.props);
                lemma_leaf_ids(r);
            }
            Some(r)
        },
        Node::Paragraph(p) => {
            let b = Block::new(BlockType::Paragraph, id_gen.next_id());
            let content = collect_inline_content_from_children(p.children.as_slice());
            let r = b.with_content(content);
            proof {
                lemma_leaf_ids(r);
            }
            Some(r)
        },
        Node::Code(cb) => {
            let lang = match &cb.lang {
                Some(l) => owned(l.as_str()),
                None => String::new(),
            };
            let b = Block::new(BlockType::CodeBlock, id_gen.next_id()).with_language(lang.as_str());
            let item = InlineContent::plain(cb.value.as_str());
            proof {
                lemma_views_single(item);
            }
            let v = vec![item];
            let r = b.with_content(v);
            proof {
                assert(v@ == seq![item]);
                assert(inline_view(item) == InlineView::Text(cb.value@, no_styles()));
                lemma_leaf_ids(r);
            }
            Some(r)
        },
        Node::ThematicBreak(_) => {
            let r = Block::new(BlockType::Divider, id_gen.next_id());
            proof {
                lemma_leaf_ids(r);
            }
            Some(r)
        },
        Node::Table(t) => Some(table_node_to_block(t, id_gen)),
        Node::Blockquote(q) => {
            proof {
                assert(decreases_to!(*node => *q));
            }
            Some(blockquote_node_to_block(q, id_gen))
        },
        _ => None,
    }
}

/// The cells of a table row node.
fn table_row_cells(tr: &md::TableRow, is_header: bool) -> (r: TableRow)
    ensures
        row_ok(*tr, r, is_header),
{
    let mut cells: Vec<TableCell> = Vec::new();
    let mut k: usize = 0;
    while k < tr.children.len()
        invariant
            k <= tr.children.len(),
            cells@.len() == table_cells(tr.children@.take(k as int)).len(),
            forall|j: int| 0 <= j < cells@.len() ==> {
                let c = #[trigger] cells@[j];
                &&& c.cell_type == if is_header { TableCellType::TableHeader } else { TableCellType::TableCell }
                &&& inline_views(c.content@) == collect_spec(table_cells(tr.children@.take(k as int))[j].children@, no_styles())
                &&& c.props.colspan == 1 && c.props.rowspan == 1 && c.props.colwidth is None
            },
        decreases tr.children.len() - k,
    {
        proof {
            assert(tr.children@.take(k + 1).drop_last() =~= tr.children@.take(k as int));
        }
        match &tr.children[k] {
            Node::TableCell(tc) => {
                let cell_type = if is_header { TableCellType::TableHeader } else { TableCellType::TableCell };
                let content = collect_inline_content_from_children(tc.children.as_slice());
                cells.push(TableCell { cell_type, props: TableCellProps::default(), content });
            },
            _ => {},
        }
        k += 1;
    }
    proof {
        assert(tr.children@.take(tr.children@.len() as int) =~= tr.children@);
    }
    TableRow { cells }
}

/// Convert a table node into a table block: the rows go into its table
/// content, and each row gives it a row block as a child.
fn table_node_to_block<G: IdGenerator>(t: &md::Table, id_gen: &mut IdRecord<G>) -> (r: Block)
    ensures
        node_block_ok(Node::Table(*t), r),
        final(id_gen).issued() == old(id_gen).issued() + block_ids(r),
{
    let ghost first_is_header = t.children@.len() > 0 && t.children@[0] is TableRow;
    let mut rows: Vec<TableRow> = Vec::new();
    let mut row_idx: usize = 0;
    while row_idx < t.children.len()
        invariant
            row_idx <= t.children.len(),
            first_is_header == (t.children@.len() > 0 && t.children@[0] is TableRow),
            rows@.len() == table_rows(t.children@.take(row_idx as int)).len(),
            forall|i: int| 0 <= i < rows@.len() ==> row_ok(table_rows(t.children@.take(row_idx as int))[i], #[trigger] rows@[i], i == 0 && first_is_header),
            row_idx > 0 && first_is_header ==> rows@.len() > 0,
        decreases t.children.len() - row_idx,
    {
        proof {
            assert(t.children@.take(row_idx + 1).drop_last() =~= t.children@.take(row_idx as int));
            if row_idx == 0 {
                assert(t.children@.take(0) =~= Seq::<Node>::empty());
            }
        }
        match &t.children[row_idx] {
            Node::TableRow(tr) => {
                let row = table_row_cells(tr, row_idx == 0);
                rows.push(row);
            },
            _ => {},
        }
        row_idx += 1;
    }
    proof {
        assert(t.children@.take(t.children@.len() as int) =~= t.children@);
    }
    let num_columns = if rows.len() > 0 { rows[0].cells.len() } else { 0 };
    let mut column_widths: Vec<Option<u32>> = Vec::new();
    let mut c: usize = 0;
    while c < num_columns
        invariant
            c <= num_columns,
            column_widths@.len() == c,
            forall|j: int| 0 <= j < c ==> (#[trigger] column_widths@[j]) is None,
        decreases num_columns - c,
    {
        column_widths.push(None);
        c += 1;
    }
    let mut header_rows: usize = 0;
    while header_rows < rows.len() && rows[header_rows].cells.len() > 0
        && rows[header_rows].cells[0].cell_type == TableCellType::TableHeader
        invariant
            header_rows <= 1,
            header_rows <= rows@.len(),
            header_rows == 1 ==> first_is_header && rows@[0].cells@.len() > 0,
            forall|i: int| 0 <= i < rows@.len() ==> row_ok(table_rows(t.children@)[i], #[trigger] rows@[i], i == 0 && first_is_header),
            rows@.len() == table_rows(t.children@).len(),
        decreases rows.len() - header_rows,
    {
        proof {
            assert(row_ok(table_rows(t.children@)[header_rows as int], rows@[header_rows as int], header_rows == 0 && first_is_header));
        }
        header_rows += 1;
    }
    proof {
        if first_is_header && rows@.len() > 0 && rows@[0].cells@.len() > 0 {
            assert(row_ok(table_rows(t.children@)[0], rows@[0], true));
        }
    }
    let n_rows = rows.len();
    let table_content = TableContent {
        column_widths,
        header_rows: if header_rows > 0 { Some(header_rows) } else { None },
        header_cols: None,
        rows,
    };
    let ghost issued0 = id_gen.issued();
    let mut row_blocks: Vec<Block> = Vec::new();
    let mut i: usize = 0;
    while i < n_rows
        invariant
            i <= n_rows,
            n_rows == table_rows(t.children@).len(),
            table_ok(*t, table_content),
            row_blocks@.len() == i,
            forall|j: int| 0 <= j < i ==> row_block_ok(#[trigger] row_blocks@[j]),
            id_gen.issued() == issued0 + blocks_ids(row_blocks@),
            issued0 == old(id_gen).issued(),
        decreases n_rows - i,
    {
        let rb = Block::new(BlockType::TableRow, id_gen.next_id());
        proof {
            lemma_leaf_ids(rb);
            lemma_blocks_ids_push(row_blocks@, rb);
        }
        let ghost before = row_blocks@;
        row_blocks.push(rb);
        proof {
            assert(row_blocks@ == before.push(rb));
            assert(id_gen.issued() =~= issued0 + blocks_ids(row_blocks@));
        }
        i += 1;
    }
    let r = Block::new(BlockType::Table, id_gen.next_id()).with_table_content(table_content).with_children(row_blocks);
    proof {
        assert(id_gen.issued() =~= old(id_gen).issued() + block_ids(r));
    }
    r
}

/// Convert a blockquote into a quote block: its first paragraph is the
/// quote's content, the other nodes that convert become its children.
fn blockquote_node_to_block<G: IdGenerator>(q: &md::Blockquote, id_gen: &mut IdRecord<G>) -> (r: Block)
    ensures
        node_block_ok(Node::Blockquote(*q), r),
        final(id_gen).issued() == old(id_gen).issued() + block_ids(r),
    decreases *q, 0int,
{
    let ghost issued0 = id_gen.issued();
    let mut inline_content: Vec<InlineContent> = Vec::new();
    let mut children: Vec<Block> = Vec::new();
    let mut first_para = true;
    let mut k: usize = 0;
    while k < q.children.len()
        invariant
            k <= q.children.len(),
            quote_content(q.children@.take(k as int)) == if first_para { None } else { Some(inline_views(inline_content@)) },
            first_para ==> inline_content@.len() == 0,
            quote_blocks_ok(q.children@.take(k as int), children@),
            id_gen.issued() == issued0 + blocks_ids(children@),
        decreases q.children.len() - k,
    {
        proof {
            assert(q.children@.take(k + 1).drop_last() =~= q.children@.take(k as int));
            assert(decreases_to!(*q => q.children));
            assert(decreases_to!(q.children => q.children@));
            assert(decreases_to!(q.children@ => q.children@[k as int]));
        }
        let child = &q.children[k];
        let mut taken = false;
        if first_para {
            match child {
                Node::Paragraph(p) => {
                    inline_content = collect_inline_content_from_children(p.children.as_slice());
                    first_para = false;
                    taken = true;
                },
                _ => {},
            }
        }
        let ghost before = children@;
        if !taken {
            match node_to_block(child, id_gen) {
                Some(b) => {
                    children.push(b);
                    proof {
                        assert(children@.drop_last() =~= before);
                        lemma_blocks_ids_push(before, b);
                        assert(id_gen.issued() =~= issued0 + blocks_ids(children@));
                    }
                },
                None => {},
            }
        }
        proof {
            assert(q.children@.take(k + 1).last() == q.children@[k as int]);
        }
        k += 1;
    }
    proof {
        assert(q.children@.take(q.children@.len() as int) =~= q.children@);
        assert(inline_views(Seq::<InlineContent>::empty()) =~= Seq::<InlineView>::empty());
    }
    let r = Block::new(BlockType::Quote, id_gen.next_id()).with_content(inline_content).with_children(children);
    proof {
        assert(id_gen.issued() =~= issued0 + block_ids(r));
    }
    r
}

/// The parts of a list item: the inline content of its first paragraph that
/// has any, and the blocks of its other paragraphs and nested lists.
fn collect_list_item_parts<G: IdGenerator>(item: &md::ListItem, id_gen: &mut IdRecord<G>) -> (r: (Vec<InlineContent>, Vec<Block>))
    ensures
        inline_views(r.0@) == item_content(item.children@),
        item_blocks_ok(item.children@, r.1@),
        final(id_gen).issued() == old(id_gen).issued() + blocks_ids(r.1@),
    decreases *item, 0int,
{
    let ghost issued0 = id_gen.issued();
    let mut content: Vec<InlineContent> = Vec::new();
    let mut children: Vec<Block> = Vec::new();
    let mut k: usize = 0;
    proof {
        assert(item.children@.take(0) =~= Seq::<Node>::empty());
        assert(inline_views(Seq::<InlineContent>::empty()) =~= Seq::<InlineView>::empty());
    }
    while k < item.children.len()
        invariant
            k <= item.children.len(),
            inline_views(content@) == item_content(item.children@.take(k as int)),
            item_blocks_ok(item.children@.take(k as int), children@),
            id_gen.issued() == issued0 + blocks_ids(children@),
        decreases item.children.len() - k,
    {
        proof {
            assert(item.children@.take(k + 1).drop_last() =~= item.children@.take(k as int));
            assert(decreases_to!(*item => item.children));
            assert(decreases_to!(item.children => item.children@));
            assert(decreases_to!(item.children@ => item.children@[k as int]));
            lemma_views_len(content@);
        }
        let ghost before = children@;
        proof {
            assert(item.children@.take(k + 1).last() == item.children@[k as int]);
        }
        match &item.children[k] {
            Node::Paragraph(p) => {
                if content.len() == 0 {
                    content = collect_inline_content_from_children(p.children.as_slice());
                } else {
                    let b = Block::new(BlockType::Paragraph, id_gen.next_id());
                    let para = collect_inline_content_from_children(p.children.as_slice());
                    let pb = b.with_content(para);
                    children.push(pb);
                    proof {
                        assert(children@.drop_last() =~= before);
                        lemma_leaf_ids(pb);
                        lemma_blocks_ids_push(before, pb);
                        assert(id_gen.issued() =~= issued0 + blocks_ids(children@));
                    }
                }
            },
            Node::List(sub) => {
                let mut sub_blocks = expand_list_items(sub, id_gen);
                let ghost added = sub_blocks@;
                children.append(&mut sub_blocks);
                proof {
                    let n = list_items(sub.children@).len();
                    assert(children@.subrange(0, children@.len() - n) =~= before);
                    assert(children@.subrange(children@.len() - n, children@.len() as int) =~= added);
                    assert(children@ =~= before + added);
                    lemma_blocks_ids_append(before, added);
                    assert(id_gen.issued() =~= issued0 + blocks_ids(children@));
                }
            },
            _ => {},
        }
        k += 1;
    }
    proof {
        assert(item.children@.take(item.children@.len() as int) =~= item.children@);
    }
    (content, children)
}

/// The block of a list item without a checkbox: a numbered item keeps a
/// start number other than 1.
fn list_item_to_block<G: IdGenerator>(item: &md::ListItem, block_type: BlockType, start: u32, id_gen: &mut IdRecord<G>) -> (r: Block)
    requires
        block_type == BlockType::NumberedListItem || block_type == BlockType::BulletListItem,
    ensures
        r.block_type == block_type,
        default_props_base(block_type, r.props),
        r.props.level is None && r.props.checked is None && r.props.other@.len() == 0,
        r.props.start == if block_type == BlockType::NumberedListItem && start != 1 {
            Some(start as usize)
        } else {
            None
        },
        content_views(r.content) == Some(item_content(item.children@)),
        item_blocks_ok(item.children@, r.children@),
        final(id_gen).issued() == old(id_gen).issued() + block_ids(r),
    decreases *item, 1int,
{
    let (content, children) = collect_list_item_parts(item, id_gen);
    let mut block = Block::new(block_type, id_gen.next_id()).with_content(content).with_children(children);
    if block_type == BlockType::NumberedListItem && start != 1 {
        block = block.with_start(start as usize);
    }
    proof {
        assert(id_gen.issued() =~= old(id_gen).issued() + block_ids(block));
    }
    block
}

/// The block of a list item with a checkbox.
fn task_item_to_block<G: IdGenerator>(item: &md::ListItem, id_gen: &mut IdRecord<G>) -> (r: Block)
    ensures
        r.block_type == BlockType::CheckListItem,
        default_props_base(BlockType::CheckListItem, r.props),
        r.props.level is None && r.props.start is None && r.props.other@.len() == 0,
        r.props.checked == Some(match item.checked {
            Some(c) => c,
            None => false,
        }),
        content_views(r.content) == Some(item_content(item.children@)),
        item_blocks_ok(item.children@, r.children@),
        final(id_gen).issued() == old(id_gen).issued() + block_ids(r),
    decreases *item, 1int,
{
    let (content, children) = collect_list_item_parts(item, id_gen);
    let checked = match item.checked {
        Some(c) => c,
        None => false,
    };
    let r = Block::new(BlockType::CheckListItem, id_gen.next_id()).with_checked(checked).with_content(content).with_children(
        children,
    );
    proof {
        assert(id_gen.issued() =~= old(id_gen).issued() + block_ids(r));
    }
    r
}

/// Mark a block as an item of a loose list.
fn mark_spread(block: &mut Block)
    requires
        old(block).props.other@.len() == 0,
    ensures
        other_lookup(final(block).props.other@, "listSpread"@) == Some("true"@),
        final(block).props.other@.len() == 1,
        *final(block) == (Block { props: Props { other: final(block).props.other, ..old(block).props }, ..*old(block) }),
{
    block.props.set_other(owned("listSpread"), owned("true"));
}

/// Expand a list into one block per item: check items for items with a
/// checkbox, numbered or bullet items for the others.
fn expand_list_items<G: IdGenerator>(list: &md::List, id_gen: &mut IdRecord<G>) -> (r: Vec<Block>)
    ensures
        r@.len() == list_items(list.children@).len(),
        list_blocks_ok(*list, list.children@, r@),
        final(id_gen).issued() == old(id_gen).issued() + blocks_ids(r@),
    decreases *list, 2int,
{
    let ghost issued0 = id_gen.issued();
    let mut blocks: Vec<Block> = Vec::new();
    let start: u32 = match list.start {
        Some(s) => s,
        None => 1,
    };
    let mut k: usize = 0;
    while k < list.children.len()
        invariant
            k <= list.children.len(),
            start == match list.start {
                Some(s) => s,
                None => 1u32,
            },
            blocks@.len() == list_items(list.children@.take(k as int)).len(),
            list_blocks_ok(*list, list.children@.take(k as int), blocks@),
            id_gen.issued() == issued0 + blocks_ids(blocks@),
        decreases list.children.len() - k,
    {
        proof {
            assert(list.children@.take(k + 1).drop_last() =~= list.children@.take(k as int));
            assert(decreases_to!(*list => list.children));
            assert(decreases_to!(list.children => list.children@));
            assert(decreases_to!(list.children@ => list.children@[k as int]));
        }
        match &list.children[k] {
            Node::ListItem(item) => {
                let mut block = if item.checked.is_some() {
                    task_item_to_block(item, id_gen)
                } else if list.ordered {
                    list_item_to_block(item, BlockType::NumberedListItem, start, id_gen)
                } else {
                    list_item_to_block(item, BlockType::BulletListItem, 1, id_gen)
                };
                let ghost unmarked = block;
                if list.spread {
                    mark_spread(&mut block);
                }
                proof {
                    assert(block.children == unmarked.children && block.id == unmarked.id);
                    assert(block_ids(block) == block_ids(unmarked));
                }
                proof {
                    reveal_strlit("listSpread");
                    reveal_strlit("true");
                    assert(item_block_ok(*list, *item, block));
                }
                let ghost before = blocks@;
                blocks.push(block);
                proof {
                    assert(blocks@.drop_last() =~= before);
                    assert(list.children@.take(k + 1).last() == list.children@[k as int]);
                    lemma_blocks_ids_push(before, block);
                    assert(id_gen.issued() =~= issued0 + blocks_ids(blocks@));
                }
            },
            _ => {},
        }
        k += 1;
    }
    proof {
        assert(list.children@.take(list.children@.len() as int) =~= list.children@);
    }
    blocks
}

/// Convert the children of a root into blocks.
pub fn mdast_to_blocks<G: IdGenerator>(root: &Node, id_gen: &mut IdRecord<G>) -> (r: Vec<Block>)
    ensures
        root matches Node::Root(rt) ==> root_blocks_ok(rt.children@, r@),
        !(root is Root) ==> r@.len() == 0,
        final(id_gen).issued() == old(id_gen).issued() + blocks_ids(r@),
{
    let ghost issued0 = id_gen.issued();
    let children = match root {
        Node::Root(rt) => &rt.children,
        _ => {
            proof {
                assert(issued0 + blocks_ids(Seq::<Block>::empty()) =~= issued0);
            }
            return Vec::new();
        },
    };
    let mut blocks: Vec<Block> = Vec::new();
    let mut k: usize = 0;
    proof {
        assert(children@.take(0) =~= Seq::<Node>::empty());
    }
    while k < children.len()
        invariant
            k <= children.len(),
            root_blocks_ok(children@.take(k as int), blocks@),
            id_gen.issued() == issued0 + blocks_ids(blocks@),
        decreases children.len() - k,
    {
        let ghost before = blocks@;
        let ghost mid = id_gen.issued();
        let child = &children[k];
        let mut added: Vec<Block> = Vec::new();
        proof {
            assert(mid + blocks_ids(added@) =~= mid);
        }
        match child {
            Node::List(list) => {
                added = expand_list_items(list, id_gen);
            },
            _ => {
                let mut done = false;
                if is_image_paragraph(child) {
                    match extract_image_from_paragraph(child, id_gen) {
                        Some(img_block) => {
                            added.push(img_block);
                            done = true;
                            proof {
                                lemma_blocks_ids_push(Seq::empty(), img_block);
                                assert(id_gen.issued() =~= mid + blocks_ids(added@));
                            }
                        },
                        None => {},
                    }
                }
                if !done {
                    match node_to_block(child, id_gen) {
                        Some(b) => {
                            added.push(b);
                            proof {
                                lemma_blocks_ids_push(Seq::empty(), b);
                                assert(id_gen.issued() =~= mid + blocks_ids(added@));
                            }
                        },
                        None => {},
                    }
                }
            },
        }
        let ghost new_blocks = added@;
        proof {
            assert(child_blocks_ok(children@[k as int], new_blocks));
        }
        blocks.append(&mut added);
        proof {
            let t = children@.take(k + 1);
            assert(t.drop_last() =~= children@.take(k as int));
            assert(blocks@.take(before.len() as int) =~= before);
            assert(root_blocks_ok(t.drop_last(), blocks@.take(before.len() as int)));
            assert(blocks@.skip(before.len() as int) =~= new_blocks);
            assert(t.last() == children@[k as int]);
            assert(child_blocks_ok(t.last(), blocks@.skip(before.len() as int)));
            lemma_root_step(t, blocks@, before.len() as int);
            assert(blocks@ =~= before + new_blocks);
            lemma_blocks_ids_append(before, new_blocks);
            assert(id_gen.issued() =~= issued0 + blocks_ids(blocks@));
        }
        k += 1;
    }
    proof {
        assert(children@.take(children@.len() as int) =~= children@);
    }
    blocks
}

// ── Laws ────────────────────────────────────────────────────

/// Inline content with no underlined text, links included.
pub open spec fn no_underline(i: InlineContent) -> bool
    decreases i,
{
    match i {
        InlineContent::Text { styles, .. } => !styles.underline,
        InlineContent::Link { content, .. } => forall|k: int| 0 <= k < content@.len() ==> no_underline(
            #[trigger] content@[k],
        ),
        InlineContent::HardBreak => true,
    }
}

/// The content of a node with one child is that of the child.
proof fn lemma_collect_single(x: Node, st: Styles)
    ensures
        collect_spec(seq![x], st) == node_inlines(x, st),
{
    assert(seq![x].drop_last() =~= Seq::<Node>::empty());
    assert(seq![x].last() == x);
    assert(collect_spec(Seq::<Node>::empty(), st) =~= Seq::<InlineView>::empty());
    assert(collect_spec(seq![x], st) == collect_spec(seq![x].drop_last(), st) + node_inlines(x, st));
    assert(Seq::<InlineView>::empty() + node_inlines(x, st) =~= node_inlines(x, st));
}

/// A node with one child gives what its child gives, under its style.
proof fn lemma_only_child(n: Node, st: Styles)
    requires
        only_child(n) is Some,
    ensures
        node_inlines(n, st) == match n {
            Node::Strong(_) => node_inlines(only_child(n)->0, Styles { bold: true, ..st }),
            Node::Emphasis(_) => node_inlines(only_child(n)->0, Styles { italic: true, ..st }),
            Node::Delete(_) => node_inlines(only_child(n)->0, Styles { strikethrough: true, ..st }),
            _ => node_inlines(n, st),
        },
{
    match n {
        Node::Strong(x) => {
            assert(x.children@ =~= seq![x.children@[0]]);
            lemma_collect_single(x.children@[0], Styles { bold: true, ..st });
        },
        Node::Emphasis(x) => {
            assert(x.children@ =~= seq![x.children@[0]]);
            lemma_collect_single(x.children@[0], Styles { italic: true, ..st });
        },
        Node::Delete(x) => {
            assert(x.children@ =~= seq![x.children@[0]]);
            lemma_collect_single(x.children@[0], Styles { strikethrough: true, ..st });
        },
        _ => {},
    }
}

/// The content of a node an item became, read back, is the item.
proof fn lemma_item_tree_roundtrip(item: InlineContent, n: Node)
    requires
        inline_node_ok(item, n),
        no_underline(item),
    ensures
        node_inlines(n, no_styles()) == seq![inline_view(item)],
    decreases item, 0int,
{
    match item {
        InlineContent::Text { text, styles } => {
            let inner = if styles.code {
                Node::InlineCode(md::InlineCode { value: text })
            } else {
                Node::Text(md::Text { value: text })
            };
            let st0 = no_styles();
            let st1 = if styles.bold { Styles { bold: true, ..st0 } } else { st0 };
            let below_bold = if styles.bold { only_child(n)->0 } else { n };
            if styles.bold {
                lemma_only_child(n, st0);
            }
            assert(node_inlines(n, st0) == node_inlines(below_bold, st1));
            let st2 = if styles.italic { Styles { italic: true, ..st1 } } else { st1 };
            let below_italic = if styles.italic { only_child(below_bold)->0 } else { below_bold };
            if styles.italic {
                lemma_only_child(below_bold, st1);
            }
            assert(node_inlines(below_bold, st1) == node_inlines(below_italic, st2));
            let st3 = if styles.strikethrough { Styles { strikethrough: true, ..st2 } } else { st2 };
            if styles.strikethrough {
                lemma_only_child(below_italic, st2);
                assert(only_child(below_italic)->0 == inner);
            } else {
                assert(below_italic == inner);
            }
            assert(node_inlines(below_italic, st2) == node_inlines(inner, st3));
            assert(st3.bold == styles.bold && st3.italic == styles.italic && st3.strikethrough == styles.strikethrough);
            if styles.code {
                assert(Styles { code: true, ..st3 } == styles);
            } else {
                assert(st3 == styles);
            }
        },
        InlineContent::Link { href, content } => {
            assert forall|k: int| 0 <= k < content@.len() implies no_underline(#[trigger] content@[k]) by {}
            lemma_inline_tree_roundtrip(content@, n->Link_0.children@);
        },
        InlineContent::HardBreak => {},
    }
}

/// Inline content without underlined text, turned into syntax tree nodes and
/// read back, is the content again.
pub proof fn lemma_inline_tree_roundtrip(items: Seq<InlineContent>, nodes: Seq<Node>)
    requires
        inline_nodes_ok(items, nodes),
        forall|k: int| 0 <= k < items.len() ==> no_underline(#[trigger] items[k]),
    ensures
        collect_spec(nodes, no_styles()) == inline_views(items),
    decreases items, 1int,
{
    if items.len() > 0 {
        let m = items.len() - 1;
        assert(inline_node_ok(items[m], nodes[m]));
        assert(no_underline(items[m]));
        lemma_item_tree_roundtrip(items[m], nodes[m]);
        assert(inline_nodes_ok(items.drop_last(), nodes.drop_last())) by {
            assert forall|i: int| 0 <= i < items.drop_last().len() implies inline_node_ok(
                items.drop_last()[i],
                #[trigger] nodes.drop_last()[i],
            ) by {
                assert(items.drop_last()[i] == items[i]);
                assert(nodes.drop_last()[i] == nodes[i]);
            }
        }
        assert forall|k: int| 0 <= k < items.drop_last().len() implies no_underline(#[trigger] items.drop_last()[k]) by {
            assert(items.drop_last()[k] == items[k]);
        }
        assert(decreases_to!(items => items.drop_last()));
        lemma_inline_tree_roundtrip(items.drop_last(), nodes.drop_last());
        assert(nodes.last() == nodes[m]);
        assert(items.last() == items[m]);
        assert(inline_views(items) == inline_views(items.drop_last()).push(inline_view(items[m])));
        assert(collect_spec(nodes, no_styles()) =~= inline_views(items));
    } else {
        assert(inline_views(items) =~= Seq::<InlineView>::empty());
    }
}

/// A heading or paragraph block without underlined text, turned into a syntax
/// tree node and read back, has its type, its heading level and its inline
/// content again.
pub proof fn lemma_text_block_tree_roundtrip(b: Block, n: Node, d: Block)
    requires
        b.block_type == BlockType::Heading || b.block_type == BlockType::Paragraph,
        b.content is Inline,
        forall|k: int| 0 <= k < block_inline(b).len() ==> no_underline(#[trigger] block_inline(b)[k]),
        block_node_ok(b, n),
        node_block_ok(n, d),
    ensures
        d.block_type == b.block_type,
        b.block_type == BlockType::Heading ==> d.props.level == Some(match b.props.level {
            Some(l) => l,
            None => 1u8,
        }),
        content_views(d.content) == content_views(b.content),
{
    if b.block_type == BlockType::Heading {
        lemma_inline_tree_roundtrip(block_inline(b), n->Heading_0.children@);
    } else {
        lemma_inline_tree_roundtrip(block_inline(b), n->Paragraph_0.children@);
    }
}


/// The inline content of phrasing nodes one after another is that of the
/// first, then that of the second.
proof fn lemma_collect_concat(a: Seq<Node>, b: Seq<Node>, st: Styles)
    ensures
        collect_spec(a + b, st) == collect_spec(a, st) + collect_spec(b, st),
    decreases b.len(),
{
    if b.len() == 0 {
        assert(a + b =~= a);
        assert(collect_spec(b, st) =~= Seq::<InlineView>::empty());
        assert(collect_spec(a, st) + collect_spec(b, st) =~= collect_spec(a, st));
    } else {
        assert((a + b).drop_last() =~= a + b.drop_last());
        assert((a + b).last() == b.last());
        lemma_collect_concat(a, b.drop_last(), st);
        assert(collect_spec(a + b, st) =~= collect_spec(a, st) + collect_spec(b, st));
    }
}

/// An image among phrasing nodes gives exactly one text item, its alt text
/// under the surrounding styles, between the items of the nodes before it
/// and those of the nodes after it.
pub proof fn lemma_image_gives_alt(children: Seq<Node>, st: Styles, i: int)
    requires
        0 <= i < children.len(),
        children[i] is Image,
    ensures
        collect_spec(children, st) == collect_spec(children.take(i), st) + seq![
            InlineView::Text(children[i]->Image_0.alt@, st),
        ] + collect_spec(children.skip(i + 1), st),
{
    let x = children[i];
    assert(children =~= children.take(i) + seq![x] + children.skip(i + 1));
    lemma_collect_concat(children.take(i) + seq![x], children.skip(i + 1), st);
    lemma_collect_concat(children.take(i), seq![x], st);
    lemma_collect_single(x, st);
}


/// A hard line break among phrasing nodes gives exactly one hard break item,
/// between the items of the nodes before it and those of the nodes after it.
pub proof fn lemma_break_gives_hard_break(children: Seq<Node>, st: Styles, i: int)
    requires
        0 <= i < children.len(),
        children[i] is Break,
    ensures
        collect_spec(children, st) == collect_spec(children.take(i), st) + seq![InlineView::HardBreak]
            + collect_spec(children.skip(i + 1), st),
{
    let x = children[i];
    assert(children =~= children.take(i) + seq![x] + children.skip(i + 1));
    lemma_collect_concat(children.take(i) + seq![x], children.skip(i + 1), st);
    lemma_collect_concat(children.take(i), seq![x], st);
    lemma_collect_single(x, st);
}

}
