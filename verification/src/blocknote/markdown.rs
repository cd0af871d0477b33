//! Conversion between blocks and the markdown syntax tree, and rendering
//! blocks as markdown.

use vstd::prelude::*;
use crate::blocknote::blocks::{
    default_styles, Block, BlockContent, InlineContent, Styles, TableCell, TableCellProps,
    TableCellType, TableContent, TableRow,
};
use crate::blocknote::error::ConvertResult;
use crate::blocknote::props::other_lookup;
use crate::blocknote::schema::BlockType;
use crate::mdast::{self as md, AlignKind, Node};
use crate::text::{owned, str_eq};
use crate::types::Options;

verus! {

/// A source of block ids.
pub trait IdGenerator {
    /// The next id.
    fn next_id(&mut self) -> String;
}

/// An id generator together with a record of the ids it has handed out.
pub struct IdRecord<G: IdGenerator> {
    generator: G,
    handed_out: Ghost<Seq<Seq<char>>>,
}

impl<G: IdGenerator> IdRecord<G> {
    /// The ids handed out so far through this record, oldest first.
    pub closed spec fn issued(&self) -> Seq<Seq<char>> {
        self.handed_out@
    }

    /// A record of `generator` that has handed out no id yet.
    pub fn new(generator: G) -> (r: Self)
        ensures
            r.issued() == Seq::<Seq<char>>::empty(),
    {
        IdRecord { generator, handed_out: Ghost(Seq::empty()) }
    }

    /// The generator's next id, which joins the end of the record.
    pub fn next_id(&mut self) -> (r: String)
        ensures
            final(self).issued() == old(self).issued().push(r@),
    {
        let r = self.generator.next_id();
        self.handed_out = Ghost(self.handed_out@.push(r@));
        r
    }
}


// ── Blocks → markdown syntax tree ──────────────────────────

/// The only child of a node that has exactly one.
pub open spec fn only_child(n: Node) -> Option<Node> {
    match n {
        Node::Delete(x) => if x.children@.len() == 1 { Some(x.children@[0]) } else { None },
        Node::Emphasis(x) => if x.children@.len() == 1 { Some(x.children@[0]) } else { None },
        Node::Strong(x) => if x.children@.len() == 1 { Some(x.children@[0]) } else { None },
        _ => None,
    }
}

/// `n` is `inner` wrapped in strikethrough, then emphasis, then strong, as the
/// styles say.
pub open spec fn wrapped(n: Node, inner: Node, s: Styles) -> bool {
    let below_bold = if s.bold {
        if n is Strong { only_child(n) } else { None }
    } else {
        Some(n)
    };
    match below_bold {
        Some(b) => {
            let below_italic = if s.italic {
                if b is Emphasis { only_child(b) } else { None }
            } else {
                Some(b)
            };
            match below_italic {
                Some(c) => if s.strikethrough {
                    c is Delete && only_child(c) == Some(inner)
                } else {
                    c == inner
                },
                None => false,
            }
        },
        None => false,
    }
}

/// Wrap a node with style wrappers (strikethrough innermost, then emphasis,
/// then strong). Code is handled at the leaf.
fn wrap_with_styles(inner: Node, styles: &Styles) -> (r: Node)
    ensures
        wrapped(r, inner, *styles),
{
    let ghost g = inner;
    let mut current = inner;
    if styles.strikethrough {
        current = Node::Delete(md::Delete { children: vec![current] });
    }
    let ghost c1 = current;
    if styles.italic {
        current = Node::Emphasis(md::Emphasis { children: vec![current] });
    }
    let ghost c2 = current;
    if styles.bold {
        current = Node::Strong(md::Strong { children: vec![current] });
    }
    proof {
        if styles.bold {
            assert(only_child(current) == Some(c2));
        }
        if styles.italic {
            assert(only_child(c2) == Some(c1));
        }
        if styles.strikethrough {
            assert(only_child(c1) == Some(g));
        }
    }
    current
}

/// The node an inline item becomes: styled text or inline code, a link, or a
/// hard break.
pub open spec fn inline_node_ok(item: InlineContent, n: Node) -> bool
    decreases item,
{
    match item {
        InlineContent::Text { text, styles } => if styles.code {
            wrapped(n, Node::InlineCode(md::InlineCode { value: text }), styles)
        } else {
            wrapped(n, Node::Text(md::Text { value: text }), styles)
        },
        InlineContent::Link { href, content } => n is Link && n->Link_0.url == href && n->Link_0.title is None
            && inline_nodes_ok(content@, n->Link_0.children@),
        InlineContent::HardBreak => n is Break,
    }
}

/// The nodes inline content becomes: one per item.
pub open spec fn inline_nodes_ok(items: Seq<InlineContent>, nodes: Seq<Node>) -> bool
    decreases items,
{
    &&& items.len() == nodes.len()
    &&& forall|i: int| 0 <= i < items.len() ==> inline_node_ok(items[i], #[trigger] nodes[i])
}

/// Convert inline content to phrasing nodes, one per item.
pub fn inline_to_mdast(content: &[InlineContent]) -> (r: Vec<Node>)
    ensures
        inline_nodes_ok(content@, r@),
    decreases content@,
{
    let mut result: Vec<Node> = Vec::new();
    let mut i: usize = 0;
    while i < content.len()
        invariant
            i <= content.len(),
            result@.len() == i,
            forall|j: int| 0 <= j < i ==> inline_node_ok(content@[j], #[trigger] result@[j]),
        decreases content.len() - i,
    {
        let item = &content[i];
        let node = match item {
            InlineContent::Text { text, styles } => {
                let inner = if styles.code {
                    Node::InlineCode(md::InlineCode { value: text.clone() })
                } else {
                    Node::Text(md::Text { value: text.clone() })
                };
                wrap_with_styles(inner, styles)
            },
            InlineContent::Link { href, content: link_content } => {
                proof {
                    assert(decreases_to!(content@ => content@[i as int]));
                    assert(decreases_to!(content@[i as int] => *link_content));
                    assert(decreases_to!(*link_content => link_content@));
                }
                let link_children = inline_to_mdast(link_content.as_slice());
                Node::Link(md::Link { url: href.clone(), title: None, children: link_children })
            },
            InlineContent::HardBreak => Node::Break(md::Break {}),
        };
        result.push(node);
        i += 1;
    }
    result
}

/// The paragraph that inline content becomes, when there is any.
fn push_inline_paragraph(children: &mut Vec<Node>, inline: &[InlineContent])
    ensures
        inline@.len() == 0 ==> final(children)@ == old(children)@,
        inline@.len() > 0 ==> final(children)@.len() == old(children)@.len() + 1
            && final(children)@.drop_last() == old(children)@ && final(children)@.last() is Paragraph
            && inline_nodes_ok(inline@, final(children)@.last()->Paragraph_0.children@),
{
    if inline.len() > 0 {
        children.push(Node::Paragraph(md::Paragraph { children: inline_to_mdast(inline) }));
        proof {
            assert(children@.drop_last() =~= old(children)@);
        }
    }
}

/// The list item that a block becomes: its inline content as a first
/// paragraph, then its children.
fn block_to_list_item(block: &Block, checked: Option<bool>) -> (r: Node)
    ensures
        item_node_ok(*block, checked, r),
    decreases block, 0int,
{
    let inline_content = block.content.as_inline();
    let mut children: Vec<Node> = Vec::new();
    push_inline_paragraph(&mut children, inline_content);
    if block.children.len() > 0 {
        proof {
            assert(decreases_to!(*block => block.children));
            assert(decreases_to!(block.children => block.children@));
        }
        let ghost before = children@;
        let mut child_nodes = blocks_to_mdast_children(block.children.as_slice());
        let ghost added = child_nodes@;
        children.append(&mut child_nodes);
        proof {
            assert(children@.skip(lead(*block)) =~= added);
            if lead(*block) == 1 {
                assert(children@[0] == before[0]);
            }
        }
    } else {
        proof {
            assert(children@.skip(lead(*block)) =~= Seq::<Node>::empty());
        }
    }
    Node::ListItem(md::ListItem { checked, spread: false, children })
}

/// Whether a block's other prop `listSpread` is `true`.
fn list_spread_of(block: &Block) -> (r: bool)
    ensures
        r == (other_lookup(block.props.other@, "listSpread"@) == Some("true"@)),
{
    match block.props.get_other("listSpread") {
        Some(v) => str_eq(v.as_str(), "true"),
        None => false,
    }
}

/// The inline content of a block, if it has inline content.
pub open spec fn block_inline(b: Block) -> Seq<InlineContent> {
    match b.content {
        BlockContent::Inline(v) => v@,
        _ => Seq::empty(),
    }
}

/// How many nodes a block's inline content takes: a paragraph when it has
/// any.
pub open spec fn lead(b: Block) -> int {
    if block_inline(b).len() > 0 { 1 } else { 0 }
}

/// The nodes start with the paragraph of the block's inline content, if it
/// has any.
pub open spec fn lead_ok(b: Block, ns: Seq<Node>) -> bool {
    block_inline(b).len() > 0 ==> ns.len() > 0 && ns[0] is Paragraph && inline_nodes_ok(
        block_inline(b),
        ns[0]->Paragraph_0.children@,
    )
}

/// The list item a block becomes: its inline content as a first paragraph,
/// then the nodes of its children; not spread, with the given checkbox.
pub open spec fn item_node_ok(b: Block, checked: Option<bool>, n: Node) -> bool
    decreases b, 0int,
{
    &&& n is ListItem
    &&& n->ListItem_0.checked == checked
    &&& !n->ListItem_0.spread
    &&& n->ListItem_0.children@.len() >= lead(b)
    &&& lead_ok(b, n->ListItem_0.children@)
    &&& blocks_nodes_ok(b.children@, n->ListItem_0.children@.skip(lead(b)))
}

/// The list item types that are grouped into lists.
pub open spec fn grouped_kind(t: BlockType) -> bool {
    t == BlockType::BulletListItem || t == BlockType::NumberedListItem || t == BlockType::CheckListItem
}

/// The length of the run of blocks of a type at the end.
pub open spec fn back_run(bs: Seq<Block>, k: BlockType) -> nat
    decreases bs.len(),
{
    if bs.len() == 0 || bs.last().block_type != k {
        0
    } else {
        1 + back_run(bs.drop_last(), k)
    }
}

/// The checkbox of the item a block of a kind becomes: the block's checked
/// state (unchecked if unset) for check items, none for the others.
pub open spec fn item_checked(k: BlockType, b: Block) -> Option<bool> {
    if k == BlockType::CheckListItem {
        Some(match b.props.checked {
            Some(c) => c,
            None => false,
        })
    } else {
        None
    }
}

/// The list a run of list items of a kind becomes: one item per block, with
/// its checkbox; ordered for numbered items, starting at the first block's
/// start number (1 if unset); loose when some block is marked loose.
pub open spec fn list_of_run(run: Seq<Block>, k: BlockType, n: Node) -> bool {
    &&& n is List
    &&& n->List_0.children@.len() == run.len()
    &&& n->List_0.ordered == (k == BlockType::NumberedListItem)
    &&& n->List_0.start == if k == BlockType::NumberedListItem {
        Some(match run[0].props.start {
            Some(s) => s as u32,
            None => 1u32,
        })
    } else {
        None
    }
    &&& forall|j: int| 0 <= j < run.len() ==> ((#[trigger] n->List_0.children@[j]) matches Node::ListItem(it)
        && it.checked == item_checked(k, run[j]))
    &&& n->List_0.spread == exists|j: int| 0 <= j < run.len() && other_lookup((#[trigger] run[j]).props.other@, "listSpread"@)
        == Some("true"@)
}

/// The nodes blocks become: each maximal run of list items of one type
/// becomes one list, each other block its own node.
pub open spec fn blocks_nodes_ok(bs: Seq<Block>, ns: Seq<Node>) -> bool
    decreases bs, 2int,
{
    if bs.len() == 0 {
        ns.len() == 0
    } else if ns.len() == 0 {
        false
    } else {
        let k = bs.last().block_type;
        if grouped_kind(k) {
            let n = back_run(bs, k);
            if 1 <= n <= bs.len() {
                &&& list_of_run(bs.subrange(bs.len() - n, bs.len() as int), k, ns.last())
                &&& forall|j: int| 0 <= j < n ==> item_node_ok(
                    #[trigger] bs[bs.len() - n + j],
                    item_checked(k, bs[bs.len() - n + j]),
                    ns.last()->List_0.children@[j],
                )
                &&& blocks_nodes_ok(bs.subrange(0, bs.len() - n), ns.drop_last())
            } else {
                false
            }
        } else {
            &&& block_node_ok(bs.last(), ns.last())
            &&& blocks_nodes_ok(bs.drop_last(), ns.drop_last())
        }
    }
}

/// A run of blocks of a kind after blocks that do not end with that kind is
/// the whole run at the end.
proof fn lemma_back_run_append(p: Seq<Block>, g: Seq<Block>, k: BlockType)
    requires
        p.len() == 0 || p.last().block_type != k,
        forall|j: int| 0 <= j < g.len() ==> (#[trigger] g[j]).block_type == k,
    ensures
        back_run(p + g, k) == g.len(),
    decreases g.len(),
{
    if g.len() == 0 {
        assert(p + g =~= p);
    } else {
        assert((p + g).drop_last() =~= p + g.drop_last());
        assert((p + g).last() == g.last());
        assert(g.last() == g[g.len() - 1]);
        lemma_back_run_append(p, g.drop_last(), k);
    }
}

/// Group the run of list items of `kind` that starts `blocks` into one list.
/// Returns the list and how many blocks it took.
fn group_list(blocks: &[Block], kind: BlockType) -> (r: (Node, usize))
    requires
        blocks@.len() > 0,
        blocks@[0].block_type == kind,
        kind == BlockType::BulletListItem || kind == BlockType::NumberedListItem || kind == BlockType::CheckListItem,
    ensures
        1 <= r.1 <= blocks@.len(),
        forall|j: int| 0 <= j < r.1 ==> (#[trigger] blocks@[j]).block_type == kind,
        r.1 < blocks@.len() ==> blocks@[r.1 as int].block_type != kind,
        list_of_run(blocks@.take(r.1 as int), kind, r.0),
        forall|j: int| 0 <= j < r.1 ==> item_node_ok(#[trigger] blocks@[j], item_checked(kind, blocks@[j]), r.0->List_0.children@[j]),
    decreases blocks@, 1int,
{
    let mut items: Vec<Node> = Vec::new();
    let mut count: usize = 0;
    let mut spread = false;
    let start: u32 = if kind == BlockType::NumberedListItem {
        match blocks[0].props.start {
            Some(s) => #[verifier::truncate] (s as u32),
            None => 1,
        }
    } else {
        1
    };
    while count < blocks.len()
        invariant
            count <= blocks.len(),
            items@.len() == count,
            blocks@.len() > 0,
            blocks@[0].block_type == kind,
            forall|j: int| 0 <= j < count ==> (#[trigger] blocks@[j]).block_type == kind,
            forall|j: int| 0 <= j < count ==> ((#[trigger] items@[j]) matches Node::ListItem(it)
                && it.checked == item_checked(kind, blocks@[j])),
            forall|j: int| 0 <= j < count ==> item_node_ok(#[trigger] blocks@[j], item_checked(kind, blocks@[j]), items@[j]),
            spread == exists|j: int| 0 <= j < count && other_lookup((#[trigger] blocks@[j]).props.other@, "listSpread"@)
                == Some("true"@),
        ensures
            1 <= count <= blocks.len(),
            items@.len() == count,
            forall|j: int| 0 <= j < count ==> (#[trigger] blocks@[j]).block_type == kind,
            count < blocks@.len() ==> blocks@[count as int].block_type != kind,
            forall|j: int| 0 <= j < count ==> ((#[trigger] items@[j]) matches Node::ListItem(it)
                && it.checked == item_checked(kind, blocks@[j])),
            forall|j: int| 0 <= j < count ==> item_node_ok(#[trigger] blocks@[j], item_checked(kind, blocks@[j]), items@[j]),
            spread == exists|j: int| 0 <= j < count && other_lookup((#[trigger] blocks@[j]).props.other@, "listSpread"@)
                == Some("true"@),
        decreases blocks.len() - count,
    {
        let block = &blocks[count];
        if block.block_type != kind {
            break;
        }
        let block_spread = list_spread_of(block);
        if block_spread {
            spread = true;
        }
        proof {
            assert(decreases_to!(blocks@ => blocks@[count as int]));
        }
        let item = if kind == BlockType::CheckListItem {
            let checked = match block.props.checked {
                Some(c) => c,
                None => false,
            };
            block_to_list_item(block, Some(checked))
        } else {
            block_to_list_item(block, None)
        };
        items.push(item);
        proof {
            if !block_spread && spread {
                let j = choose|j: int| 0 <= j < count && other_lookup((#[trigger] blocks@[j]).props.other@, "listSpread"@)
                    == Some("true"@);
                assert(0 <= j < count + 1);
            }
            if block_spread {
                assert(other_lookup(blocks@[count as int].props.other@, "listSpread"@) == Some("true"@));
            }
        }
        count += 1;
    }
    let ordered = kind == BlockType::NumberedListItem;
    let list = Node::List(md::List {
        ordered,
        start: if ordered { Some(start) } else { None },
        spread,
        children: items,
    });
    proof {
        let run = blocks@.take(count as int);
        assert(run[0] == blocks@[0]);
        assert forall|j: int| 0 <= j < run.len() implies ((#[trigger] items@[j]) matches Node::ListItem(it)
            && it.checked == item_checked(kind, run[j])) by {
            assert(run[j] == blocks@[j]);
        }
        if spread {
            let j = choose|j: int| 0 <= j < count && other_lookup((#[trigger] blocks@[j]).props.other@, "listSpread"@)
                == Some("true"@);
            assert(run[j] == blocks@[j]);
            assert(exists|j: int| 0 <= j < run.len() && other_lookup((#[trigger] run[j]).props.other@, "listSpread"@)
                == Some("true"@));
        } else {
            assert forall|j: int| 0 <= j < run.len() implies other_lookup((#[trigger] run[j]).props.other@, "listSpread"@)
                != Some("true"@) by {
                assert(run[j] == blocks@[j]);
            }
        }
        assert(list_of_run(run, kind, list));
    }
    (list, count)
}

/// Convert blocks to syntax tree nodes, grouping each run of list items of one
/// kind into one list.
pub fn blocks_to_mdast_children(blocks: &[Block]) -> (r: Vec<Node>)
    ensures
        blocks_nodes_ok(blocks@, r@),
    decreases blocks@, 2int,
{
    let mut result: Vec<Node> = Vec::new();
    let mut i: usize = 0;
    proof {
        assert(blocks@.take(0) =~= Seq::<Block>::empty());
    }
    while i < blocks.len()
        invariant
            i <= blocks.len(),
            blocks_nodes_ok(blocks@.take(i as int), result@),
            0 < i < blocks@.len() && grouped_kind(blocks@[i as int].block_type) ==> blocks@[i - 1].block_type
                != blocks@[i as int].block_type,
        decreases blocks.len() - i,
    {
        let ghost before = result@;
        let kind = blocks[i].block_type;
        if kind == BlockType::BulletListItem || kind == BlockType::NumberedListItem
            || kind == BlockType::CheckListItem {
            let rest = vstd::slice::slice_subrange(blocks, i, blocks.len());
            proof {
                assert(rest@ == blocks@.subrange(i as int, blocks@.len() as int));
                if i == 0 {
                    assert(rest@ =~= blocks@);
                } else {
                    assert(decreases_to!(blocks@ => rest@));
                }
            }
            let (list_node, consumed) = group_list(rest, kind);
            result.push(list_node);
            proof {
                let p = blocks@.take(i as int);
                let g = rest@.take(consumed as int);
                let t = blocks@.take(i + consumed);
                assert(t =~= p + g);
                assert forall|j: int| 0 <= j < g.len() implies (#[trigger] g[j]).block_type == kind by {
                    assert(g[j] == rest@[j]);
                }
                if i > 0 {
                    assert(p.last() == blocks@[i - 1]);
                }
                lemma_back_run_append(p, g, kind);
                assert(t.subrange(t.len() - consumed, t.len() as int) =~= g);
                assert(t.subrange(0, t.len() - consumed) =~= p);
                assert(result@.drop_last() =~= before);
                assert(t.last() == g.last());
                assert(g.last() == g[g.len() - 1]);
                if i + consumed < blocks@.len() {
                    assert(blocks@[i + consumed] == rest@[consumed as int]);
                    assert(blocks@[i + consumed - 1] == rest@[consumed - 1]);
                }
            }
            i += consumed;
        } else {
            proof {
                assert(decreases_to!(blocks@ => blocks@[i as int]));
            }
            result.push(block_to_mdast(&blocks[i]));
            proof {
                let t = blocks@.take(i + 1);
                assert(t.drop_last() =~= blocks@.take(i as int));
                assert(t.last() == blocks@[i as int]);
                assert(result@.drop_last() =~= before);
            }
            i += 1;
        }
    }
    proof {
        assert(blocks@.take(blocks@.len() as int) =~= blocks@);
    }
    result
}

/// A list holding the one item a block becomes.
fn single_item_list(block: &Block, ordered: bool, checked: Option<bool>) -> (r: Node)
    ensures
        r is List,
        r->List_0.ordered == ordered,
        r->List_0.start == if ordered {
            Some(match block.props.start {
                Some(s) => s as u32,
                None => 1u32,
            })
        } else {
            None
        },
        !r->List_0.spread,
        r->List_0.children@.len() == 1,
        item_node_ok(*block, checked, r->List_0.children@[0]),
    decreases block, 1int,
{
    let start: Option<u32> = if ordered {
        Some(match block.props.start {
            Some(s) => #[verifier::truncate] (s as u32),
            None => 1,
        })
    } else {
        None
    };
    let item = block_to_list_item(block, checked);
    Node::List(md::List { ordered, start, spread: false, children: vec![item] })
}

/// The text of an optional prop, empty when unset.
pub open spec fn prop_text(o: Option<String>) -> Seq<char> {
    match o {
        Some(s) => s@,
        None => Seq::empty(),
    }
}

/// The table node a block becomes: for table content, a table with a row per
/// row and a cell per cell (no column alignment); otherwise an empty
/// paragraph.
pub open spec fn table_node_ok(b: Block, n: Node) -> bool {
    match b.content {
        BlockContent::Table(t) => {
            let tb = n->Table_0;
            &&& n is Table
            &&& tb.children@.len() == t.rows@.len()
            &&& tb.align@.len() == if t.rows@.len() > 0 { t.rows@[0].cells@.len() } else { 0 }
            &&& forall|j: int| 0 <= j < tb.align@.len() ==> tb.align@[j] == AlignKind::Unset
            &&& forall|i: int| 0 <= i < t.rows@.len() ==> {
                let row = #[trigger] tb.children@[i];
                &&& row is TableRow
                &&& row->TableRow_0.children@.len() == t.rows@[i].cells@.len()
                &&& forall|j: int| 0 <= j < t.rows@[i].cells@.len() ==> {
                    let cell = #[trigger] row->TableRow_0.children@[j];
                    &&& cell is TableCell
                    &&& inline_nodes_ok(t.rows@[i].cells@[j].content@, cell->TableCell_0.children@)
                }
            }
        },
        _ => n matches Node::Paragraph(p) && p.children@.len() == 0,
    }
}

/// The checkbox of the item of a list item block standing alone.
pub open spec fn single_checked(b: Block) -> Option<bool> {
    item_checked(b.block_type, b)
}

/// The node a block becomes, by its type: a heading of its level, a
/// paragraph, a code block of its language, a paragraph holding its image, a
/// thematic break, a table, a blockquote of its content and children, or a
/// list holding the one item it becomes.
pub open spec fn block_node_ok(b: Block, n: Node) -> bool
    decreases b, 1int,
{
    let items = block_inline(b);
    match b.block_type {
        BlockType::Heading => n is Heading && n->Heading_0.depth == match b.props.level {
            Some(l) => l,
            None => 1u8,
        } && inline_nodes_ok(items, n->Heading_0.children@),
        BlockType::Paragraph | BlockType::HardBreak | BlockType::TableRow | BlockType::TableHeader
        | BlockType::TableCell | BlockType::TableParagraph => n is Paragraph && inline_nodes_ok(
            items,
            n->Paragraph_0.children@,
        ),
        BlockType::CodeBlock => {
            let lang = prop_text(b.props.language);
            &&& n is Code
            &&& n->Code_0.meta is None
            &&& n->Code_0.value@ == if items.len() > 0 && items[0] is Text {
                items[0]->Text_text@
            } else {
                Seq::empty()
            }
            &&& match n->Code_0.lang {
                Some(l) => lang.len() > 0 && l@ == lang,
                None => lang.len() == 0,
            }
        },
        BlockType::Image => {
            let p = n->Paragraph_0;
            &&& n is Paragraph
            &&& p.children@.len() == 1
            &&& p.children@[0] is Image
            &&& p.children@[0]->Image_0.url@ == prop_text(b.props.url)
            &&& p.children@[0]->Image_0.alt@ == prop_text(b.props.caption)
            &&& p.children@[0]->Image_0.title is None
        },
        BlockType::Divider => n is ThematicBreak,
        BlockType::Table => table_node_ok(b, n),
        BlockType::Quote => {
            let q = n->Blockquote_0;
            &&& n is Blockquote
            &&& q.children@.len() == lead(b) + b.children@.len()
            &&& lead_ok(b, q.children@)
            &&& forall|i: int| 0 <= i < b.children@.len() ==> block_node_ok(
                #[trigger] b.children@[i],
                q.children@[lead(b) + i],
            )
        },
        BlockType::ToggleListItem | BlockType::BulletListItem | BlockType::CheckListItem
        | BlockType::NumberedListItem => {
            let l = n->List_0;
            let ordered = b.block_type == BlockType::NumberedListItem;
            &&& n is List
            &&& l.ordered == ordered
            &&& l.start == if ordered {
                Some(match b.props.start {
                    Some(s) => s as u32,
                    None => 1u32,
                })
            } else {
                None
            }
            &&& !l.spread
            &&& l.children@.len() == 1
            &&& item_node_ok(b, single_checked(b), l.children@[0])
        },
    }
}

/// Convert a single block to a syntax tree node.
pub fn block_to_mdast(block: &Block) -> (r: Node)
    ensures
        block_node_ok(*block, r),
    decreases block, 2int,
{
    let inline_content = block.content.as_inline();
    match block.block_type {
        BlockType::Heading => {
            let level = match block.props.level {
                Some(l) => l,
                None => 1,
            };
            Node::Heading(md::Heading { depth: level, children: inline_to_mdast(inline_content) })
        },
        BlockType::Paragraph | BlockType::HardBreak | BlockType::TableRow | BlockType::TableHeader
        | BlockType::TableCell | BlockType::TableParagraph => {
            Node::Paragraph(md::Paragraph { children: inline_to_mdast(inline_content) })
        },
        BlockType::CodeBlock => {
            let lang = match &block.props.language {
                Some(l) => owned(l.as_str()),
                None => String::new(),
            };
            let value = if inline_content.len() > 0 {
                match &inline_content[0] {
                    InlineContent::Text { text, .. } => text.clone(),
                    _ => String::new(),
                }
            } else {
                String::new()
            };
            let lang_opt = if lang.as_str().unicode_len() == 0 { None } else { Some(lang) };
            let r = Node::Code(md::Code { lang: lang_opt, meta: None, value });
            proof {
                assert(inline_content@ == block_inline(*block));
            }
            r
        },
        BlockType::Image => {
            let url = match &block.props.url {
                Some(u) => owned(u.as_str()),
                None => String::new(),
            };
            let alt = match &block.props.caption {
                Some(c) => owned(c.as_str()),
                None => String::new(),
            };
            Node::Paragraph(md::Paragraph { children: vec![Node::Image(md::Image { url, alt, title: None })] })
        },
        BlockType::Divider => Node::ThematicBreak(md::ThematicBreak {}),
        BlockType::Table => table_block_to_mdast(block),
        BlockType::Quote => {
            let mut bq_children: Vec<Node> = Vec::new();
            push_inline_paragraph(&mut bq_children, inline_content);
            let ghost first = bq_children@;
            proof {
                assert(inline_content@ == block_inline(*block));
                assert(bq_children@.len() == lead(*block));
            }
            let mut k: usize = 0;
            while k < block.children.len()
                invariant
                    k <= block.children.len(),
                    bq_children@.len() == lead(*block) + k,
                    first.len() == lead(*block),
                    lead_ok(*block, first),
                    bq_children@.take(lead(*block)) == first,
                    forall|i: int| 0 <= i < k ==> block_node_ok(#[trigger] block.children@[i], bq_children@[lead(*block) + i]),
                decreases block.children.len() - k,
            {
                proof {
                    assert(decreases_to!(*block => block.children));
                    assert(decreases_to!(block.children => block.children@));
                    assert(decreases_to!(block.children@ => block.children@[k as int]));
                }
                let ghost before = bq_children@;
                bq_children.push(block_to_mdast(&block.children[k]));
                proof {
                    assert(bq_children@.take(lead(*block)) =~= before.take(lead(*block)));
                    assert forall|i: int| 0 <= i < k + 1 implies block_node_ok(#[trigger] block.children@[i], bq_children@[lead(*block) + i]) by {
                        if i < k {
                            assert(bq_children@[lead(*block) + i] == before[lead(*block) + i]);
                        }
                    }
                }
                k += 1;
            }
            proof {
                if lead(*block) == 1 {
                    assert(bq_children@[0] == bq_children@.take(1)[0]);
                }
            }
            Node::Blockquote(md::Blockquote { children: bq_children })
        },
        BlockType::ToggleListItem | BlockType::BulletListItem => single_item_list(block, false, None),
        BlockType::NumberedListItem => single_item_list(block, true, None),
        BlockType::CheckListItem => {
            let checked = match block.props.checked {
                Some(c) => c,
                None => false,
            };
            single_item_list(block, false, Some(checked))
        },
    }
}

/// A table block as a table whose rows hold its cells (no column alignment).
fn table_block_to_mdast(block: &Block) -> (r: Node)
    ensures
        table_node_ok(*block, r),
{
    match &block.content {
        BlockContent::Table(table_content) => {
            let num_columns = if table_content.rows.len() > 0 { table_content.rows[0].cells.len() } else { 0 };
            let mut align: Vec<AlignKind> = Vec::new();
            let mut c: usize = 0;
            while c < num_columns
                invariant
                    c <= num_columns,
                    align@.len() == c,
                    forall|j: int| 0 <= j < c ==> align@[j] == AlignKind::Unset,
                decreases num_columns - c,
            {
                align.push(AlignKind::Unset);
                c += 1;
            }
            let mut rows: Vec<Node> = Vec::new();
            let mut i: usize = 0;
            while i < table_content.rows.len()
                invariant
                    i <= table_content.rows.len(),
                    rows@.len() == i,
                    forall|m: int| 0 <= m < i ==> {
                        let row = #[trigger] rows@[m];
                        &&& row is TableRow
                        &&& row->TableRow_0.children@.len() == table_content.rows@[m].cells@.len()
                        &&& forall|j: int| 0 <= j < table_content.rows@[m].cells@.len() ==> {
                            let cell = #[trigger] row->TableRow_0.children@[j];
                            &&& cell is TableCell
                            &&& inline_nodes_ok(table_content.rows@[m].cells@[j].content@, cell->TableCell_0.children@)
                        }
                    },
                decreases table_content.rows.len() - i,
            {
                let table_row = &table_content.rows[i];
                let mut cells: Vec<Node> = Vec::new();
                let mut j: usize = 0;
                while j < table_row.cells.len()
                    invariant
                        j <= table_row.cells.len(),
                        cells@.len() == j,
                        forall|m: int| 0 <= m < j ==> {
                            let cell = #[trigger] cells@[m];
                            &&& cell is TableCell
                            &&& inline_nodes_ok(table_row.cells@[m].content@, cell->TableCell_0.children@)
                        },
                    decreases table_row.cells.len() - j,
                {
                    let cell = &table_row.cells[j];
                    cells.push(Node::TableCell(md::TableCell { children: inline_to_mdast(cell.content.as_slice()) }));
                    j += 1;
                }
                rows.push(Node::TableRow(md::TableRow { children: cells }));
                i += 1;
            }
            Node::Table(md::Table { align, children: rows })
        },
        _ => Node::Paragraph(md::Paragraph { children: Vec::new() }),
    }
}

/// Convert blocks into a syntax tree root.
pub fn blocks_to_mdast(blocks: &[Block]) -> (r: Node)
    ensures
        r matches Node::Root(root) && blocks_nodes_ok(blocks@, root.children@),
{
    Node::Root(md::Root { children: blocks_to_mdast_children(blocks) })
}

/// The options markdown is rendered with: the defaults, with `-` bullets.
pub open spec fn render_options(o: Options) -> bool {
    &&& crate::types::default_options_spec(Options { bullet: '*', ..o })
    &&& o.bullet == '-'
}

/// Render blocks as GFM markdown: the syntax tree of the blocks, serialized
/// with `-` bullets. The result is empty or ends with a line ending.
pub fn blocks_to_markdown(blocks: &[Block]) -> (r: ConvertResult<String>)
    ensures
        r matches Ok(s) && (s@.len() == 0 || s@.last() == '\n' || s@.last() == '\r'),
        r matches Ok(s) && exists|root: Node, o: Options|
            #![trigger crate::markdown_of(root, o, s@)]
            root matches Node::Root(rt) && blocks_nodes_ok(blocks@, rt.children@) && render_options(o)
                && crate::markdown_of(root, o, s@),
{
    let root = blocks_to_mdast(blocks);
    let mut opts = Options::default();
    opts.bullet = '-';
    proof {
        crate::lemma_valid_options_tree_ok(crate::markdown_handlers(opts), opts, root, false);
    }
    let result = crate::to_markdown(&root, &opts);
    proof {
        assert(render_options(opts));
        assert(crate::markdown_of(root, opts, result@));
    }
    Ok(result)
}


// ── Laws ────────────────────────────────────────────────────

/// The block types that hold other blocks: quotes and list items of every
/// kind.
pub open spec fn nests(t: BlockType) -> bool {
    t == BlockType::Quote || t == BlockType::ToggleListItem || t == BlockType::BulletListItem
        || t == BlockType::CheckListItem || t == BlockType::NumberedListItem
}

/// The nodes a node holds for the blocks under it: the children of a
/// blockquote, or those of the first item of a list.
pub open spec fn held_nodes(n: Node) -> Seq<Node> {
    match n {
        Node::Blockquote(q) => q.children@,
        Node::List(l) => if l.children@.len() > 0 && l.children@[0] is ListItem {
            l.children@[0]->ListItem_0.children@
        } else {
            Seq::empty()
        },
        _ => Seq::empty(),
    }
}

/// Blocks that give nodes give at least one.
proof fn lemma_blocks_nodes_nonempty(bs: Seq<Block>, ns: Seq<Node>)
    requires
        blocks_nodes_ok(bs, ns),
        bs.len() > 0,
    ensures
        ns.len() > 0,
{
}

/// A block that holds others is rendered as a node that holds its inline
/// content as a first paragraph and, after it, nodes for its children: no
/// child block is dropped. A toggle item in particular becomes an unordered
/// list of one item without a checkbox.
pub proof fn lemma_children_kept(b: Block, n: Node)
    requires
        block_node_ok(b, n),
        nests(b.block_type),
    ensures
        held_nodes(n).len() >= lead(b),
        lead_ok(b, held_nodes(n)),
        b.children@.len() > 0 ==> held_nodes(n).len() > lead(b),
        b.block_type == BlockType::ToggleListItem ==> (n matches Node::List(l) && !l.ordered && l.start is None
            && l.children@.len() == 1 && (l.children@[0] matches Node::ListItem(it) && it.checked is None)),
{
    if b.block_type != BlockType::Quote {
        let it = n->List_0.children@[0];
        assert(item_node_ok(b, single_checked(b), it));
        if b.children@.len() > 0 {
            lemma_blocks_nodes_nonempty(b.children@, it->ListItem_0.children@.skip(lead(b)));
        }
    } else if b.children@.len() > 0 {
        assert(block_node_ok(b.children@[0], n->Blockquote_0.children@[lead(b)]));
    }
}

}
