//! Block types and what each one carries.

use vstd::prelude::*;
use crate::blocknote::props::{merged, opt_text, Props};
use crate::text::str_eq;

verus! {

/// A block type.
#[derive(Debug, Clone, Copy, PartialEq, Eq, Hash, Structural)]
pub enum BlockType {
    Paragraph,
    Heading,
    BulletListItem,
    NumberedListItem,
    CheckListItem,
    CodeBlock,
    Image,
    Table,
    TableRow,
    TableHeader,
    TableCell,
    TableParagraph,
    Divider,
    HardBreak,
    Quote,
    ToggleListItem,
}

/// The name of a block type (camelCase).
pub open spec fn block_type_name(t: BlockType) -> Seq<char> {
    match t {
            BlockType::Paragraph => "paragraph"@,
            BlockType::Heading => "heading"@,
            BlockType::BulletListItem => "bulletListItem"@,
            BlockType::NumberedListItem => "numberedListItem"@,
            BlockType::CheckListItem => "checkListItem"@,
            BlockType::CodeBlock => "codeBlock"@,
            BlockType::Image => "image"@,
            BlockType::Table => "table"@,
            BlockType::TableRow => "tableRow"@,
            BlockType::TableHeader => "tableHeader"@,
            BlockType::TableCell => "tableCell"@,
            BlockType::TableParagraph => "tableParagraph"@,
            BlockType::Divider => "divider"@,
            BlockType::HardBreak => "hardBreak"@,
            BlockType::Quote => "quote"@,
            BlockType::ToggleListItem => "toggleListItem"@,
    }
}

/// The block type with the given name.
pub open spec fn parse_block_type(s: Seq<char>) -> Option<BlockType> {
    if s == "paragraph"@ {
        Some(BlockType::Paragraph)
    } else if s == "heading"@ {
        Some(BlockType::Heading)
    } else if s == "bulletListItem"@ {
        Some(BlockType::BulletListItem)
    } else if s == "numberedListItem"@ {
        Some(BlockType::NumberedListItem)
    } else if s == "checkListItem"@ {
        Some(BlockType::CheckListItem)
    } else if s == "codeBlock"@ {
        Some(BlockType::CodeBlock)
    } else if s == "image"@ {
        Some(BlockType::Image)
    } else if s == "table"@ {
        Some(BlockType::Table)
    } else if s == "tableRow"@ {
        Some(BlockType::TableRow)
    } else if s == "tableHeader"@ {
        Some(BlockType::TableHeader)
    } else if s == "tableCell"@ {
        Some(BlockType::TableCell)
    } else if s == "tableParagraph"@ {
        Some(BlockType::TableParagraph)
    } else if s == "divider"@ {
        Some(BlockType::Divider)
    } else if s == "hardBreak"@ {
        Some(BlockType::HardBreak)
    } else if s == "quote"@ {
        Some(BlockType::Quote)
    } else if s == "toggleListItem"@ {
        Some(BlockType::ToggleListItem)
    } else {
        None
    }
}

/// Parsing a block type's name gives the block type back.
pub proof fn lemma_parse_name(t: BlockType)
    ensures
        parse_block_type(block_type_name(t)) == Some(t),
{
    match t {
        BlockType::Paragraph => {
            reveal_strlit("paragraph");
        },
        BlockType::Heading => {
            reveal_strlit("heading");
            reveal_strlit("paragraph");
            assert("heading"@.len() != "paragraph"@.len());
        },
        BlockType::BulletListItem => {
            reveal_strlit("bulletListItem");
            reveal_strlit("paragraph");
            assert("bulletListItem"@.len() != "paragraph"@.len());
            reveal_strlit("heading");
            assert("bulletListItem"@.len() != "heading"@.len());
        },
        BlockType::NumberedListItem => {
            reveal_strlit("numberedListItem");
            reveal_strlit("paragraph");
            assert("numberedListItem"@.len() != "paragraph"@.len());
            reveal_strlit("heading");
            assert("numberedListItem"@.len() != "heading"@.len());
            reveal_strlit("bulletListItem");
            assert("numberedListItem"@.len() != "bulletListItem"@.len());
        },
        BlockType::CheckListItem => {
            reveal_strlit("checkListItem");
            reveal_strlit("paragraph");
            assert("checkListItem"@.len() != "paragraph"@.len());
            reveal_strlit("heading");
            assert("checkListItem"@.len() != "heading"@.len());
            reveal_strlit("bulletListItem");
            assert("checkListItem"@.len() != "bulletListItem"@.len());
            reveal_strlit("numberedListItem");
            assert("checkListItem"@.len() != "numberedListItem"@.len());
        },
        BlockType::CodeBlock => {
            reveal_strlit("codeBlock");
            reveal_strlit("paragraph");
            assert("codeBlock"@[0] != "paragraph"@[0]);
            reveal_strlit("heading");
            assert("codeBlock"@.len() != "heading"@.len());
            reveal_strlit("bulletListItem");
            assert("codeBlock"@.len() != "bulletListItem"@.len());
            reveal_strlit("numberedListItem");
            assert("codeBlock"@.len() != "numberedListItem"@.len());
            reveal_strlit("checkListItem");
            assert("codeBlock"@.len() != "checkListItem"@.len());
        },
        BlockType::Image => {
            reveal_strlit("image");
            reveal_strlit("paragraph");
            assert("image"@.len() != "paragraph"@.len());
            reveal_strlit("heading");
            assert("image"@.len() != "heading"@.len());
            reveal_strlit("bulletListItem");
            assert("image"@.len() != "bulletListItem"@.len());
            reveal_strlit("numberedListItem");
            assert("image"@.len() != "numberedListItem"@.len());
            reveal_strlit("checkListItem");
            assert("image"@.len() != "checkListItem"@.len());
            reveal_strlit("codeBlock");
            assert("image"@.len() != "codeBlock"@.len());
        },
        BlockType::Table => {
            reveal_strlit("table");
            reveal_strlit("paragraph");
            assert("table"@.len() != "paragraph"@.len());
            reveal_strlit("heading");
            assert("table"@.len() != "heading"@.len());
            reveal_strlit("bulletListItem");
            assert("table"@.len() != "bulletListItem"@.len());
            reveal_strlit("numberedListItem");
            assert("table"@.len() != "numberedListItem"@.len());
            reveal_strlit("checkListItem");
            assert("table"@.len() != "checkListItem"@.len());
            reveal_strlit("codeBlock");
            assert("table"@.len() != "codeBlock"@.len());
            reveal_strlit("image");
            assert("table"@[0] != "image"@[0]);
        },
        BlockType::TableRow => {
            reveal_strlit("tableRow");
            reveal_strlit("paragraph");
            assert("tableRow"@.len() != "paragraph"@.len());
            reveal_strlit("heading");
            assert("tableRow"@.len() != "heading"@.len());
            reveal_strlit("bulletListItem");
            assert("tableRow"@.len() != "bulletListItem"@.len());
            reveal_strlit("numberedListItem");
            assert("tableRow"@.len() != "numberedListItem"@.len());
            reveal_strlit("checkListItem");
            assert("tableRow"@.len() != "checkListItem"@.len());
            reveal_strlit("codeBlock");
            assert("tableRow"@.len() != "codeBlock"@.len());
            reveal_strlit("image");
            assert("tableRow"@.len() != "image"@.len());
            reveal_strlit("table");
            assert("tableRow"@.len() != "table"@.len());
        },
        BlockType::TableHeader => {
            reveal_strlit("tableHeader");
            reveal_strlit("paragraph");
            assert("tableHeader"@.len() != "paragraph"@.len());
            reveal_strlit("heading");
            assert("tableHeader"@.len() != "heading"@.len());
            reveal_strlit("bulletListItem");
            assert("tableHeader"@.len() != "bulletListItem"@.len());
            reveal_strlit("numberedListItem");
            assert("tableHeader"@.len() != "numberedListItem"@.len());
            reveal_strlit("checkListItem");
            assert("tableHeader"@.len() != "checkListItem"@.len());
            reveal_strlit("codeBlock");
            assert("tableHeader"@.len() != "codeBlock"@.len());
            reveal_strlit("image");
            assert("tableHeader"@.len() != "image"@.len());
            reveal_strlit("table");
            assert("tableHeader"@.len() != "table"@.len());
            reveal_strlit("tableRow");
            assert("tableHeader"@.len() != "tableRow"@.len());
        },
        BlockType::TableCell => {
            reveal_strlit("tableCell");
            reveal_strlit("paragraph");
            assert("tableCell"@[0] != "paragraph"@[0]);
            reveal_strlit("heading");
            assert("tableCell"@.len() != "heading"@.len());
            reveal_strlit("bulletListItem");
            assert("tableCell"@.len() != "bulletListItem"@.len());
            reveal_strlit("numberedListItem");
            assert("tableCell"@.len() != "numberedListItem"@.len());
            reveal_strlit("checkListItem");
            assert("tableCell"@.len() != "checkListItem"@.len());
            reveal_strlit("codeBlock");
            assert("tableCell"@[0] != "codeBlock"@[0]);
            reveal_strlit("image");
            assert("tableCell"@.len() != "image"@.len());
            reveal_strlit("table");
            assert("tableCell"@.len() != "table"@.len());
            reveal_strlit("tableRow");
            assert("tableCell"@.len() != "tableRow"@.len());
            reveal_strlit("tableHeader");
            assert("tableCell"@.len() != "tableHeader"@.len());
        },
        BlockType::TableParagraph => {
            reveal_strlit("tableParagraph");
            reveal_strlit("paragraph");
            assert("tableParagraph"@.len() != "paragraph"@.len());
            reveal_strlit("heading");
            assert("tableParagraph"@.len() != "heading"@.len());
            reveal_strlit("bulletListItem");
            assert("tableParagraph"@[0] != "bulletListItem"@[0]);
            reveal_strlit("numberedListItem");
            assert("tableParagraph"@.len() != "numberedListItem"@.len());
            reveal_strlit("checkListItem");
            assert("tableParagraph"@.len() != "checkListItem"@.len());
            reveal_strlit("codeBlock");
            assert("tableParagraph"@.len() != "codeBlock"@.len());
            reveal_strlit("image");
            assert("tableParagraph"@.len() != "image"@.len());
            reveal_strlit("table");
            assert("tableParagraph"@.len() != "table"@.len());
            reveal_strlit("tableRow");
            assert("tableParagraph"@.len() != "tableRow"@.len());
            reveal_strlit("tableHeader");
            assert("tableParagraph"@.len() != "tableHeader"@.len());
            reveal_strlit("tableCell");
            assert("tableParagraph"@.len() != "tableCell"@.len());
        },
        BlockType::Divider => {
            reveal_strlit("divider");
            reveal_strlit("paragraph");
            assert("divider"@.len() != "paragraph"@.len());
            reveal_strlit("heading");
            assert("divider"@[0] != "heading"@[0]);
            reveal_strlit("bulletListItem");
            assert("divider"@.len() != "bulletListItem"@.len());
            reveal_strlit("numberedListItem");
            assert("divider"@.len() != "numberedListItem"@.len());
            reveal_strlit("checkListItem");
            assert("divider"@.len() != "checkListItem"@.len());
            reveal_strlit("codeBlock");
            assert("divider"@.len() != "codeBlock"@.len());
            reveal_strlit("image");
            assert("divider"@.len() != "image"@.len());
            reveal_strlit("table");
            assert("divider"@.len() != "table"@.len());
            reveal_strlit("tableRow");
            assert("divider"@.len() != "tableRow"@.len());
            reveal_strlit("tableHeader");
            assert("divider"@.len() != "tableHeader"@.len());
            reveal_strlit("tableCell");
            assert("divider"@.len() != "tableCell"@.len());
            reveal_strlit("tableParagraph");
            assert("divider"@.len() != "tableParagraph"@.len());
        },
        BlockType::HardBreak => {
            reveal_strlit("hardBreak");
            reveal_strlit("paragraph");
            assert("hardBreak"@[0] != "paragraph"@[0]);
            reveal_strlit("heading");
            assert("hardBreak"@.len() != "heading"@.len());
            reveal_strlit("bulletListItem");
            assert("hardBreak"@.len() != "bulletListItem"@.len());
            reveal_strlit("numberedListItem");
            assert("hardBreak"@.len() != "numberedListItem"@.len());
            reveal_strlit("checkListItem");
            assert("hardBreak"@.len() != "checkListItem"@.len());
            reveal_strlit("codeBlock");
            assert("hardBreak"@[0] != "codeBlock"@[0]);
            reveal_strlit("image");
            assert("hardBreak"@.len() != "image"@.len());
            reveal_strlit("table");
            assert("hardBreak"@.len() != "table"@.len());
            reveal_strlit("tableRow");
            assert("hardBreak"@.len() != "tableRow"@.len());
            reveal_strlit("tableHeader");
            assert("hardBreak"@.len() != "tableHeader"@.len());
            reveal_strlit("tableCell");
            assert("hardBreak"@[0] != "tableCell"@[0]);
            reveal_strlit("tableParagraph");
            assert("hardBreak"@.len() != "tableParagraph"@.len());
            reveal_strlit("divider");
            assert("hardBreak"@.len() != "divider"@.len());
        },
        BlockType::Quote => {
            reveal_strlit("quote");
            reveal_strlit("paragraph");
            assert("quote"@.len() != "paragraph"@.len());
            reveal_strlit("heading");
            assert("quote"@.len() != "heading"@.len());
            reveal_strlit("bulletListItem");
            assert("quote"@.len() != "bulletListItem"@.len());
            reveal_strlit("numberedListItem");
            assert("quote"@.len() != "numberedListItem"@.len());
            reveal_strlit("checkListItem");
            assert("quote"@.len() != "checkListItem"@.len());
            reveal_strlit("codeBlock");
            assert("quote"@.len() != "codeBlock"@.len());
            reveal_strlit("image");
            assert("quote"@[0] != "image"@[0]);
            reveal_strlit("table");
            assert("quote"@[0] != "table"@[0]);
            reveal_strlit("tableRow");
            assert("quote"@.len() != "tableRow"@.len());
            reveal_strlit("tableHeader");
            assert("quote"@.len() != "tableHeader"@.len());
            reveal_strlit("tableCell");
            assert("quote"@.len() != "tableCell"@.len());
            reveal_strlit("tableParagraph");
            assert("quote"@.len() != "tableParagraph"@.len());
            reveal_strlit("divider");
            assert("quote"@.len() != "divider"@.len());
            reveal_strlit("hardBreak");
            assert("quote"@.len() != "hardBreak"@.len());
        },
        BlockType::ToggleListItem => {
            reveal_strlit("toggleListItem");
            reveal_strlit("paragraph");
            assert("toggleListItem"@.len() != "paragraph"@.len());
            reveal_strlit("heading");
            assert("toggleListItem"@.len() != "heading"@.len());
            reveal_strlit("bulletListItem");
            assert("toggleListItem"@[0] != "bulletListItem"@[0]);
            reveal_strlit("numberedListItem");
            assert("toggleListItem"@.len() != "numberedListItem"@.len());
            reveal_strlit("checkListItem");
            assert("toggleListItem"@.len() != "checkListItem"@.len());
            reveal_strlit("codeBlock");
            assert("toggleListItem"@.len() != "codeBlock"@.len());
            reveal_strlit("image");
            assert("toggleListItem"@.len() != "image"@.len());
            reveal_strlit("table");
            assert("toggleListItem"@.len() != "table"@.len());
            reveal_strlit("tableRow");
            assert("toggleListItem"@.len() != "tableRow"@.len());
            reveal_strlit("tableHeader");
            assert("toggleListItem"@.len() != "tableHeader"@.len());
            reveal_strlit("tableCell");
            assert("toggleListItem"@.len() != "tableCell"@.len());
            reveal_strlit("tableParagraph");
            assert("toggleListItem"@[1] != "tableParagraph"@[1]);
            reveal_strlit("divider");
            assert("toggleListItem"@.len() != "divider"@.len());
            reveal_strlit("hardBreak");
            assert("toggleListItem"@.len() != "hardBreak"@.len());
            reveal_strlit("quote");
            assert("toggleListItem"@.len() != "quote"@.len());
        },
    }
}

/// The block types whose content is inline text.
pub open spec fn has_inline_content_spec(t: BlockType) -> bool {
    t is Paragraph || t is Heading || t is BulletListItem || t is NumberedListItem || t is CheckListItem
        || t is CodeBlock || t is Quote || t is ToggleListItem
}

/// The block types that carry text props.
pub open spec fn has_text_props_spec(t: BlockType) -> bool {
    t is Paragraph || t is Heading || t is BulletListItem || t is NumberedListItem || t is CheckListItem
        || t is Quote || t is ToggleListItem
}

/// A block type with text props has inline content.
pub proof fn lemma_text_props_inline(t: BlockType)
    ensures
        has_text_props_spec(t) ==> has_inline_content_spec(t),
{
}

/// The default props of a block type, but for the level, the checked state,
/// the start number and the other props: the text defaults for types with
/// text props, not toggleable for headings, and nothing else set.
pub open spec fn default_props_base(t: BlockType, p: Props) -> bool {
    let text = has_text_props_spec(t);
    &&& opt_text(p.text_color) == if text { Some("default"@) } else { None }
    &&& opt_text(p.background_color) == if text { Some("default"@) } else { None }
    &&& opt_text(p.text_alignment) == if text { Some("left"@) } else { None }
    &&& p.is_toggleable == if t is Heading { Some(false) } else { None }
    &&& p.language is None
    &&& p.name is None
    &&& p.url is None
    &&& p.caption is None
    &&& p.show_preview is None
    &&& p.preview_width is None
}

/// The default props of a block type: the text defaults for types with text
/// props, level 1 and not toggleable for headings, unchecked for check items.
pub open spec fn default_props_spec(t: BlockType, p: Props) -> bool {
    &&& default_props_base(t, p)
    &&& p.level == if t is Heading { Some(1u8) } else { None }
    &&& p.checked == if t is CheckListItem { Some(false) } else { None }
    &&& p.start is None
    &&& p.other@.len() == 0
}

impl BlockType {
    /// Whether this block type supports inline text content.
    pub fn has_inline_content(&self) -> (r: bool)
        ensures
            r == has_inline_content_spec(*self),
    {
        match self {
            BlockType::Paragraph | BlockType::Heading | BlockType::BulletListItem
            | BlockType::NumberedListItem | BlockType::CheckListItem | BlockType::CodeBlock
            | BlockType::Quote | BlockType::ToggleListItem => true,
            _ => false,
        }
    }

    /// Whether this block type carries text-level props.
    pub fn has_text_props(&self) -> (r: bool)
        ensures
            r == has_text_props_spec(*self),
    {
        match self {
            BlockType::Paragraph | BlockType::Heading | BlockType::BulletListItem
            | BlockType::NumberedListItem | BlockType::CheckListItem | BlockType::Quote
            | BlockType::ToggleListItem => true,
            _ => false,
        }
    }

    /// The name of this block type (camelCase).
    pub fn name(&self) -> (r: &'static str)
        ensures
            r@ == block_type_name(*self),
    {
        match self {
            BlockType::Paragraph => "paragraph",
            BlockType::Heading => "heading",
            BlockType::BulletListItem => "bulletListItem",
            BlockType::NumberedListItem => "numberedListItem",
            BlockType::CheckListItem => "checkListItem",
            BlockType::CodeBlock => "codeBlock",
            BlockType::Image => "image",
            BlockType::Table => "table",
            BlockType::TableRow => "tableRow",
            BlockType::TableHeader => "tableHeader",
            BlockType::TableCell => "tableCell",
            BlockType::TableParagraph => "tableParagraph",
            BlockType::Divider => "divider",
            BlockType::HardBreak => "hardBreak",
            BlockType::Quote => "quote",
            BlockType::ToggleListItem => "toggleListItem",
        }
    }

    /// The block type with the given name, if any.
    pub fn parse(s: &str) -> (r: Option<BlockType>)
        ensures
            r == parse_block_type(s@),
    {
        if str_eq(s, "paragraph") {
            Some(BlockType::Paragraph)
        } else if str_eq(s, "heading") {
            Some(BlockType::Heading)
        } else if str_eq(s, "bulletListItem") {
            Some(BlockType::BulletListItem)
        } else if str_eq(s, "numberedListItem") {
            Some(BlockType::NumberedListItem)
        } else if str_eq(s, "checkListItem") {
            Some(BlockType::CheckListItem)
        } else if str_eq(s, "codeBlock") {
            Some(BlockType::CodeBlock)
        } else if str_eq(s, "image") {
            Some(BlockType::Image)
        } else if str_eq(s, "table") {
            Some(BlockType::Table)
        } else if str_eq(s, "tableRow") {
            Some(BlockType::TableRow)
        } else if str_eq(s, "tableHeader") {
            Some(BlockType::TableHeader)
        } else if str_eq(s, "tableCell") {
            Some(BlockType::TableCell)
        } else if str_eq(s, "tableParagraph") {
            Some(BlockType::TableParagraph)
        } else if str_eq(s, "divider") {
            Some(BlockType::Divider)
        } else if str_eq(s, "hardBreak") {
            Some(BlockType::HardBreak)
        } else if str_eq(s, "quote") {
            Some(BlockType::Quote)
        } else if str_eq(s, "toggleListItem") {
            Some(BlockType::ToggleListItem)
        } else {
            None
        }
    }

    /// Generate the default props for this block type.
    pub fn default_props(&self) -> (p: Props)
        ensures
            default_props_spec(*self, p),
    {
        let mut props = Props::default();
        if self.has_text_props() {
            props.insert_text_defaults();
        }
        proof {
            reveal_strlit("default");
            reveal_strlit("left");
        }
        match self {
            BlockType::Heading => {
                props.level = Some(1);
                props.is_toggleable = Some(false);
            },
            BlockType::CheckListItem => {
                props.checked = Some(false);
            },
            _ => {},
        }
        props
    }

    /// Merge user-provided props with this type's defaults (user values take
    /// precedence).
    pub fn props_with_defaults(&self, overrides: &Props) -> (p: Props)
        ensures
            exists|d: Props| default_props_spec(*self, d) && #[trigger] merged(d, *overrides, p),
    {
        let mut props = self.default_props();
        let ghost d = props;
        props.merge_from(overrides);
        assert(merged(d, *overrides, props));
        props
    }
}

/// A name that is no block type's.
#[derive(Debug, Clone, PartialEq, Eq)]
pub struct UnknownBlockType;

impl std::str::FromStr for BlockType {
    type Err = UnknownBlockType;

    fn from_str(s: &str) -> (r: Result<Self, Self::Err>)
        ensures
            match parse_block_type(s@) {
                Some(t) => r == Ok::<BlockType, UnknownBlockType>(t),
                None => r == Err::<BlockType, UnknownBlockType>(UnknownBlockType),
            },
    {
        match BlockType::parse(s) {
            Some(t) => Ok(t),
            None => Err(UnknownBlockType),
        }
    }
}

}
