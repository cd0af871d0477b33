//! The handlers that serialize each kind of node, and their dispatch.

pub mod blockquote;
pub mod break_;
pub mod code;
pub mod definition;
pub mod delete;
pub mod emphasis;
pub mod heading;
pub mod html;
pub mod image;
pub mod image_reference;
pub mod inline_code;
pub mod link;
pub mod link_reference;
pub mod list;
pub mod list_item;
pub mod paragraph;
pub mod root;
pub mod strong;
pub mod table;
pub mod text;
pub mod thematic_break;

use vstd::prelude::*;
use crate::format::link_autolink_spec;
use crate::mdast::Node;
use crate::output::{cfg_of, ctx_of, opt_node, same_trail, ser_with, wrote};
use crate::state::{preserved, serializable, State};
use crate::text::owned;
use crate::types::{HandlerFn, HandlerMap, Info, Options, PeekFn, PeekMap, Registry};

verus! {

/// Run the handler `h` on a node.
pub fn call_handler(
    h: HandlerFn,
    node: &Node,
    parent: Option<&Node>,
    state: &mut State,
    info: &Info,
) -> (r: String)
    requires
        serializable(*old(state), *node, h),
    ensures
        preserved(*old(state), *final(state)),
        wrote(
            *final(state),
            r@,
            ser_with(cfg_of(*old(state)), ctx_of(*old(state)), h, *node, opt_node(parent), info.before@, info.after@),
        ),
    decreases node, 9int,
{
    match h {
        HandlerFn::Root => root::handle_root(node, parent, state, info),
        HandlerFn::Text => text::handle_text(node, parent, state, info),
        HandlerFn::Paragraph => paragraph::handle_paragraph(node, parent, state, info),
        HandlerFn::Heading => heading::handle_heading(node, parent, state, info),
        HandlerFn::Emphasis => emphasis::handle_emphasis(node, parent, state, info),
        HandlerFn::Strong => strong::handle_strong(node, parent, state, info),
        HandlerFn::InlineCode => inline_code::handle_inline_code(node, parent, state, info),
        HandlerFn::Code => code::handle_code(node, parent, state, info),
        HandlerFn::Link => link::handle_link(node, parent, state, info),
        HandlerFn::Image => image::handle_image(node, parent, state, info),
        HandlerFn::List => list::handle_list(node, parent, state, info),
        HandlerFn::ListItem => list_item::handle_list_item(node, parent, state, info),
        HandlerFn::Blockquote => blockquote::handle_blockquote(node, parent, state, info),
        HandlerFn::Break => break_::handle_break(node, parent, state, info),
        HandlerFn::ThematicBreak => thematic_break::handle_thematic_break(node, parent, state, info),
        HandlerFn::Html => html::handle_html(node, parent, state, info),
        HandlerFn::Definition => definition::handle_definition(node, parent, state, info),
        HandlerFn::LinkReference => link_reference::handle_link_reference(node, parent, state, info),
        HandlerFn::ImageReference => image_reference::handle_image_reference(node, parent, state, info),
        HandlerFn::Table => table::handle_table(node, parent, state, info),
        HandlerFn::TableRow => table::handle_table_row(node, parent, state, info),
        HandlerFn::TableCell => table::handle_table_cell(node, parent, state, info),
        HandlerFn::Delete => delete::handle_delete(node, parent, state, info),
        HandlerFn::InlineCodeWithTable => crate::gfm::inline_code_with_table(node, parent, state, info),
        HandlerFn::ListItemWithTask => crate::gfm::list_item_with_task(node, parent, state, info),
    }
}

/// The character a peek function announces.
pub open spec fn peek_spec(p: PeekFn, n: Node, o: Options) -> Seq<char> {
    match p {
        PeekFn::Emphasis => seq![o.emphasis],
        PeekFn::Strong => seq![o.strong],
        PeekFn::InlineCode => "`"@,
        PeekFn::Link => if (n matches Node::Link(l) && link_autolink_spec(l, o)) {
            "<"@
        } else {
            "["@
        },
        PeekFn::Image => "!"@,
        PeekFn::Html => "<"@,
        PeekFn::LinkReference => "["@,
        PeekFn::ImageReference => "!"@,
        PeekFn::Delete => "~"@,
    }
}

/// Run the peek function `p` on a node.
pub fn call_peek(p: PeekFn, node: &Node, parent: Option<&Node>, state: &mut State, info: &Info) -> (r: String)
    ensures
        preserved(*old(state), *final(state)),
        same_trail(*old(state), *final(state)),
        r@ == peek_spec(p, *node, old(state).options),
        r@.len() == 1,
{
    proof {
        reveal_strlit("`");
        reveal_strlit("<");
        reveal_strlit("[");
        reveal_strlit("!");
        reveal_strlit("~");
    }
    match p {
        PeekFn::Emphasis => emphasis::peek_emphasis(node, parent, state, info),
        PeekFn::Strong => strong::peek_strong(node, parent, state, info),
        PeekFn::InlineCode => inline_code::peek_inline_code(node, parent, state, info),
        PeekFn::Link => link::peek_link(node, parent, state, info),
        PeekFn::Image => image::peek_image(node, parent, state, info),
        PeekFn::Html => html::peek_html(node, parent, state, info),
        PeekFn::LinkReference => link_reference::peek_link_reference(node, parent, state, info),
        PeekFn::ImageReference => image_reference::peek_image_reference(node, parent, state, info),
        PeekFn::Delete => delete::peek_delete(node, parent, state, info),
    }
}

/// The registrations of the default handler registry, in order.
pub open spec fn default_handler_entries() -> Seq<(Seq<char>, HandlerFn)> {
    seq![
        ("root"@, HandlerFn::Root),
        ("text"@, HandlerFn::Text),
        ("paragraph"@, HandlerFn::Paragraph),
        ("heading"@, HandlerFn::Heading),
        ("emphasis"@, HandlerFn::Emphasis),
        ("strong"@, HandlerFn::Strong),
        ("inlineCode"@, HandlerFn::InlineCode),
        ("code"@, HandlerFn::Code),
        ("link"@, HandlerFn::Link),
        ("image"@, HandlerFn::Image),
        ("list"@, HandlerFn::List),
        ("listItem"@, HandlerFn::ListItem),
        ("blockquote"@, HandlerFn::Blockquote),
        ("thematicBreak"@, HandlerFn::ThematicBreak),
        ("break"@, HandlerFn::Break),
        ("html"@, HandlerFn::Html),
        ("definition"@, HandlerFn::Definition),
        ("linkReference"@, HandlerFn::LinkReference),
        ("imageReference"@, HandlerFn::ImageReference),
    ]
}

/// Get the default handler registry (CommonMark handlers).
pub fn default_handlers() -> (r: HandlerMap)
    ensures
        r@ =~= default_handler_entries(),
{
    let mut handlers: HandlerMap = Registry::new();
    handlers.insert(owned("root"), HandlerFn::Root);
    handlers.insert(owned("text"), HandlerFn::Text);
    handlers.insert(owned("paragraph"), HandlerFn::Paragraph);
    handlers.insert(owned("heading"), HandlerFn::Heading);
    handlers.insert(owned("emphasis"), HandlerFn::Emphasis);
    handlers.insert(owned("strong"), HandlerFn::Strong);
    handlers.insert(owned("inlineCode"), HandlerFn::InlineCode);
    handlers.insert(owned("code"), HandlerFn::Code);
    handlers.insert(owned("link"), HandlerFn::Link);
    handlers.insert(owned("image"), HandlerFn::Image);
    handlers.insert(owned("list"), HandlerFn::List);
    handlers.insert(owned("listItem"), HandlerFn::ListItem);
    handlers.insert(owned("blockquote"), HandlerFn::Blockquote);
    handlers.insert(owned("thematicBreak"), HandlerFn::ThematicBreak);
    handlers.insert(owned("break"), HandlerFn::Break);
    handlers.insert(owned("html"), HandlerFn::Html);
    handlers.insert(owned("definition"), HandlerFn::Definition);
    handlers.insert(owned("linkReference"), HandlerFn::LinkReference);
    handlers.insert(owned("imageReference"), HandlerFn::ImageReference);
    handlers
}

/// The registrations of the default peek registry, in order.
pub open spec fn default_peek_entries() -> Seq<(Seq<char>, PeekFn)> {
    seq![
        ("emphasis"@, PeekFn::Emphasis),
        ("strong"@, PeekFn::Strong),
        ("inlineCode"@, PeekFn::InlineCode),
        ("link"@, PeekFn::Link),
        ("image"@, PeekFn::Image),
        ("html"@, PeekFn::Html),
        ("linkReference"@, PeekFn::LinkReference),
        ("imageReference"@, PeekFn::ImageReference),
    ]
}

/// Get the default peek handler registry.
pub fn default_peek_handlers() -> (r: PeekMap)
    ensures
        r@ =~= default_peek_entries(),
{
    let mut peek_handlers: PeekMap = Registry::new();
    peek_handlers.insert(owned("emphasis"), PeekFn::Emphasis);
    peek_handlers.insert(owned("strong"), PeekFn::Strong);
    peek_handlers.insert(owned("inlineCode"), PeekFn::InlineCode);
    peek_handlers.insert(owned("link"), PeekFn::Link);
    peek_handlers.insert(owned("image"), PeekFn::Image);
    peek_handlers.insert(owned("html"), PeekFn::Html);
    peek_handlers.insert(owned("linkReference"), PeekFn::LinkReference);
    peek_handlers.insert(owned("imageReference"), PeekFn::ImageReference);
    peek_handlers
}

}
