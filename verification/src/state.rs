//! The serializer's state: what is being serialized within, the registered
//! handlers, patterns and join rules, and the options.

use vstd::prelude::*;
use crate::check::{
    bullet_other_ok, valid_attention, valid_bullet, valid_bullet_ordered, valid_fence,
    valid_list_item_indent, valid_quote, valid_rule,
};
use crate::handle::{call_handler, call_peek, peek_spec};
use crate::indent::{indent_lines_spec, map_ok, IndentMap};
use crate::mdast::{lemma_children_decrease, node_children, Node};
use crate::output::{cfg_of, ctx_of, flow, opt_node, peek_full, phrasing, ser, wrote};
use crate::safe::{safe_spec, safe_with};
use crate::text::{first_char, owned};
use crate::track::Tracker;
use crate::types::{
    default_options_spec, ConstructName, EncodeSurrounding, HandlerFn, HandlerMap, Info, JoinFn,
    Options, PeekMap, Registry, SafeConfig, TrackFields, UnsafePattern,
};

verus! {

/// The type name under which a node's handler is registered.
pub open spec fn node_type_spec(n: Node) -> Seq<char> {
    match n {
        Node::Root(_) => "root"@,
        Node::Blockquote(_) => "blockquote"@,
        Node::FootnoteDefinition(_) => "footnoteDefinition"@,
        Node::List(_) => "list"@,
        Node::Toml(_) => "toml"@,
        Node::Yaml(_) => "yaml"@,
        Node::Break(_) => "break"@,
        Node::InlineCode(_) => "inlineCode"@,
        Node::InlineMath(_) => "inlineMath"@,
        Node::Delete(_) => "delete"@,
        Node::Emphasis(_) => "emphasis"@,
        Node::FootnoteReference(_) => "footnoteReference"@,
        Node::Html(_) => "html"@,
        Node::Image(_) => "image"@,
        Node::ImageReference(_) => "imageReference"@,
        Node::Link(_) => "link"@,
        Node::LinkReference(_) => "linkReference"@,
        Node::Strong(_) => "strong"@,
        Node::Text(_) => "text"@,
        Node::Code(_) => "code"@,
        Node::Math(_) => "math"@,
        Node::Heading(_) => "heading"@,
        Node::Table(_) => "table"@,
        Node::ThematicBreak(_) => "thematicBreak"@,
        Node::TableRow(_) => "tableRow"@,
        Node::TableCell(_) => "tableCell"@,
        Node::ListItem(_) => "listItem"@,
        Node::Definition(_) => "definition"@,
        Node::Paragraph(_) => "paragraph"@,
        Node::MdxJsxFlowElement(_) => "mdxJsxFlowElement"@,
        Node::MdxJsxTextElement(_) => "mdxJsxTextElement"@,
        Node::MdxFlowExpression(_) => "mdxFlowExpression"@,
        Node::MdxTextExpression(_) => "mdxTextExpression"@,
        Node::MdxjsEsm(_) => "mdxjsEsm"@,
    }
}

/// Whether two nodes are of the same kind.
pub open spec fn same_kind(a: Node, b: Node) -> bool {
    match (a, b) {
        (Node::Root(_), Node::Root(_)) => true,
        (Node::Blockquote(_), Node::Blockquote(_)) => true,
        (Node::FootnoteDefinition(_), Node::FootnoteDefinition(_)) => true,
        (Node::List(_), Node::List(_)) => true,
        (Node::Toml(_), Node::Toml(_)) => true,
        (Node::Yaml(_), Node::Yaml(_)) => true,
        (Node::Break(_), Node::Break(_)) => true,
        (Node::InlineCode(_), Node::InlineCode(_)) => true,
        (Node::InlineMath(_), Node::InlineMath(_)) => true,
        (Node::Delete(_), Node::Delete(_)) => true,
        (Node::Emphasis(_), Node::Emphasis(_)) => true,
        (Node::FootnoteReference(_), Node::FootnoteReference(_)) => true,
        (Node::Html(_), Node::Html(_)) => true,
        (Node::Image(_), Node::Image(_)) => true,
        (Node::ImageReference(_), Node::ImageReference(_)) => true,
        (Node::Link(_), Node::Link(_)) => true,
        (Node::LinkReference(_), Node::LinkReference(_)) => true,
        (Node::Strong(_), Node::Strong(_)) => true,
        (Node::Text(_), Node::Text(_)) => true,
        (Node::Code(_), Node::Code(_)) => true,
        (Node::Math(_), Node::Math(_)) => true,
        (Node::Heading(_), Node::Heading(_)) => true,
        (Node::Table(_), Node::Table(_)) => true,
        (Node::ThematicBreak(_), Node::ThematicBreak(_)) => true,
        (Node::TableRow(_), Node::TableRow(_)) => true,
        (Node::TableCell(_), Node::TableCell(_)) => true,
        (Node::ListItem(_), Node::ListItem(_)) => true,
        (Node::Definition(_), Node::Definition(_)) => true,
        (Node::Paragraph(_), Node::Paragraph(_)) => true,
        (Node::MdxJsxFlowElement(_), Node::MdxJsxFlowElement(_)) => true,
        (Node::MdxJsxTextElement(_), Node::MdxJsxTextElement(_)) => true,
        (Node::MdxFlowExpression(_), Node::MdxFlowExpression(_)) => true,
        (Node::MdxTextExpression(_), Node::MdxTextExpression(_)) => true,
        (Node::MdxjsEsm(_), Node::MdxjsEsm(_)) => true,
        _ => false,
    }
}

/// Two nodes share a type name exactly when they are of the same kind: no
/// two kinds of node are registered under one name.
pub proof fn lemma_type_names_distinct(a: Node, b: Node)
    ensures
        (node_type_spec(a) == node_type_spec(b)) == same_kind(a, b),
{
    reveal_strlit("root");
    reveal_strlit("blockquote");
    reveal_strlit("footnoteDefinition");
    reveal_strlit("list");
    reveal_strlit("toml");
    reveal_strlit("yaml");
    reveal_strlit("break");
    reveal_strlit("inlineCode");
    reveal_strlit("inlineMath");
    reveal_strlit("delete");
    reveal_strlit("emphasis");
    reveal_strlit("footnoteReference");
    reveal_strlit("html");
    reveal_strlit("image");
    reveal_strlit("imageReference");
    reveal_strlit("link");
    reveal_strlit("linkReference");
    reveal_strlit("strong");
    reveal_strlit("text");
    reveal_strlit("code");
    reveal_strlit("math");
    reveal_strlit("heading");
    reveal_strlit("table");
    reveal_strlit("thematicBreak");
    reveal_strlit("tableRow");
    reveal_strlit("tableCell");
    reveal_strlit("listItem");
    reveal_strlit("definition");
    reveal_strlit("paragraph");
    reveal_strlit("mdxJsxFlowElement");
    reveal_strlit("mdxJsxTextElement");
    reveal_strlit("mdxFlowExpression");
    reveal_strlit("mdxTextExpression");
    reveal_strlit("mdxjsEsm");
    let x = node_type_spec(a);
    let y = node_type_spec(b);
    if x == y {
        assert(x.len() == y.len() && x[0] == y[0] && x[2] == y[2]);
        if x.len() > 6 {
            assert(x[6] == y[6]);
        }
    }
}

/// Get the type name for a node.
pub fn node_type_name(node: &Node) -> (r: &'static str)
    ensures
        r@ == node_type_spec(*node),
{
    match node {
        Node::Root(_) => "root",
        Node::Blockquote(_) => "blockquote",
        Node::FootnoteDefinition(_) => "footnoteDefinition",
        Node::List(_) => "list",
        Node::Toml(_) => "toml",
        Node::Yaml(_) => "yaml",
        Node::Break(_) => "break",
        Node::InlineCode(_) => "inlineCode",
        Node::InlineMath(_) => "inlineMath",
        Node::Delete(_) => "delete",
        Node::Emphasis(_) => "emphasis",
        Node::FootnoteReference(_) => "footnoteReference",
        Node::Html(_) => "html",
        Node::Image(_) => "image",
        Node::ImageReference(_) => "imageReference",
        Node::Link(_) => "link",
        Node::LinkReference(_) => "linkReference",
        Node::Strong(_) => "strong",
        Node::Text(_) => "text",
        Node::Code(_) => "code",
        Node::Math(_) => "math",
        Node::Heading(_) => "heading",
        Node::Table(_) => "table",
        Node::ThematicBreak(_) => "thematicBreak",
        Node::TableRow(_) => "tableRow",
        Node::TableCell(_) => "tableCell",
        Node::ListItem(_) => "listItem",
        Node::Definition(_) => "definition",
        Node::Paragraph(_) => "paragraph",
        Node::MdxJsxFlowElement(_) => "mdxJsxFlowElement",
        Node::MdxJsxTextElement(_) => "mdxJsxTextElement",
        Node::MdxFlowExpression(_) => "mdxFlowExpression",
        Node::MdxTextExpression(_) => "mdxTextExpression",
        Node::MdxjsEsm(_) => "mdxjsEsm",
    }
}

/// The options that handler `h` checks when serializing `n` are valid (the
/// checks refuse to serialize with invalid markers). `in_list` tells whether a
/// list marker is already in use.
pub open spec fn handler_ok(o: Options, h: Option<HandlerFn>, n: Node, in_list: bool) -> bool {
    match h {
        Some(HandlerFn::List) => match n {
            Node::List(l) => if l.ordered {
                valid_bullet_ordered(o.bullet_ordered)
            } else {
                bullet_other_ok(o) && valid_rule(o.rule)
            },
            _ => true,
        },
        Some(HandlerFn::ListItem) => n is ListItem ==> valid_list_item_indent(o.list_item_indent@)
            && (in_list || valid_bullet(o.bullet)),
        Some(HandlerFn::ListItemWithTask) => n is ListItem ==> valid_list_item_indent(
            o.list_item_indent@,
        ) && (in_list || valid_bullet(o.bullet)),
        Some(HandlerFn::Emphasis) => valid_attention(o.emphasis),
        Some(HandlerFn::Strong) => valid_attention(o.strong),
        Some(HandlerFn::Code) => n is Code ==> valid_fence(o.fence),
        Some(HandlerFn::ThematicBreak) => crate::handle::thematic_break::thematic_break_ok(o),
        Some(HandlerFn::Link) => n is Link ==> valid_quote(o.quote),
        Some(HandlerFn::Image) => n is Image ==> valid_quote(o.quote),
        Some(HandlerFn::Definition) => n is Definition ==> valid_quote(o.quote),
        _ => true,
    }
}

/// Whether a list marker is in use for the children of `n` handled by `h`.
pub open spec fn child_flag(h: Option<HandlerFn>, n: Node, in_list: bool) -> bool {
    in_list || (n is List && h == Some(HandlerFn::List))
}

/// Every node of the tree can be serialized with the registered handlers and
/// the options: each check that its handler makes passes.
pub open spec fn tree_ok(
    hs: spec_fn(Seq<char>) -> Option<HandlerFn>,
    o: Options,
    n: Node,
    in_list: bool,
) -> bool
    decreases n, (node_children(n).len() + 1) as int,
{
    let h = hs(node_type_spec(n));
    handler_ok(o, h, n, in_list) && children_ok(
        hs,
        o,
        n,
        child_flag(h, n, in_list),
        node_children(n).len() as int,
    )
}

/// The first `k` children of `n` can be serialized.
pub open spec fn children_ok(
    hs: spec_fn(Seq<char>) -> Option<HandlerFn>,
    o: Options,
    n: Node,
    in_list: bool,
    k: int,
) -> bool
    decreases n, k,
{
    if k <= 0 || k > node_children(n).len() {
        true
    } else {
        proof {
            lemma_children_decrease(n);
        }
        children_ok(hs, o, n, in_list, k - 1) && tree_ok(hs, o, node_children(n)[k - 1], in_list)
    }
}

/// Each child of a node whose children can be serialized can be serialized.
pub proof fn lemma_children_ok(
    hs: spec_fn(Seq<char>) -> Option<HandlerFn>,
    o: Options,
    n: Node,
    in_list: bool,
    k: int,
    i: int,
)
    requires
        children_ok(hs, o, n, in_list, k),
        0 <= i < k <= node_children(n).len(),
    ensures
        tree_ok(hs, o, node_children(n)[i], in_list),
    decreases k,
{
    if i < k - 1 {
        lemma_children_ok(hs, o, n, in_list, k - 1, i);
    }
}

/// The list marker in use, if any, is one character.
pub open spec fn marker_ok(s: State) -> bool {
    s.bullet_current matches Some(b) ==> b@.len() == 1
}

/// Serializing `n` with handler `h` passes its checks, and so do its children.
pub open spec fn serializable(s: State, n: Node, h: HandlerFn) -> bool {
    let in_list = s.bullet_current is Some;
    marker_ok(s) && handler_ok(s.options, Some(h), n, in_list) && children_ok(
        s.handlers.lookup_fn(),
        s.options,
        n,
        child_flag(Some(h), n, in_list),
        node_children(n).len() as int,
    )
}

/// `n` can be serialized in state `s`.
pub open spec fn ready(s: State, n: Node) -> bool {
    marker_ok(s) && tree_ok(s.handlers.lookup_fn(), s.options, n, s.bullet_current is Some)
}

/// The parts of the state that serializing a node leaves as they were: the
/// construct and index stacks, what is registered, the options and the list
/// marker in use.
pub open spec fn preserved(a: State, b: State) -> bool {
    &&& b.stack@ == a.stack@
    &&& b.index_stack@ == a.index_stack@
    &&& b.handlers == a.handlers
    &&& b.peek_handlers == a.peek_handlers
    &&& b.unsafe_patterns@ == a.unsafe_patterns@
    &&& b.join@ == a.join@
    &&& b.options == a.options
    &&& b.bullet_current == a.bullet_current
}

/// What one handler keeps and the next keeps, both keep together.
pub proof fn lemma_preserved_trans(a: State, b: State, c: State)
    requires
        preserved(a, b),
        preserved(b, c),
    ensures
        preserved(a, c),
{
}

/// The association identifier of a reference node: its label when it has a
/// non-empty one, else its identifier.
pub open spec fn association_spec(n: Node) -> Seq<char> {
    match n {
        Node::Definition(d) => match d.label {
            Some(l) => if l@.len() > 0 { l@ } else { d.identifier@ },
            None => d.identifier@,
        },
        Node::LinkReference(d) => match d.label {
            Some(l) => if l@.len() > 0 { l@ } else { d.identifier@ },
            None => d.identifier@,
        },
        Node::ImageReference(d) => match d.label {
            Some(l) => if l@.len() > 0 { l@ } else { d.identifier@ },
            None => d.identifier@,
        },
        Node::FootnoteReference(d) => match d.label {
            Some(l) => if l@.len() > 0 { l@ } else { d.identifier@ },
            None => d.identifier@,
        },
        _ => Seq::empty(),
    }
}

fn label_or_identifier(label: &Option<String>, identifier: &String) -> (r: String)
    ensures
        r@ == match label {
            Some(l) => if l@.len() > 0 { l@ } else { identifier@ },
            None => identifier@,
        },
{
    match label {
        Some(l) => if l.as_str().unicode_len() > 0 {
            owned(l.as_str())
        } else {
            owned(identifier.as_str())
        },
        None => owned(identifier.as_str()),
    }
}

/// Core state passed around during serialization.
pub struct State {
    /// Stack of constructs we're currently in.
    pub stack: Vec<ConstructName>,
    /// Positions of child nodes in their parents.
    pub index_stack: Vec<usize>,
    /// Applied handlers, keyed by node type name.
    pub handlers: HandlerMap,
    /// Applied peek functions, keyed by node type name.
    pub peek_handlers: PeekMap,
    /// Applied unsafe patterns.
    pub unsafe_patterns: Vec<UnsafePattern>,
    /// Applied join handlers.
    pub join: Vec<JoinFn>,
    /// Applied user configuration.
    pub options: Options,
    /// List marker currently in use.
    pub bullet_current: Option<String>,
    /// List marker previously in use.
    pub bullet_last_used: Option<String>,
    /// Info on whether to encode the surrounding of attention (emphasis/strong).
    pub attention_encode_surrounding_info: Option<EncodeSurrounding>,
}

impl State {
    /// Create a new state with default options and nothing registered.
    pub fn new() -> (s: Self)
        ensures
            s.stack@.len() == 0,
            s.index_stack@.len() == 0,
            s.handlers@.len() == 0,
            s.peek_handlers@.len() == 0,
            s.unsafe_patterns@.len() == 0,
            s.join@.len() == 0,
            default_options_spec(s.options),
            s.bullet_current is None,
            s.bullet_last_used is None,
            s.attention_encode_surrounding_info is None,
    {
        State {
            stack: Vec::new(),
            index_stack: Vec::new(),
            handlers: Registry::new(),
            peek_handlers: Registry::new(),
            unsafe_patterns: Vec::new(),
            join: Vec::new(),
            options: Options::default(),
            bullet_current: None,
            bullet_last_used: None,
            attention_encode_surrounding_info: None,
        }
    }

    /// Enter a construct: push its name onto the stack.
    pub fn enter(&mut self, name: ConstructName)
        ensures
            final(self).stack@ == old(self).stack@.push(name),
            final(self).index_stack@ == old(self).index_stack@,
            final(self).handlers == old(self).handlers,
            final(self).peek_handlers == old(self).peek_handlers,
            final(self).unsafe_patterns@ == old(self).unsafe_patterns@,
            final(self).join@ == old(self).join@,
            final(self).options == old(self).options,
            final(self).bullet_current == old(self).bullet_current,
            final(self).bullet_last_used == old(self).bullet_last_used,
            final(self).attention_encode_surrounding_info == old(self).attention_encode_surrounding_info,
    {
        self.stack.push(name);
    }

    /// Exit the innermost construct: pop the stack.
    pub fn exit(&mut self)
        ensures
            final(self).stack@ == if old(self).stack@.len() > 0 {
                old(self).stack@.drop_last()
            } else {
                old(self).stack@
            },
            final(self).index_stack@ == old(self).index_stack@,
            final(self).handlers == old(self).handlers,
            final(self).peek_handlers == old(self).peek_handlers,
            final(self).unsafe_patterns@ == old(self).unsafe_patterns@,
            final(self).join@ == old(self).join@,
            final(self).options == old(self).options,
            final(self).bullet_current == old(self).bullet_current,
            final(self).bullet_last_used == old(self).bullet_last_used,
            final(self).attention_encode_surrounding_info == old(self).attention_encode_surrounding_info,
    {
        let _ = self.stack.pop();
    }

    /// Call the configured handler for the given node; empty when no handler is
    /// registered for its type.
    pub fn handle(&mut self, node: &Node, parent: Option<&Node>, info: &Info) -> (r: String)
        requires
            ready(*old(self), *node),
        ensures
            preserved(*old(self), *final(self)),
            wrote(*final(self), r@, ser(cfg_of(*old(self)), ctx_of(*old(self)), *node, opt_node(parent), info.before@, info.after@)),
        decreases node, 10int,
    {
        let kind_name = node_type_name(node);
        match self.handlers.get(kind_name) {
            Some(h) => call_handler(h, node, parent, self, info),
            None => String::new(),
        }
    }

    /// Peek at the first character a handler would produce for the given node:
    /// from its peek function when one is registered, else the first character
    /// of what its handler produces.
    pub fn peek(&mut self, node: &Node, parent: Option<&Node>, info: &Info) -> (r: String)
        requires
            ready(*old(self), *node),
        ensures
            preserved(*old(self), *final(self)),
            r@.len() <= 1,
            wrote(
                *final(self),
                r@,
                peek_full(cfg_of(*old(self)), ctx_of(*old(self)), *node, opt_node(parent), info.before@, info.after@),
            ),
        decreases node, 10int,
    {
        let kind_name = node_type_name(node);
        match self.peek_handlers.get(kind_name) {
            Some(p) => call_peek(p, node, parent, self, info),
            None => match self.handlers.get(kind_name) {
                Some(h) => {
                    let result = call_handler(h, node, parent, self, info);
                    match first_char(result.as_str()) {
                        Some(c) => crate::text::char_string(c),
                        None => String::new(),
                    }
                },
                None => String::new(),
            },
        }
    }

    /// Make a string safe for embedding in markdown constructs.
    pub fn safe(&self, input: Option<&str>, config: &SafeConfig) -> (r: String)
        ensures
            r@ == safe_spec(
                self.unsafe_patterns@,
                self.stack@,
                config.before@,
                match input {
                    Some(s) => s@,
                    None => Seq::empty(),
                },
                config.after@,
                config.encode@,
            ),
    {
        safe_with(self.unsafe_patterns.as_slice(), self.stack.as_slice(), input, config)
    }

    /// Serialize the children of a parent that contains phrasing children.
    pub fn container_phrasing(&mut self, parent: &Node, info: &Info) -> (r: String)
        requires
            marker_ok(*old(self)),
            crate::container_phrasing::phrasing_children(*parent).len() == 0 || children_ok(
                old(self).handlers.lookup_fn(),
                old(self).options,
                *parent,
                old(self).bullet_current is Some,
                node_children(*parent).len() as int,
            ),
        ensures
            preserved(*old(self), *final(self)),
            wrote(
                *final(self),
                r@,
                phrasing(cfg_of(*old(self)), ctx_of(*old(self)), *parent, info.before@, info.after@),
            ),
        decreases parent, 2int,
    {
        crate::container_phrasing::container_phrasing(parent, self, info)
    }

    /// Serialize the children of a parent that contains flow children.
    pub fn container_flow(&mut self, parent: &Node, info: &TrackFields) -> (r: String)
        requires
            marker_ok(*old(self)),
            children_ok(
                old(self).handlers.lookup_fn(),
                old(self).options,
                *parent,
                old(self).bullet_current is Some,
                node_children(*parent).len() as int,
            ),
        ensures
            preserved(*old(self), *final(self)),
            wrote(*final(self), r@, flow(cfg_of(*old(self)), ctx_of(*old(self)), *parent)),
        decreases parent, 2int,
    {
        crate::container_flow::container_flow(parent, self, info)
    }

    /// Create a new position tracker from info.
    pub fn create_tracker(&self, info: &Info) -> (t: Tracker)
        ensures
            t.line == info.line,
            t.column == info.column,
            t.line_shift == info.line_shift,
    {
        Tracker::new(&TrackFields { line: info.line, column: info.column, line_shift: info.line_shift })
    }

    /// Indent lines of a serialized value using a map.
    pub fn indent_lines(&self, value: &str, map: &IndentMap) -> (r: String)
        requires
            map_ok(map@),
        ensures
            r@ == indent_lines_spec(value@, map@),
    {
        crate::indent::indent_lines(value, map)
    }

    /// Get the association identifier of a node (definition or reference):
    /// its non-empty label, else its identifier; empty for other nodes.
    pub fn association_id(&self, node: &Node) -> (r: String)
        ensures
            r@ == association_spec(*node),
    {
        match node {
            Node::Definition(d) => label_or_identifier(&d.label, &d.identifier),
            Node::LinkReference(d) => label_or_identifier(&d.label, &d.identifier),
            Node::ImageReference(d) => label_or_identifier(&d.label, &d.identifier),
            Node::FootnoteReference(d) => label_or_identifier(&d.label, &d.identifier),
            _ => String::new(),
        }
    }
}

impl Default for State {
    fn default() -> (s: Self)
        ensures
            s.stack@.len() == 0,
            s.index_stack@.len() == 0,
            s.handlers@.len() == 0,
            s.peek_handlers@.len() == 0,
            s.unsafe_patterns@.len() == 0,
            s.join@.len() == 0,
            default_options_spec(s.options),
            s.bullet_current is None,
            s.bullet_last_used is None,
            s.attention_encode_surrounding_info is None,
    {
        Self::new()
    }
}

}
