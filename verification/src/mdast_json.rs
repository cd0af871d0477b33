//! The markdown syntax tree in its JSON form: each node an object whose
//! `type` member names its kind (`"paragraph"`, `"listItem"`, ...), whose
//! `children` member holds its children, and whose other members hold its
//! fields by their mdast names (`url`, `depth`, `referenceType`, ...). An
//! optional field is absent or `null` when it has no value; members the tree
//! does not keep (such as `position`) are passed over.

use vstd::prelude::*;
use crate::blocknote::numbers::{parse_uint, parse_uint_spec};
use crate::json::{json_view, json_views, lemma_json_views, lemma_member_views, member_views, Json, JsonValue, Member};
use crate::mdast::{self as md, AlignKind, Node, ReferenceKind};
use crate::state::node_type_spec;
use crate::text::str_eq;

verus! {

/// The members of a JSON object, as values.
pub type Members = Seq<(Seq<char>, JsonValue)>;

/// The value of the member with a given key (the last, if the key repeats).
pub open spec fn field(ms: Members, key: Seq<char>) -> Option<JsonValue>
    decreases ms.len(),
{
    if ms.len() == 0 {
        None
    } else if ms.last().0 == key {
        Some(ms.last().1)
    } else {
        field(ms.drop_last(), key)
    }
}

/// A string member.
pub open spec fn str_field(ms: Members, key: Seq<char>) -> Option<Seq<char>> {
    match field(ms, key) {
        Some(JsonValue::Str(t)) => Some(t),
        _ => None,
    }
}

/// An optional string member: absent or `null` gives `Some(None)`.
pub open spec fn opt_str_field(ms: Members, key: Seq<char>) -> Option<Option<Seq<char>>> {
    match field(ms, key) {
        None => Some(None),
        Some(JsonValue::Null) => Some(None),
        Some(JsonValue::Str(t)) => Some(Some(t)),
        _ => None,
    }
}

/// A boolean member.
pub open spec fn bool_field(ms: Members, key: Seq<char>) -> Option<bool> {
    match field(ms, key) {
        Some(JsonValue::Bool(b)) => Some(b),
        _ => None,
    }
}

/// An optional boolean member: absent or `null` gives `Some(None)`.
pub open spec fn opt_bool_field(ms: Members, key: Seq<char>) -> Option<Option<bool>> {
    match field(ms, key) {
        None => Some(None),
        Some(JsonValue::Null) => Some(None),
        Some(JsonValue::Bool(b)) => Some(Some(b)),
        _ => None,
    }
}

/// An unsigned integer member no greater than `max`.
pub open spec fn uint_field(ms: Members, key: Seq<char>, max: nat) -> Option<nat> {
    match field(ms, key) {
        Some(JsonValue::Number(t)) => parse_uint_spec(t, max),
        _ => None,
    }
}

/// An optional unsigned integer member no greater than `max`: absent or
/// `null` gives `Some(None)`.
pub open spec fn opt_uint_field(ms: Members, key: Seq<char>, max: nat) -> Option<Option<nat>> {
    match field(ms, key) {
        None => Some(None),
        Some(JsonValue::Null) => Some(None),
        Some(JsonValue::Number(t)) => match parse_uint_spec(t, max) {
            Some(v) => Some(Some(v)),
            None => None,
        },
        _ => None,
    }
}

/// The kind of a reference, by its name.
pub open spec fn reference_kind_of(t: Seq<char>) -> Option<ReferenceKind> {
    if t == "shortcut"@ {
        Some(ReferenceKind::Shortcut)
    } else if t == "collapsed"@ {
        Some(ReferenceKind::Collapsed)
    } else if t == "full"@ {
        Some(ReferenceKind::Full)
    } else {
        None
    }
}

/// The `referenceType` member.
pub open spec fn reference_field(ms: Members) -> Option<ReferenceKind> {
    match str_field(ms, "referenceType"@) {
        Some(t) => reference_kind_of(t),
        None => None,
    }
}

/// The alignment of a column: `"left"`, `"right"`, `"center"`, or `null`.
pub open spec fn align_of(v: JsonValue) -> Option<AlignKind> {
    match v {
        JsonValue::Null => Some(AlignKind::Unset),
        JsonValue::Str(t) => if t == "left"@ {
            Some(AlignKind::Left)
        } else if t == "right"@ {
            Some(AlignKind::Right)
        } else if t == "center"@ {
            Some(AlignKind::Center)
        } else {
            None
        },
        _ => None,
    }
}

/// The alignments of a sequence of columns.
pub open spec fn aligns_of(vs: Seq<JsonValue>) -> Option<Seq<AlignKind>>
    decreases vs.len(),
{
    if vs.len() == 0 {
        Some(Seq::empty())
    } else {
        match (aligns_of(vs.drop_last()), align_of(vs.last())) {
            (Some(a), Some(b)) => Some(a.push(b)),
            _ => None,
        }
    }
}

/// The `align` member: an array of column alignments.
pub open spec fn align_field(ms: Members) -> Option<Seq<AlignKind>> {
    match field(ms, "align"@) {
        Some(JsonValue::Array(vs)) => aligns_of(vs),
        _ => None,
    }
}

/// An optional string as text.
pub open spec fn opt_view(o: Option<String>) -> Option<Seq<char>> {
    match o {
        Some(s) => Some(s@),
        None => None,
    }
}

/// An optional number as a natural number.
pub open spec fn opt_nat(o: Option<u32>) -> Option<nat> {
    match o {
        Some(v) => Some(v as nat),
        None => None,
    }
}

/// Whether a JSON value is the JSON form of a node.
pub open spec fn json_node_ok(v: JsonValue, n: Node) -> bool
    decreases n, 2int,
{
    match v {
        JsonValue::Object(ms) => node_ok(ms, n),
        _ => false,
    }
}

/// Whether the members of a JSON object are the JSON form of a node: the
/// `type` member names the node's kind, and the node's fields are the
/// members of the same names.
pub open spec fn node_ok(ms: Members, n: Node) -> bool
    decreases n, 1int,
{
    match str_field(ms, "type"@) {
        Some(t) => if t == "root"@ {
            &&& n matches Node::Root(x)
            &&& kids_ok(ms, x.children@)
        } else if t == "blockquote"@ {
            &&& n matches Node::Blockquote(x)
            &&& kids_ok(ms, x.children@)
        } else if t == "footnoteDefinition"@ {
            &&& n matches Node::FootnoteDefinition(x)
            &&& kids_ok(ms, x.children@)
            &&& str_field(ms, "identifier"@) == Some(x.identifier@)
            &&& opt_str_field(ms, "label"@) == Some(opt_view(x.label))
        } else if t == "mdxJsxFlowElement"@ {
            &&& n matches Node::MdxJsxFlowElement(x)
            &&& kids_ok(ms, x.children@)
            &&& opt_str_field(ms, "name"@) == Some(opt_view(x.name))
        } else if t == "list"@ {
            &&& n matches Node::List(x)
            &&& kids_ok(ms, x.children@)
            &&& bool_field(ms, "ordered"@) == Some(x.ordered)
            &&& opt_uint_field(ms, "start"@, 0xFFFF_FFFF) == Some(opt_nat(x.start))
            &&& bool_field(ms, "spread"@) == Some(x.spread)
        } else if t == "mdxjsEsm"@ {
            &&& n matches Node::MdxjsEsm(x)
            &&& str_field(ms, "value"@) == Some(x.value@)
        } else if t == "toml"@ {
            &&& n matches Node::Toml(x)
            &&& str_field(ms, "value"@) == Some(x.value@)
        } else if t == "yaml"@ {
            &&& n matches Node::Yaml(x)
            &&& str_field(ms, "value"@) == Some(x.value@)
        } else if t == "break"@ {
            n is Break
        } else if t == "inlineCode"@ {
            &&& n matches Node::InlineCode(x)
            &&& str_field(ms, "value"@) == Some(x.value@)
        } else if t == "inlineMath"@ {
            &&& n matches Node::InlineMath(x)
            &&& str_field(ms, "value"@) == Some(x.value@)
        } else if t == "delete"@ {
            &&& n matches Node::Delete(x)
            &&& kids_ok(ms, x.children@)
        } else if t == "emphasis"@ {
            &&& n matches Node::Emphasis(x)
            &&& kids_ok(ms, x.children@)
        } else if t == "mdxTextExpression"@ {
            &&& n matches Node::MdxTextExpression(x)
            &&& str_field(ms, "value"@) == Some(x.value@)
        } else if t == "footnoteReference"@ {
            &&& n matches Node::FootnoteReference(x)
            &&& str_field(ms, "identifier"@) == Some(x.identifier@)
            &&& opt_str_field(ms, "label"@) == Some(opt_view(x.label))
        } else if t == "html"@ {
            &&& n matches Node::Html(x)
            &&& str_field(ms, "value"@) == Some(x.value@)
        } else if t == "image"@ {
            &&& n matches Node::Image(x)
            &&& str_field(ms, "alt"@) == Some(x.alt@)
            &&& str_field(ms, "url"@) == Some(x.url@)
            &&& opt_str_field(ms, "title"@) == Some(opt_view(x.title))
        } else if t == "imageReference"@ {
            &&& n matches Node::ImageReference(x)
            &&& str_field(ms, "alt"@) == Some(x.alt@)
            &&& reference_field(ms) == Some(x.reference_kind)
            &&& str_field(ms, "identifier"@) == Some(x.identifier@)
            &&& opt_str_field(ms, "label"@) == Some(opt_view(x.label))
        } else if t == "mdxJsxTextElement"@ {
            &&& n matches Node::MdxJsxTextElement(x)
            &&& kids_ok(ms, x.children@)
            &&& opt_str_field(ms, "name"@) == Some(opt_view(x.name))
        } else if t == "link"@ {
            &&& n matches Node::Link(x)
            &&& kids_ok(ms, x.children@)
            &&& str_field(ms, "url"@) == Some(x.url@)
            &&& opt_str_field(ms, "title"@) == Some(opt_view(x.title))
        } else if t == "linkReference"@ {
            &&& n matches Node::LinkReference(x)
            &&& kids_ok(ms, x.children@)
            &&& reference_field(ms) == Some(x.reference_kind)
            &&& str_field(ms, "identifier"@) == Some(x.identifier@)
            &&& opt_str_field(ms, "label"@) == Some(opt_view(x.label))
        } else if t == "strong"@ {
            &&& n matches Node::Strong(x)
            &&& kids_ok(ms, x.children@)
        } else if t == "text"@ {
            &&& n matches Node::Text(x)
            &&& str_field(ms, "value"@) == Some(x.value@)
        } else if t == "code"@ {
            &&& n matches Node::Code(x)
            &&& str_field(ms, "value"@) == Some(x.value@)
            &&& opt_str_field(ms, "lang"@) == Some(opt_view(x.lang))
            &&& opt_str_field(ms, "meta"@) == Some(opt_view(x.meta))
        } else if t == "math"@ {
            &&& n matches Node::Math(x)
            &&& str_field(ms, "value"@) == Some(x.value@)
            &&& opt_str_field(ms, "meta"@) == Some(opt_view(x.meta))
        } else if t == "mdxFlowExpression"@ {
            &&& n matches Node::MdxFlowExpression(x)
            &&& str_field(ms, "value"@) == Some(x.value@)
        } else if t == "heading"@ {
            &&& n matches Node::Heading(x)
            &&& kids_ok(ms, x.children@)
            &&& uint_field(ms, "depth"@, 255) == Some(x.depth as nat)
        } else if t == "table"@ {
            &&& n matches Node::Table(x)
            &&& kids_ok(ms, x.children@)
            &&& align_field(ms) == Some(x.align@)
        } else if t == "thematicBreak"@ {
            n is ThematicBreak
        } else if t == "tableRow"@ {
            &&& n matches Node::TableRow(x)
            &&& kids_ok(ms, x.children@)
        } else if t == "tableCell"@ {
            &&& n matches Node::TableCell(x)
            &&& kids_ok(ms, x.children@)
        } else if t == "listItem"@ {
            &&& n matches Node::ListItem(x)
            &&& kids_ok(ms, x.children@)
            &&& opt_bool_field(ms, "checked"@) == Some(x.checked)
            &&& bool_field(ms, "spread"@) == Some(x.spread)
        } else if t == "definition"@ {
            &&& n matches Node::Definition(x)
            &&& str_field(ms, "url"@) == Some(x.url@)
            &&& opt_str_field(ms, "title"@) == Some(opt_view(x.title))
            &&& str_field(ms, "identifier"@) == Some(x.identifier@)
            &&& opt_str_field(ms, "label"@) == Some(opt_view(x.label))
        } else if t == "paragraph"@ {
            &&& n matches Node::Paragraph(x)
            &&& kids_ok(ms, x.children@)
        } else {
            false
        },
        None => false,
    }
}

/// Whether the `children` member is an array that is the JSON form of the
/// given children.
pub open spec fn kids_ok(ms: Members, cs: Seq<Node>) -> bool
    decreases cs, 1int,
{
    match field(ms, "children"@) {
        Some(JsonValue::Array(vs)) => nodes_ok(vs, cs),
        _ => false,
    }
}

/// Whether a sequence of JSON values is, item by item, the JSON form of a
/// sequence of nodes.
pub open spec fn nodes_ok(vs: Seq<JsonValue>, cs: Seq<Node>) -> bool
    decreases cs, 0int,
{
    if vs.len() != cs.len() {
        false
    } else if cs.len() == 0 {
        true
    } else {
        nodes_ok(vs.drop_last(), cs.drop_last()) && json_node_ok(vs.last(), cs.last())
    }
}

/// Item by item: each value is the JSON form of the node at its index.
pub proof fn lemma_nodes_ok_at(vs: Seq<JsonValue>, cs: Seq<Node>)
    requires
        nodes_ok(vs, cs),
    ensures
        vs.len() == cs.len(),
        forall|k: int| 0 <= k < cs.len() ==> json_node_ok(#[trigger] vs[k], cs[k]),
    decreases cs.len(),
{
    if cs.len() > 0 {
        lemma_nodes_ok_at(vs.drop_last(), cs.drop_last());
        assert forall|k: int| 0 <= k < cs.len() implies json_node_ok(#[trigger] vs[k], cs[k]) by {
            if k < cs.len() - 1 {
                assert(vs.drop_last()[k] == vs[k]);
                assert(cs.drop_last()[k] == cs[k]);
            }
        }
    }
}

// ── Reading members ─────────────────────────────────────────

/// The index of the member with a given key (the last, if the key repeats).
fn find_field(ms: &Vec<Member>, key: &str) -> (r: Option<usize>)
    ensures
        match r {
            Some(k) => k < ms.len() && field(member_views(ms@), key@) == Some(json_view(ms@[k as int].value)),
            None => field(member_views(ms@), key@) is None,
        },
{
    let ghost mv = member_views(ms@);
    proof {
        lemma_member_views(ms@);
        assert(mv.take(ms.len() as int) =~= mv);
    }
    let mut k = ms.len();
    while k > 0
        invariant
            k <= ms.len(),
            mv == member_views(ms@),
            mv.len() == ms.len(),
            forall|j: int| 0 <= j < ms.len() ==> #[trigger] mv[j] == (ms@[j].key@, json_view(ms@[j].value)),
            field(mv, key@) == field(mv.take(k as int), key@),
        decreases k,
    {
        let ghost pre = mv.take(k as int);
        proof {
            assert(pre.last() == mv[k - 1]);
            assert(pre.drop_last() =~= mv.take(k - 1));
        }
        if str_eq(ms[k - 1].key.as_str(), key) {
            return Some(k - 1);
        }
        k = k - 1;
    }
    proof {
        assert(mv.take(0) =~= Seq::<(Seq<char>, JsonValue)>::empty());
    }
    None
}

/// A string member.
fn read_str_field(ms: &Vec<Member>, key: &str) -> (r: Option<String>)
    ensures
        opt_view(r) == str_field(member_views(ms@), key@),
{
    match find_field(ms, key) {
        Some(k) => match &ms[k].value {
            Json::Str(t) => Some(t.clone()),
            _ => None,
        },
        None => None,
    }
}

/// An optional string member.
fn read_opt_str_field(ms: &Vec<Member>, key: &str) -> (r: Option<Option<String>>)
    ensures
        match r {
            Some(o) => opt_str_field(member_views(ms@), key@) == Some(opt_view(o)),
            None => opt_str_field(member_views(ms@), key@) is None,
        },
{
    match find_field(ms, key) {
        Some(k) => match &ms[k].value {
            Json::Null => Some(None),
            Json::Str(t) => Some(Some(t.clone())),
            _ => None,
        },
        None => Some(None),
    }
}

/// A boolean member.
fn read_bool_field(ms: &Vec<Member>, key: &str) -> (r: Option<bool>)
    ensures
        r == bool_field(member_views(ms@), key@),
{
    match find_field(ms, key) {
        Some(k) => match &ms[k].value {
            Json::Bool(b) => Some(*b),
            _ => None,
        },
        None => None,
    }
}

/// An optional boolean member.
fn read_opt_bool_field(ms: &Vec<Member>, key: &str) -> (r: Option<Option<bool>>)
    ensures
        r == opt_bool_field(member_views(ms@), key@),
{
    match find_field(ms, key) {
        Some(k) => match &ms[k].value {
            Json::Null => Some(None),
            Json::Bool(b) => Some(Some(*b)),
            _ => None,
        },
        None => Some(None),
    }
}

/// An integer member from 0 to 255.
fn read_u8_field(ms: &Vec<Member>, key: &str) -> (r: Option<u8>)
    ensures
        match r {
            Some(v) => uint_field(member_views(ms@), key@, 255) == Some(v as nat),
            None => uint_field(member_views(ms@), key@, 255) is None,
        },
{
    match find_field(ms, key) {
        Some(k) => match &ms[k].value {
            Json::Number(t) => match parse_uint(t.as_str(), 255) {
                Some(v) => Some(v as u8),
                None => None,
            },
            _ => None,
        },
        None => None,
    }
}

/// An optional integer member that fits in 32 bits.
fn read_opt_u32_field(ms: &Vec<Member>, key: &str) -> (r: Option<Option<u32>>)
    ensures
        match r {
            Some(o) => opt_uint_field(member_views(ms@), key@, 0xFFFF_FFFF) == Some(opt_nat(o)),
            None => opt_uint_field(member_views(ms@), key@, 0xFFFF_FFFF) is None,
        },
{
    match find_field(ms, key) {
        Some(k) => match &ms[k].value {
            Json::Null => Some(None),
            Json::Number(t) => match parse_uint(t.as_str(), 0xFFFF_FFFF) {
                Some(v) => Some(Some(v as u32)),
                None => None,
            },
            _ => None,
        },
        None => Some(None),
    }
}

/// The `referenceType` member.
fn read_reference_field(ms: &Vec<Member>) -> (r: Option<ReferenceKind>)
    ensures
        r == reference_field(member_views(ms@)),
{
    match read_str_field(ms, "referenceType") {
        Some(t) => if str_eq(t.as_str(), "shortcut") {
            Some(ReferenceKind::Shortcut)
        } else if str_eq(t.as_str(), "collapsed") {
            Some(ReferenceKind::Collapsed)
        } else if str_eq(t.as_str(), "full") {
            Some(ReferenceKind::Full)
        } else {
            None
        },
        None => None,
    }
}

/// The `align` member.
fn read_align_field(ms: &Vec<Member>) -> (r: Option<Vec<AlignKind>>)
    ensures
        match r {
            Some(a) => align_field(member_views(ms@)) == Some(a@),
            None => align_field(member_views(ms@)) is None,
        },
{
    let k = match find_field(ms, "align") {
        Some(k) => k,
        None => {
            return None;
        },
    };
    let items = match &ms[k].value {
        Json::Array(items) => items,
        _ => {
            return None;
        },
    };
    let ghost vs = json_views(items@);
    proof {
        lemma_json_views(items@);
        assert(vs.take(0) =~= Seq::<JsonValue>::empty());
        assert(json_view(ms@[k as int].value) == JsonValue::Array(vs));
    }
    let mut out: Vec<AlignKind> = Vec::new();
    let mut i: usize = 0;
    while i < items.len()
        invariant
            i <= items.len(),
            vs == json_views(items@),
            vs.len() == items.len(),
            forall|j: int| 0 <= j < items.len() ==> #[trigger] vs[j] == json_view(items@[j]),
            aligns_of(vs.take(i as int)) == Some(out@),
            field(member_views(ms@), "align"@) == Some(JsonValue::Array(vs)),
        decreases items.len() - i,
    {
        let a = match &items[i] {
            Json::Null => AlignKind::Unset,
            Json::Str(t) => if str_eq(t.as_str(), "left") {
                AlignKind::Left
            } else if str_eq(t.as_str(), "right") {
                AlignKind::Right
            } else if str_eq(t.as_str(), "center") {
                AlignKind::Center
            } else {
                proof {
                    assert(vs.take(i + 1).drop_last() =~= vs.take(i as int));
                    assert(vs.take(i + 1).last() == vs[i as int]);
                    assert(vs[i as int] == JsonValue::Str(t@));
                    lemma_aligns_none(vs, i as int + 1);
                }
                return None;
            },
            _ => {
                proof {
                    assert(vs.take(i + 1).drop_last() =~= vs.take(i as int));
                    assert(vs.take(i + 1).last() == vs[i as int]);
                    lemma_aligns_none(vs, i as int + 1);
                }
                return None;
            },
        };
        proof {
            assert(vs.take(i + 1).drop_last() =~= vs.take(i as int));
            assert(vs.take(i + 1).last() == vs[i as int]);
        }
        out.push(a);
        i = i + 1;
    }
    proof {
        assert(vs.take(items.len() as int) =~= vs);
    }
    Some(out)
}

/// Once a prefix has no alignments, the whole has none.
proof fn lemma_aligns_none(vs: Seq<JsonValue>, k: int)
    requires
        0 <= k <= vs.len(),
        aligns_of(vs.take(k)) is None,
    ensures
        aligns_of(vs) is None,
    decreases vs.len() - k,
{
    if k < vs.len() {
        assert(vs.take(k + 1).drop_last() =~= vs.take(k));
        lemma_aligns_none(vs, k + 1);
    } else {
        assert(vs.take(k) =~= vs);
    }
}

// ── Reading nodes ───────────────────────────────────────────

/// Read the node a JSON value is the JSON form of.
pub fn decode_node(v: &Json) -> (r: Option<Node>)
    ensures
        match r {
            Some(n) => json_node_ok(json_view(*v), n),
            None => forall|n: Node| !json_node_ok(json_view(*v), n),
        },
    decreases *v, 0int,
{
    match v {
        Json::Object(ms) => {
            proof {
                assert(decreases_to!(*v => *ms));
                assert(decreases_to!(*ms => ms@));
                assert(json_view(*v) == JsonValue::Object(member_views(ms@)));
            }
            let r = decode_object(ms);
            proof {
                assert(forall|n: Node| json_node_ok(JsonValue::Object(member_views(ms@)), n) == node_ok(member_views(ms@), n));
                match &r {
                    Some(n) => {
                        assert(node_ok(member_views(ms@), *n));
                        assert(json_node_ok(json_view(*v), *n));
                    },
                    None => {
                        assert forall|n: Node| !json_node_ok(json_view(*v), n) by {
                            assert(!node_ok(member_views(ms@), n));
                        }
                    },
                }
            }
            r
        },
        _ => {
            proof {
                assert(!(json_view(*v) is Object));
            }
            None
        },
    }
}

/// Read the children of a node object.
fn decode_kids(ms: &Vec<Member>) -> (r: Option<Vec<Node>>)
    ensures
        match r {
            Some(c) => kids_ok(member_views(ms@), c@),
            None => forall|cs: Seq<Node>| !kids_ok(member_views(ms@), cs),
        },
    decreases ms@, 1int,
{
    let k = match find_field(ms, "children") {
        Some(k) => k,
        None => {
            return None;
        },
    };
    match &ms[k].value {
        Json::Array(items) => {
            proof {
                assert(decreases_to!(ms@ => ms@[k as int]));
                assert(decreases_to!(ms@[k as int] => ms@[k as int].value));
                assert(decreases_to!(ms@[k as int].value => *items));
                assert(decreases_to!(*items => items@));
                assert(json_view(ms@[k as int].value) == JsonValue::Array(json_views(items@)));
            }
            let r = decode_nodes(items);
            proof {
                if r is None {
                    assert forall|cs: Seq<Node>| !kids_ok(member_views(ms@), cs) by {
                        assert(!nodes_ok(json_views(items@), cs));
                    }
                }
            }
            r
        },
        _ => None,
    }
}

/// Read a sequence of nodes.
fn decode_nodes(items: &Vec<Json>) -> (r: Option<Vec<Node>>)
    ensures
        match r {
            Some(c) => nodes_ok(json_views(items@), c@),
            None => forall|cs: Seq<Node>| !nodes_ok(json_views(items@), cs),
        },
    decreases items@, 0int,
{
    let ghost vs = json_views(items@);
    proof {
        lemma_json_views(items@);
        assert(vs.take(0) =~= Seq::<JsonValue>::empty());
    }
    let mut out: Vec<Node> = Vec::new();
    let mut i: usize = 0;
    while i < items.len()
        invariant
            i <= items.len(),
            vs == json_views(items@),
            vs.len() == items.len(),
            forall|j: int| 0 <= j < items.len() ==> #[trigger] vs[j] == json_view(items@[j]),
            nodes_ok(vs.take(i as int), out@),
        decreases items.len() - i,
    {
        proof {
            assert(decreases_to!(items@ => items@[i as int]));
        }
        match decode_node(&items[i]) {
            Some(n) => {
                let ghost before = out@;
                out.push(n);
                proof {
                    assert(vs.take(i + 1).drop_last() =~= vs.take(i as int));
                    assert(vs.take(i + 1).last() == vs[i as int]);
                    assert(out@.drop_last() =~= before);
                }
            },
            None => {
                proof {
                    assert forall|cs: Seq<Node>| !nodes_ok(vs, cs) by {
                        if nodes_ok(vs, cs) {
                            lemma_nodes_ok_at(vs, cs);
                            assert(json_node_ok(vs[i as int], cs[i as int]));
                        }
                    }
                }
                return None;
            },
        }
        i = i + 1;
    }
    proof {
        assert(vs.take(items.len() as int) =~= vs);
    }
    Some(out)
}

/// Read the node a JSON object is the JSON form of.
fn decode_object(ms: &Vec<Member>) -> (r: Option<Node>)
    ensures
        match r {
            Some(n) => node_ok(member_views(ms@), n),
            None => forall|n: Node| !node_ok(member_views(ms@), n),
        },
    decreases ms@, 2int,
{
    let t = match read_str_field(ms, "type") {
        Some(t) => t,
        None => {
            return None;
        },
    };
    if str_eq(t.as_str(), "root") {
        let children = match decode_kids(ms) {
            Some(v) => v,
            None => {
                proof {
                    assert forall|n: Node| !node_ok(member_views(ms@), n) by {
                        if let Node::Root(x) = n {
                            assert(!kids_ok(member_views(ms@), x.children@));
                        }
                    }
                }
                return None;
            },
        };
        Some(Node::Root(md::Root { children }))
    } else if str_eq(t.as_str(), "blockquote") {
        let children = match decode_kids(ms) {
            Some(v) => v,
            None => {
                proof {
                    assert forall|n: Node| !node_ok(member_views(ms@), n) by {
                        if let Node::Blockquote(x) = n {
                            assert(!kids_ok(member_views(ms@), x.children@));
                        }
                    }
                }
                return None;
            },
        };
        Some(Node::Blockquote(md::Blockquote { children }))
    } else if str_eq(t.as_str(), "footnoteDefinition") {
        let children = match decode_kids(ms) {
            Some(v) => v,
            None => {
                proof {
                    assert forall|n: Node| !node_ok(member_views(ms@), n) by {
                        if let Node::FootnoteDefinition(x) = n {
                            assert(!kids_ok(member_views(ms@), x.children@));
                        }
                    }
                }
                return None;
            },
        };
        let identifier = match read_str_field(ms, "identifier") {
            Some(v) => v,
            None => {
                return None;
            },
        };
        let label = match read_opt_str_field(ms, "label") {
            Some(v) => v,
            None => {
                return None;
            },
        };
        Some(Node::FootnoteDefinition(md::FootnoteDefinition { children, identifier, label }))
    } else if str_eq(t.as_str(), "mdxJsxFlowElement") {
        let children = match decode_kids(ms) {
            Some(v) => v,
            None => {
                proof {
                    assert forall|n: Node| !node_ok(member_views(ms@), n) by {
                        if let Node::MdxJsxFlowElement(x) = n {
                            assert(!kids_ok(member_views(ms@), x.children@));
                        }
                    }
                }
                return None;
            },
        };
        let name = match read_opt_str_field(ms, "name") {
            Some(v) => v,
            None => {
                return None;
            },
        };
        Some(Node::MdxJsxFlowElement(md::MdxJsxFlowElement { children, name }))
    } else if str_eq(t.as_str(), "list") {
        let children = match decode_kids(ms) {
            Some(v) => v,
            None => {
                proof {
                    assert forall|n: Node| !node_ok(member_views(ms@), n) by {
                        if let Node::List(x) = n {
                            assert(!kids_ok(member_views(ms@), x.children@));
                        }
                    }
                }
                return None;
            },
        };
        let ordered = match read_bool_field(ms, "ordered") {
            Some(v) => v,
            None => {
                return None;
            },
        };
        let start = match read_opt_u32_field(ms, "start") {
            Some(v) => v,
            None => {
                return None;
            },
        };
        let spread = match read_bool_field(ms, "spread") {
            Some(v) => v,
            None => {
                return None;
            },
        };
        Some(Node::List(md::List { children, ordered, start, spread }))
    } else if str_eq(t.as_str(), "mdxjsEsm") {
        let value = match read_str_field(ms, "value") {
            Some(v) => v,
            None => {
                return None;
            },
        };
        Some(Node::MdxjsEsm(md::MdxjsEsm { value }))
    } else if str_eq(t.as_str(), "toml") {
        let value = match read_str_field(ms, "value") {
            Some(v) => v,
            None => {
                return None;
            },
        };
        Some(Node::Toml(md::Toml { value }))
    } else if str_eq(t.as_str(), "yaml") {
        let value = match read_str_field(ms, "value") {
            Some(v) => v,
            None => {
                return None;
            },
        };
        Some(Node::Yaml(md::Yaml { value }))
    } else if str_eq(t.as_str(), "break") {
        Some(Node::Break(md::Break {  }))
    } else if str_eq(t.as_str(), "inlineCode") {
        let value = match read_str_field(ms, "value") {
            Some(v) => v,
            None => {
                return None;
            },
        };
        Some(Node::InlineCode(md::InlineCode { value }))
    } else if str_eq(t.as_str(), "inlineMath") {
        let value = match read_str_field(ms, "value") {
            Some(v) => v,
            None => {
                return None;
            },
        };
        Some(Node::InlineMath(md::InlineMath { value }))
    } else if str_eq(t.as_str(), "delete") {
        let children = match decode_kids(ms) {
            Some(v) => v,
            None => {
                proof {
                    assert forall|n: Node| !node_ok(member_views(ms@), n) by {
                        if let Node::Delete(x) = n {
                            assert(!kids_ok(member_views(ms@), x.children@));
                        }
                    }
                }
                return None;
            },
        };
        Some(Node::Delete(md::Delete { children }))
    } else if str_eq(t.as_str(), "emphasis") {
        let children = match decode_kids(ms) {
            Some(v) => v,
            None => {
                proof {
                    assert forall|n: Node| !node_ok(member_views(ms@), n) by {
                        if let Node::Emphasis(x) = n {
                            assert(!kids_ok(member_views(ms@), x.children@));
                        }
                    }
                }
                return None;
            },
        };
        Some(Node::Emphasis(md::Emphasis { children }))
    } else if str_eq(t.as_str(), "mdxTextExpression") {
        let value = match read_str_field(ms, "value") {
            Some(v) => v,
            None => {
                return None;
            },
        };
        Some(Node::MdxTextExpression(md::MdxTextExpression { value }))
    } else if str_eq(t.as_str(), "footnoteReference") {
        let identifier = match read_str_field(ms, "identifier") {
            Some(v) => v,
            None => {
                return None;
            },
        };
        let label = match read_opt_str_field(ms, "label") {
            Some(v) => v,
            None => {
                return None;
            },
        };
        Some(Node::FootnoteReference(md::FootnoteReference { identifier, label }))
    } else if str_eq(t.as_str(), "html") {
        let value = match read_str_field(ms, "value") {
            Some(v) => v,
            None => {
                return None;
            },
        };
        Some(Node::Html(md::Html { value }))
    } else if str_eq(t.as_str(), "image") {
        let alt = match read_str_field(ms, "alt") {
            Some(v) => v,
            None => {
                return None;
            },
        };
        let url = match read_str_field(ms, "url") {
            Some(v) => v,
            None => {
                return None;
            },
        };
        let title = match read_opt_str_field(ms, "title") {
            Some(v) => v,
            None => {
                return None;
            },
        };
        Some(Node::Image(md::Image { alt, url, title }))
    } else if str_eq(t.as_str(), "imageReference") {
        let alt = match read_str_field(ms, "alt") {
            Some(v) => v,
            None => {
                return None;
            },
        };
        let reference_kind = match read_reference_field(ms) {
            Some(v) => v,
            None => {
                return None;
            },
        };
        let identifier = match read_str_field(ms, "identifier") {
            Some(v) => v,
            None => {
                return None;
            },
        };
        let label = match read_opt_str_field(ms, "label") {
            Some(v) => v,
            None => {
                return None;
            },
        };
        Some(Node::ImageReference(md::ImageReference { alt, reference_kind, identifier, label }))
    } else if str_eq(t.as_str(), "mdxJsxTextElement") {
        let children = match decode_kids(ms) {
            Some(v) => v,
            None => {
                proof {
                    assert forall|n: Node| !node_ok(member_views(ms@), n) by {
                        if let Node::MdxJsxTextElement(x) = n {
                            assert(!kids_ok(member_views(ms@), x.children@));
                        }
                    }
                }
                return None;
            },
        };
        let name = match read_opt_str_field(ms, "name") {
            Some(v) => v,
            None => {
                return None;
            },
        };
        Some(Node::MdxJsxTextElement(md::MdxJsxTextElement { children, name }))
    } else if str_eq(t.as_str(), "link") {
        let children = match decode_kids(ms) {
            Some(v) => v,
            None => {
                proof {
                    assert forall|n: Node| !node_ok(member_views(ms@), n) by {
                        if let Node::Link(x) = n {
                            assert(!kids_ok(member_views(ms@), x.children@));
                        }
                    }
                }
                return None;
            },
        };
        let url = match read_str_field(ms, "url") {
            Some(v) => v,
            None => {
                return None;
            },
        };
        let title = match read_opt_str_field(ms, "title") {
            Some(v) => v,
            None => {
                return None;
            },
        };
        Some(Node::Link(md::Link { children, url, title }))
    } else if str_eq(t.as_str(), "linkReference") {
        let children = match decode_kids(ms) {
            Some(v) => v,
            None => {
                proof {
                    assert forall|n: Node| !node_ok(member_views(ms@), n) by {
                        if let Node::LinkReference(x) = n {
                            assert(!kids_ok(member_views(ms@), x.children@));
                        }
                    }
                }
                return None;
            },
        };
        let reference_kind = match read_reference_field(ms) {
            Some(v) => v,
            None => {
                return None;
            },
        };
        let identifier = match read_str_field(ms, "identifier") {
            Some(v) => v,
            None => {
                return None;
            },
        };
        let label = match read_opt_str_field(ms, "label") {
            Some(v) => v,
            None => {
                return None;
            },
        };
        Some(Node::LinkReference(md::LinkReference { children, reference_kind, identifier, label }))
    } else if str_eq(t.as_str(), "strong") {
        let children = match decode_kids(ms) {
            Some(v) => v,
            None => {
                proof {
                    assert forall|n: Node| !node_ok(member_views(ms@), n) by {
                        if let Node::Strong(x) = n {
                            assert(!kids_ok(member_views(ms@), x.children@));
                        }
                    }
                }
                return None;
            },
        };
        Some(Node::Strong(md::Strong { children }))
    } else if str_eq(t.as_str(), "text") {
        let value = match read_str_field(ms, "value") {
            Some(v) => v,
            None => {
                return None;
            },
        };
        Some(Node::Text(md::Text { value }))
    } else if str_eq(t.as_str(), "code") {
        let value = match read_str_field(ms, "value") {
            Some(v) => v,
            None => {
                return None;
            },
        };
        let lang = match read_opt_str_field(ms, "lang") {
            Some(v) => v,
            None => {
                return None;
            },
        };
        let meta = match read_opt_str_field(ms, "meta") {
            Some(v) => v,
            None => {
                return None;
            },
        };
        Some(Node::Code(md::Code { value, lang, meta }))
    } else if str_eq(t.as_str(), "math") {
        let value = match read_str_field(ms, "value") {
            Some(v) => v,
            None => {
                return None;
            },
        };
        let meta = match read_opt_str_field(ms, "meta") {
            Some(v) => v,
            None => {
                return None;
            },
        };
        Some(Node::Math(md::Math { value, meta }))
    } else if str_eq(t.as_str(), "mdxFlowExpression") {
        let value = match read_str_field(ms, "value") {
            Some(v) => v,
            None => {
                return None;
            },
        };
        Some(Node::MdxFlowExpression(md::MdxFlowExpression { value }))
    } else if str_eq(t.as_str(), "heading") {
        let children = match decode_kids(ms) {
            Some(v) => v,
            None => {
                proof {
                    assert forall|n: Node| !node_ok(member_views(ms@), n) by {
                        if let Node::Heading(x) = n {
                            assert(!kids_ok(member_views(ms@), x.children@));
                        }
                    }
                }
                return None;
            },
        };
        let depth = match read_u8_field(ms, "depth") {
            Some(v) => v,
            None => {
                return None;
            },
        };
        Some(Node::Heading(md::Heading { children, depth }))
    } else if str_eq(t.as_str(), "table") {
        let children = match decode_kids(ms) {
            Some(v) => v,
            None => {
                proof {
                    assert forall|n: Node| !node_ok(member_views(ms@), n) by {
                        if let Node::Table(x) = n {
                            assert(!kids_ok(member_views(ms@), x.children@));
                        }
                    }
                }
                return None;
            },
        };
        let align = match read_align_field(ms) {
            Some(v) => v,
            None => {
                return None;
            },
        };
        Some(Node::Table(md::Table { children, align }))
    } else if str_eq(t.as_str(), "thematicBreak") {
        Some(Node::ThematicBreak(md::ThematicBreak {  }))
    } else if str_eq(t.as_str(), "tableRow") {
        let children = match decode_kids(ms) {
            Some(v) => v,
            None => {
                proof {
                    assert forall|n: Node| !node_ok(member_views(ms@), n) by {
                        if let Node::TableRow(x) = n {
                            assert(!kids_ok(member_views(ms@), x.children@));
                        }
                    }
                }
                return None;
            },
        };
        Some(Node::TableRow(md::TableRow { children }))
    } else if str_eq(t.as_str(), "tableCell") {
        let children = match decode_kids(ms) {
            Some(v) => v,
            None => {
                proof {
                    assert forall|n: Node| !node_ok(member_views(ms@), n) by {
                        if let Node::TableCell(x) = n {
                            assert(!kids_ok(member_views(ms@), x.children@));
                        }
                    }
                }
                return None;
            },
        };
        Some(Node::TableCell(md::TableCell { children }))
    } else if str_eq(t.as_str(), "listItem") {
        let children = match decode_kids(ms) {
            Some(v) => v,
            None => {
                proof {
                    assert forall|n: Node| !node_ok(member_views(ms@), n) by {
                        if let Node::ListItem(x) = n {
                            assert(!kids_ok(member_views(ms@), x.children@));
                        }
                    }
                }
                return None;
            },
        };
        let checked = match read_opt_bool_field(ms, "checked") {
            Some(v) => v,
            None => {
                return None;
            },
        };
        let spread = match read_bool_field(ms, "spread") {
            Some(v) => v,
            None => {
                return None;
            },
        };
        Some(Node::ListItem(md::ListItem { children, checked, spread }))
    } else if str_eq(t.as_str(), "definition") {
        let url = match read_str_field(ms, "url") {
            Some(v) => v,
            None => {
                return None;
            },
        };
        let title = match read_opt_str_field(ms, "title") {
            Some(v) => v,
            None => {
                return None;
            },
        };
        let identifier = match read_str_field(ms, "identifier") {
            Some(v) => v,
            None => {
                return None;
            },
        };
        let label = match read_opt_str_field(ms, "label") {
            Some(v) => v,
            None => {
                return None;
            },
        };
        Some(Node::Definition(md::Definition { url, title, identifier, label }))
    } else if str_eq(t.as_str(), "paragraph") {
        let children = match decode_kids(ms) {
            Some(v) => v,
            None => {
                proof {
                    assert forall|n: Node| !node_ok(member_views(ms@), n) by {
                        if let Node::Paragraph(x) = n {
                            assert(!kids_ok(member_views(ms@), x.children@));
                        }
                    }
                }
                return None;
            },
        };
        Some(Node::Paragraph(md::Paragraph { children }))
    } else {
        None
    }
}


/// A node read from a JSON object is of the kind that the object's `type`
/// member names, under the mdast type names (those the serializer registers
/// its handlers by).
pub proof fn lemma_json_type_names_kind(v: JsonValue, n: Node)
    requires
        json_node_ok(v, n),
    ensures
        v matches JsonValue::Object(ms) && str_field(ms, "type"@) == Some(node_type_spec(n)),
{
}

}
