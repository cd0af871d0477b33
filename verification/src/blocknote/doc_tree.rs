//! The XML tree of a collaborative block document, as plain values, and its
//! conversion to and from blocks.
//!
//! A document holds one `blockGroup` element; each block is a
//! `blockContainer` element with the block's id and props as attributes,
//! holding an element named after the block type (with the props again, and
//! the block's text or table), then a `blockGroup` of the child blocks, if any.

use vstd::prelude::*;
use crate::blocknote::blocks::{
    Block, BlockContent, InlineContent, Styles, TableCell, TableCellProps, TableCellType, TableContent,
    TableRow,
};
use crate::blocknote::from_mdast::{content_views, inline_view, inline_views, InlineView};
use crate::blocknote::numbers::{bool_text, bool_to_text, decimal_text, lemma_parse_decimal, parse_uint, parse_uint_spec, parse_width_list, split_commas, width_list_spec};
use crate::blocknote::props::{keys_distinct, opt_text, other_lookup, Props};
use crate::blocknote::error::{ConvertError, ConvertResult};
use crate::blocknote::schema::{block_type_name, default_props_spec, has_inline_content_spec, parse_block_type, BlockType};
use crate::blocknote::props::merged;
use crate::blocknote::markdown::IdGenerator;
use crate::text::{decimal_spec, owned, push_str, str_eq};

verus! {

/// A run of text with its formatting: the inserted text (`None` for an
/// embedded value that is not text), the names of its formatting attributes,
/// and the target of its link, if it has one.
#[derive(Debug)]
pub struct TextRun {
    pub insert: Option<String>,
    pub marks: Vec<String>,
    pub link: Option<String>,
}

/// An element: its tag, its attributes (a value is `None` where it has no
/// text form), and its children.
#[derive(Debug)]
pub struct XmlElement {
    pub tag: String,
    pub attrs: Vec<(String, Option<String>)>,
    pub children: Vec<XmlNode>,
}

/// A node of the document's XML tree.
#[derive(Debug)]
pub enum XmlNode {
    Element(XmlElement),
    Text(Vec<TextRun>),
    Fragment,
}

// ── Attributes → props ──────────────────────────────────────

/// The text of the last attribute with the given key that has a text value.
pub open spec fn attr_text(attrs: Seq<(String, Option<String>)>, key: Seq<char>) -> Option<Seq<char>>
    decreases attrs.len(),
{
    if attrs.len() == 0 {
        None
    } else if attrs.last().0@ == key && attrs.last().1 is Some {
        Some(attrs.last().1->0@)
    } else {
        attr_text(attrs.drop_last(), key)
    }
}

/// The keys of the props that have a field of their own.
pub open spec fn known_prop_key(k: Seq<char>) -> bool {
    k == "textColor"@ || k == "backgroundColor"@ || k == "textAlignment"@ || k == "level"@ || k == "isToggleable"@
        || k == "checked"@ || k == "start"@ || k == "language"@ || k == "name"@ || k == "url"@ || k == "caption"@
        || k == "showPreview"@ || k == "previewWidth"@
}

/// A flag read from text: set, and true exactly when the text is `true`.
pub open spec fn flag_of(t: Option<Seq<char>>) -> Option<bool> {
    match t {
        Some(s) => Some(s == "true"@),
        None => None,
    }
}

/// A number read from text, when the text is one no greater than `max`.
pub open spec fn number_of(t: Option<Seq<char>>, max: nat) -> Option<nat> {
    match t {
        Some(s) => parse_uint_spec(s, max),
        None => None,
    }
}

/// The props that attributes give: each known key sets its field (text as it
/// is, flags true exactly for `true`, numbers when they parse, else unset);
/// every other key is kept among the other props.
pub open spec fn props_from_attrs_ok(attrs: Seq<(String, Option<String>)>, p: Props) -> bool {
    &&& opt_text(p.text_color) == attr_text(attrs, "textColor"@)
    &&& opt_text(p.background_color) == attr_text(attrs, "backgroundColor"@)
    &&& opt_text(p.text_alignment) == attr_text(attrs, "textAlignment"@)
    &&& p.level == match number_of(attr_text(attrs, "level"@), 255) {
        Some(v) => Some(v as u8),
        None => None,
    }
    &&& p.is_toggleable == flag_of(attr_text(attrs, "isToggleable"@))
    &&& p.checked == flag_of(attr_text(attrs, "checked"@))
    &&& p.start == match number_of(attr_text(attrs, "start"@), usize::MAX as nat) {
        Some(v) => Some(v as usize),
        None => None,
    }
    &&& opt_text(p.language) == attr_text(attrs, "language"@)
    &&& opt_text(p.name) == attr_text(attrs, "name"@)
    &&& opt_text(p.url) == attr_text(attrs, "url"@)
    &&& opt_text(p.caption) == attr_text(attrs, "caption"@)
    &&& p.show_preview == flag_of(attr_text(attrs, "showPreview"@))
    &&& p.preview_width == match number_of(attr_text(attrs, "previewWidth"@), 0xffff_ffff) {
        Some(v) => Some(v as u32),
        None => None,
    }
    &&& forall|k: Seq<char>| !known_prop_key(k) ==> #[trigger] other_lookup(p.other@, k) == attr_text(attrs, k)
    &&& forall|k: Seq<char>| known_prop_key(k) ==> #[trigger] other_lookup(p.other@, k) is None
}

/// The known prop keys are distinct.
proof fn lemma_known_keys_distinct()
    ensures
        "textColor"@ != "backgroundColor"@,
        "textColor"@ != "textAlignment"@,
        "textColor"@ != "level"@,
        "textColor"@ != "isToggleable"@,
        "textColor"@ != "checked"@,
        "textColor"@ != "start"@,
        "textColor"@ != "language"@,
        "textColor"@ != "name"@,
        "textColor"@ != "url"@,
        "textColor"@ != "caption"@,
        "textColor"@ != "showPreview"@,
        "textColor"@ != "previewWidth"@,
        "backgroundColor"@ != "textAlignment"@,
        "backgroundColor"@ != "level"@,
        "backgroundColor"@ != "isToggleable"@,
        "backgroundColor"@ != "checked"@,
        "backgroundColor"@ != "start"@,
        "backgroundColor"@ != "language"@,
        "backgroundColor"@ != "name"@,
        "backgroundColor"@ != "url"@,
        "backgroundColor"@ != "caption"@,
        "backgroundColor"@ != "showPreview"@,
        "backgroundColor"@ != "previewWidth"@,
        "textAlignment"@ != "level"@,
        "textAlignment"@ != "isToggleable"@,
        "textAlignment"@ != "checked"@,
        "textAlignment"@ != "start"@,
        "textAlignment"@ != "language"@,
        "textAlignment"@ != "name"@,
        "textAlignment"@ != "url"@,
        "textAlignment"@ != "caption"@,
        "textAlignment"@ != "showPreview"@,
        "textAlignment"@ != "previewWidth"@,
        "level"@ != "isToggleable"@,
        "level"@ != "checked"@,
        "level"@ != "start"@,
        "level"@ != "language"@,
        "level"@ != "name"@,
        "level"@ != "url"@,
        "level"@ != "caption"@,
        "level"@ != "showPreview"@,
        "level"@ != "previewWidth"@,
        "isToggleable"@ != "checked"@,
        "isToggleable"@ != "start"@,
        "isToggleable"@ != "language"@,
        "isToggleable"@ != "name"@,
        "isToggleable"@ != "url"@,
        "isToggleable"@ != "caption"@,
        "isToggleable"@ != "showPreview"@,
        "isToggleable"@ != "previewWidth"@,
        "checked"@ != "start"@,
        "checked"@ != "language"@,
        "checked"@ != "name"@,
        "checked"@ != "url"@,
        "checked"@ != "caption"@,
        "checked"@ != "showPreview"@,
        "checked"@ != "previewWidth"@,
        "start"@ != "language"@,
        "start"@ != "name"@,
        "start"@ != "url"@,
        "start"@ != "caption"@,
        "start"@ != "showPreview"@,
        "start"@ != "previewWidth"@,
        "language"@ != "name"@,
        "language"@ != "url"@,
        "language"@ != "caption"@,
        "language"@ != "showPreview"@,
        "language"@ != "previewWidth"@,
        "name"@ != "url"@,
        "name"@ != "caption"@,
        "name"@ != "showPreview"@,
        "name"@ != "previewWidth"@,
        "url"@ != "caption"@,
        "url"@ != "showPreview"@,
        "url"@ != "previewWidth"@,
        "caption"@ != "showPreview"@,
        "caption"@ != "previewWidth"@,
        "showPreview"@ != "previewWidth"@,
{
    reveal_strlit("textColor");
    reveal_strlit("backgroundColor");
    reveal_strlit("textAlignment");
    reveal_strlit("level");
    reveal_strlit("isToggleable");
    reveal_strlit("checked");
    reveal_strlit("start");
    reveal_strlit("language");
    reveal_strlit("name");
    reveal_strlit("url");
    reveal_strlit("caption");
    reveal_strlit("showPreview");
    reveal_strlit("previewWidth");
    assert("textColor"@.len() != "backgroundColor"@.len());
    assert("textColor"@.len() != "textAlignment"@.len());
    assert("textColor"@.len() != "level"@.len());
    assert("textColor"@.len() != "isToggleable"@.len());
    assert("textColor"@.len() != "checked"@.len());
    assert("textColor"@.len() != "start"@.len());
    assert("textColor"@.len() != "language"@.len());
    assert("textColor"@.len() != "name"@.len());
    assert("textColor"@.len() != "url"@.len());
    assert("textColor"@.len() != "caption"@.len());
    assert("textColor"@.len() != "showPreview"@.len());
    assert("textColor"@.len() != "previewWidth"@.len());
    assert("backgroundColor"@.len() != "textAlignment"@.len());
    assert("backgroundColor"@.len() != "level"@.len());
    assert("backgroundColor"@.len() != "isToggleable"@.len());
    assert("backgroundColor"@.len() != "checked"@.len());
    assert("backgroundColor"@.len() != "start"@.len());
    assert("backgroundColor"@.len() != "language"@.len());
    assert("backgroundColor"@.len() != "name"@.len());
    assert("backgroundColor"@.len() != "url"@.len());
    assert("backgroundColor"@.len() != "caption"@.len());
    assert("backgroundColor"@.len() != "showPreview"@.len());
    assert("backgroundColor"@.len() != "previewWidth"@.len());
    assert("textAlignment"@.len() != "level"@.len());
    assert("textAlignment"@.len() != "isToggleable"@.len());
    assert("textAlignment"@.len() != "checked"@.len());
    assert("textAlignment"@.len() != "start"@.len());
    assert("textAlignment"@.len() != "language"@.len());
    assert("textAlignment"@.len() != "name"@.len());
    assert("textAlignment"@.len() != "url"@.len());
    assert("textAlignment"@.len() != "caption"@.len());
    assert("textAlignment"@.len() != "showPreview"@.len());
    assert("textAlignment"@.len() != "previewWidth"@.len());
    assert("level"@.len() != "isToggleable"@.len());
    assert("level"@.len() != "checked"@.len());
    assert("level"@[0] != "start"@[0]);
    assert("level"@.len() != "language"@.len());
    assert("level"@.len() != "name"@.len());
    assert("level"@.len() != "url"@.len());
    assert("level"@.len() != "caption"@.len());
    assert("level"@.len() != "showPreview"@.len());
    assert("level"@.len() != "previewWidth"@.len());
    assert("isToggleable"@.len() != "checked"@.len());
    assert("isToggleable"@.len() != "start"@.len());
    assert("isToggleable"@.len() != "language"@.len());
    assert("isToggleable"@.len() != "name"@.len());
    assert("isToggleable"@.len() != "url"@.len());
    assert("isToggleable"@.len() != "caption"@.len());
    assert("isToggleable"@.len() != "showPreview"@.len());
    assert("isToggleable"@[0] != "previewWidth"@[0]);
    assert("checked"@.len() != "start"@.len());
    assert("checked"@.len() != "language"@.len());
    assert("checked"@.len() != "name"@.len());
    assert("checked"@.len() != "url"@.len());
    assert("checked"@[1] != "caption"@[1]);
    assert("checked"@.len() != "showPreview"@.len());
    assert("checked"@.len() != "previewWidth"@.len());
    assert("start"@.len() != "language"@.len());
    assert("start"@.len() != "name"@.len());
    assert("start"@.len() != "url"@.len());
    assert("start"@.len() != "caption"@.len());
    assert("start"@.len() != "showPreview"@.len());
    assert("start"@.len() != "previewWidth"@.len());
    assert("language"@.len() != "name"@.len());
    assert("language"@.len() != "url"@.len());
    assert("language"@.len() != "caption"@.len());
    assert("language"@.len() != "showPreview"@.len());
    assert("language"@.len() != "previewWidth"@.len());
    assert("name"@.len() != "url"@.len());
    assert("name"@.len() != "caption"@.len());
    assert("name"@.len() != "showPreview"@.len());
    assert("name"@.len() != "previewWidth"@.len());
    assert("url"@.len() != "caption"@.len());
    assert("url"@.len() != "showPreview"@.len());
    assert("url"@.len() != "previewWidth"@.len());
    assert("caption"@.len() != "showPreview"@.len());
    assert("caption"@.len() != "previewWidth"@.len());
    assert("showPreview"@.len() != "previewWidth"@.len());
}

/// One more attribute sets the text of its key, if it has a text value.
proof fn lemma_attr_step(attrs: Seq<(String, Option<String>)>, i: int)
    requires
        0 <= i < attrs.len(),
    ensures
        forall|k: Seq<char>| #[trigger] attr_text(attrs.take(i + 1), k) == if attrs[i].0@ == k && attrs[i].1 is Some {
            Some(attrs[i].1->0@)
        } else {
            attr_text(attrs.take(i), k)
        },
{
    assert(attrs.take(i + 1).drop_last() =~= attrs.take(i));
}

/// Read props from the attributes of a block's element.
pub fn props_from_attrs(attrs: &[(String, Option<String>)]) -> (p: Props)
    ensures
        props_from_attrs_ok(attrs@, p),
        keys_distinct(p.other@),
{
    let mut props = Props::default();
    let mut i: usize = 0;
    proof {
        lemma_known_keys_distinct();
        assert(attrs@.take(0) =~= Seq::<(String, Option<String>)>::empty());
    }
    while i < attrs.len()
        invariant
            i <= attrs.len(),
            props_from_attrs_ok(attrs@.take(i as int), props),
            keys_distinct(props.other@),
        decreases attrs.len() - i,
    {
        let key = &attrs[i].0;
        let value = &attrs[i].1;
        proof {
            lemma_attr_step(attrs@, i as int);
            lemma_known_keys_distinct();
        }
        match value {
            None => {},
            Some(s) => {
                if str_eq(key.as_str(), "textColor") {
                    props.text_color = Some(s.clone());
                } else if str_eq(key.as_str(), "backgroundColor") {
                    props.background_color = Some(s.clone());
                } else if str_eq(key.as_str(), "textAlignment") {
                    props.text_alignment = Some(s.clone());
                } else if str_eq(key.as_str(), "level") {
                    props.level = match parse_uint(s.as_str(), 255) {
                        Some(v) => Some(v as u8),
                        None => None,
                    };
                } else if str_eq(key.as_str(), "isToggleable") {
                    props.is_toggleable = Some(str_eq(s.as_str(), "true"));
                } else if str_eq(key.as_str(), "checked") {
                    props.checked = Some(str_eq(s.as_str(), "true"));
                } else if str_eq(key.as_str(), "start") {
                    props.start = match parse_uint(s.as_str(), usize::MAX as u128) {
                        Some(v) => Some(v as usize),
                        None => None,
                    };
                } else if str_eq(key.as_str(), "language") {
                    props.language = Some(s.clone());
                } else if str_eq(key.as_str(), "name") {
                    props.name = Some(s.clone());
                } else if str_eq(key.as_str(), "url") {
                    props.url = Some(s.clone());
                } else if str_eq(key.as_str(), "caption") {
                    props.caption = Some(s.clone());
                } else if str_eq(key.as_str(), "showPreview") {
                    props.show_preview = Some(str_eq(s.as_str(), "true"));
                } else if str_eq(key.as_str(), "previewWidth") {
                    props.preview_width = match parse_uint(s.as_str(), 0xffff_ffff) {
                        Some(v) => Some(v as u32),
                        None => None,
                    };
                } else {
                    props.set_other(key.clone(), s.clone());
                }
            },
        }
        proof {
            reveal_strlit("true");
        }
        i += 1;
    }
    proof {
        assert(attrs@.take(attrs@.len() as int) =~= attrs@);
    }
    props
}

// ── Text runs → inline content ──────────────────────────────

/// Whether a run has the formatting attribute of the given name.
pub open spec fn has_mark(marks: Seq<String>, name: Seq<char>) -> bool {
    exists|i: int| 0 <= i < marks.len() && (#[trigger] marks[i])@ == name
}

/// The styles that formatting attribute names give.
pub open spec fn marks_styles(marks: Seq<String>) -> Styles {
    Styles {
        bold: has_mark(marks, "bold"@),
        italic: has_mark(marks, "italic"@),
        underline: has_mark(marks, "underline"@),
        strikethrough: has_mark(marks, "strike"@),
        code: has_mark(marks, "code"@),
    }
}

/// Read styles from formatting attribute names; other names are ignored.
pub fn styles_from_marks(marks: &[String]) -> (r: Styles)
    ensures
        r == marks_styles(marks@),
{
    let mut styles = Styles { bold: false, italic: false, underline: false, strikethrough: false, code: false };
    let mut i: usize = 0;
    while i < marks.len()
        invariant
            i <= marks.len(),
            styles == marks_styles(marks@.take(i as int)),
        decreases marks.len() - i,
    {
        let m = marks[i].as_str();
        if str_eq(m, "bold") {
            styles.bold = true;
        } else if str_eq(m, "italic") {
            styles.italic = true;
        } else if str_eq(m, "underline") {
            styles.underline = true;
        } else if str_eq(m, "strike") {
            styles.strikethrough = true;
        } else if str_eq(m, "code") {
            styles.code = true;
        }
        proof {
            reveal_strlit("bold");
            reveal_strlit("italic");
            reveal_strlit("underline");
            reveal_strlit("strike");
            reveal_strlit("code");
            assert("bold"@[0] != "code"@[0]);
            assert("italic"@[0] != "strike"@[0]);
            let t = marks@.take(i + 1);
            let u = marks@.take(i as int);
            assert forall|name: Seq<char>| has_mark(t, name) == (has_mark(u, name) || marks@[i as int]@ == name) by {
                if has_mark(t, name) {
                    let j = choose|j: int| 0 <= j < t.len() && (#[trigger] t[j])@ == name;
                    if j < i {
                        assert(u[j] == t[j]);
                    }
                }
                if has_mark(u, name) {
                    let j = choose|j: int| 0 <= j < u.len() && (#[trigger] u[j])@ == name;
                    assert(t[j] == u[j]);
                }
                if marks@[i as int]@ == name {
                    assert(t[i as int] == marks@[i as int]);
                }
            }
        }
        i += 1;
    }
    proof {
        assert(marks@.take(marks@.len() as int) =~= marks@);
    }
    styles
}

/// The text item of a run.
pub open spec fn run_item(r: TextRun) -> InlineView {
    InlineView::Text(r.insert->0@, marks_styles(r.marks@))
}

/// The items read from runs so far, and the link still open: its target and
/// the items it holds.
pub open spec fn runs_state(runs: Seq<TextRun>) -> (Seq<InlineView>, Option<(Seq<char>, Seq<InlineView>)>)
    decreases runs.len(),
{
    if runs.len() == 0 {
        (Seq::empty(), None)
    } else {
        let (done, pending) = runs_state(runs.drop_last());
        let r = runs.last();
        if r.insert is None {
            (done, pending)
        } else {
            let item = run_item(r);
            let same_link = pending is Some && r.link is Some && (pending->0).0 == r.link->0@;
            if same_link {
                (done, Some(((pending->0).0, (pending->0).1.push(item))))
            } else {
                let flushed = match pending {
                    Some((h, c)) => done.push(InlineView::Link(h, c)),
                    None => done,
                };
                match r.link {
                    Some(l) => (flushed, Some((l@, seq![item]))),
                    None => (flushed.push(item), None),
                }
            }
        }
    }
}

/// The inline content that text runs give: each run with text is a text item
/// with the styles of its marks; consecutive runs with the same link target
/// are grouped into one link; runs without text are skipped.
pub open spec fn runs_views(runs: Seq<TextRun>) -> Seq<InlineView> {
    let (done, pending) = runs_state(runs);
    match pending {
        Some((h, c)) => done.push(InlineView::Link(h, c)),
        None => done,
    }
}

/// Appending an item appends its value.
proof fn lemma_views_push(s: Seq<InlineContent>, x: InlineContent)
    ensures
        inline_views(s.push(x)) == inline_views(s).push(inline_view(x)),
{
    assert(s.push(x).drop_last() =~= s);
}

/// Decode text runs, grouping consecutive runs with the same link target into
/// one link.
fn decode_text_with_links(runs: &[TextRun], result: &mut Vec<InlineContent>)
    ensures
        inline_views(final(result)@) == inline_views(old(result)@) + runs_views(runs@),
{
    let mut pending_link_href: Option<String> = None;
    let mut pending_link_content: Vec<InlineContent> = Vec::new();
    let mut i: usize = 0;
    proof {
        assert(runs@.take(0) =~= Seq::<TextRun>::empty());
        assert(inline_views(result@) =~= inline_views(old(result)@) + Seq::<InlineView>::empty());
        assert(inline_views(Seq::<InlineContent>::empty()) =~= Seq::<InlineView>::empty());
    }
    while i < runs.len()
        invariant
            i <= runs.len(),
            inline_views(result@) == inline_views(old(result)@) + runs_state(runs@.take(i as int)).0,
            match runs_state(runs@.take(i as int)).1 {
                Some((h, c)) => pending_link_href matches Some(ph) && ph@ == h && inline_views(pending_link_content@) == c,
                None => pending_link_href is None && pending_link_content@.len() == 0,
            },
        decreases runs.len() - i,
    {
        let run = &runs[i];
        let ghost prev = runs_state(runs@.take(i as int));
        proof {
            assert(runs@.take(i + 1).drop_last() =~= runs@.take(i as int));
            assert(runs@.take(i + 1).last() == runs@[i as int]);
        }
        match &run.insert {
            None => {},
            Some(text) => {
                let styles = styles_from_marks(run.marks.as_slice());
                let item = InlineContent::Text { text: text.clone(), styles };
                let same_link = match (&pending_link_href, &run.link) {
                    (Some(a), Some(b)) => str_eq(a.as_str(), b.as_str()),
                    _ => false,
                };
                if same_link {
                    let ghost before = pending_link_content@;
                    pending_link_content.push(item);
                    proof {
                        lemma_views_push(before, item);
                    }
                } else {
                    let ghost before = result@;
                    match pending_link_href {
                        Some(href) => {
                            let content = pending_link_content;
                            pending_link_content = Vec::new();
                            let link = InlineContent::Link { href, content };
                            result.push(link);
                            proof {
                                lemma_views_push(before, link);
                            }
                        },
                        None => {},
                    }
                    pending_link_href = None;
                    let ghost mid = result@;
                    match &run.link {
                        Some(l) => {
                            pending_link_href = Some(l.clone());
                            pending_link_content.push(item);
                            proof {
                                lemma_views_push(Seq::<InlineContent>::empty(), item);
                                assert(Seq::<InlineContent>::empty().push(item) =~= pending_link_content@);
                                assert(inline_views(Seq::<InlineContent>::empty()) =~= Seq::<InlineView>::empty());
                                assert(Seq::<InlineView>::empty().push(run_item(*run)) =~= seq![run_item(*run)]);
                            }
                        },
                        None => {
                            result.push(item);
                            proof {
                                lemma_views_push(mid, item);
                            }
                        },
                    }
                }
            },
        }
        i += 1;
    }
    proof {
        assert(runs@.take(runs@.len() as int) =~= runs@);
    }
    match pending_link_href {
        Some(href) => {
            let ghost before = result@;
            let link = InlineContent::Link { href, content: pending_link_content };
            result.push(link);
            proof {
                lemma_views_push(before, link);
            }
        },
        None => {},
    }
}

// ── Elements → inline content ───────────────────────────────

/// The inline content of a sequence of nodes.
pub open spec fn xml_inlines(children: Seq<XmlNode>) -> Seq<InlineView>
    decreases children,
{
    if children.len() == 0 {
        Seq::empty()
    } else {
        xml_inlines(children.drop_last()) + xml_node_inlines(children.last())
    }
}

/// The inline content of a node: the runs of a text node, a hard break for a
/// `hardBreak` element, the content of a `tableParagraph` element, and nothing
/// for any other node.
pub open spec fn xml_node_inlines(n: XmlNode) -> Seq<InlineView>
    decreases n,
{
    match n {
        XmlNode::Text(runs) => runs_views(runs@),
        XmlNode::Element(e) => if e.tag@ == "hardBreak"@ {
            seq![InlineView::HardBreak]
        } else if e.tag@ == "tableParagraph"@ {
            xml_inlines(e.children@)
        } else {
            Seq::empty()
        },
        XmlNode::Fragment => Seq::empty(),
    }
}

/// Append the inline content of nodes.
fn decode_inline_into(children: &[XmlNode], result: &mut Vec<InlineContent>)
    ensures
        inline_views(final(result)@) == inline_views(old(result)@) + xml_inlines(children@),
    decreases children@,
{
    let mut i: usize = 0;
    proof {
        assert(children@.take(0) =~= Seq::<XmlNode>::empty());
        assert(inline_views(result@) =~= inline_views(old(result)@) + Seq::<InlineView>::empty());
    }
    while i < children.len()
        invariant
            i <= children.len(),
            inline_views(result@) == inline_views(old(result)@) + xml_inlines(children@.take(i as int)),
        decreases children.len() - i,
    {
        let ghost before = result@;
        proof {
            assert(children@.take(i + 1).drop_last() =~= children@.take(i as int));
            assert(children@.take(i + 1).last() == children@[i as int]);
            assert(decreases_to!(children@ => children@[i as int]));
        }
        match &children[i] {
            XmlNode::Text(runs) => {
                decode_text_with_links(runs.as_slice(), result);
            },
            XmlNode::Element(elem) => {
                if str_eq(elem.tag.as_str(), "hardBreak") {
                    result.push(InlineContent::HardBreak);
                    proof {
                        lemma_views_push(before, InlineContent::HardBreak);
                        assert(inline_views(before).push(InlineView::HardBreak) =~= inline_views(before) + seq![InlineView::HardBreak]);
                    }
                } else if str_eq(elem.tag.as_str(), "tableParagraph") {
                    proof {
                        assert(decreases_to!(children@[i as int] => *elem));
                        assert(decreases_to!(*elem => elem.children));
                        assert(decreases_to!(elem.children => elem.children@));
                    }
                    decode_inline_into(elem.children.as_slice(), result);
                } else {
                    assert(xml_node_inlines(children@[i as int]) =~= Seq::<InlineView>::empty());
                }
            },
            XmlNode::Fragment => {
                assert(xml_node_inlines(children@[i as int]) =~= Seq::<InlineView>::empty());
            },
        }
        proof {
            assert(inline_views(result@) =~= inline_views(before) + xml_node_inlines(children@[i as int]));
            assert(xml_inlines(children@.take(i + 1)) == xml_inlines(children@.take(i as int)) + xml_node_inlines(children@[i as int]));
            assert(inline_views(result@) =~= inline_views(old(result)@) + xml_inlines(children@.take(i + 1)));
        }
        i += 1;
    }
    proof {
        assert(children@.take(children@.len() as int) =~= children@);
    }
}

/// Decode the inline content of an element's children.
pub fn decode_inline_content(children: &[XmlNode]) -> (r: Vec<InlineContent>)
    ensures
        inline_views(r@) == xml_inlines(children@),
{
    let mut result: Vec<InlineContent> = Vec::new();
    decode_inline_into(children, &mut result);
    proof {
        assert(inline_views(Seq::<InlineContent>::empty()) =~= Seq::<InlineView>::empty());
        assert(inline_views(result@) =~= xml_inlines(children@));
    }
    result
}

// ── Table elements → table content ──────────────────────────

/// The value of the last attribute with the given key whose text is a number
/// no greater than `max`.
pub open spec fn last_number(attrs: Seq<(String, Option<String>)>, key: Seq<char>, max: nat) -> Option<nat>
    decreases attrs.len(),
{
    if attrs.len() == 0 {
        None
    } else if attrs.last().0@ == key && attrs.last().1 is Some && parse_uint_spec(attrs.last().1->0@, max) is Some {
        parse_uint_spec(attrs.last().1->0@, max)
    } else {
        last_number(attrs.drop_last(), key, max)
    }
}

/// The widths of the last `colwidth` attribute whose text holds at least one.
pub open spec fn last_widths(attrs: Seq<(String, Option<String>)>) -> Option<Seq<u32>>
    decreases attrs.len(),
{
    if attrs.len() == 0 {
        None
    } else if attrs.last().0@ == "colwidth"@ && attrs.last().1 is Some
        && width_list_spec(split_commas(attrs.last().1->0@)).len() > 0 {
        Some(width_list_spec(split_commas(attrs.last().1->0@)))
    } else {
        last_widths(attrs.drop_last())
    }
}

/// The text of an attribute, or a default.
pub open spec fn text_or(t: Option<Seq<char>>, d: Seq<char>) -> Seq<char> {
    match t {
        Some(s) => s,
        None => d,
    }
}

/// The props of a table cell that its attributes give: colors and alignment
/// as they are (default `default`, `default` and `left`), spans when they are
/// numbers (default 1), and the column widths when there are any.
pub open spec fn cell_props_ok(attrs: Seq<(String, Option<String>)>, p: TableCellProps) -> bool {
    &&& p.background_color@ == text_or(attr_text(attrs, "backgroundColor"@), "default"@)
    &&& p.text_color@ == text_or(attr_text(attrs, "textColor"@), "default"@)
    &&& p.text_alignment@ == text_or(attr_text(attrs, "textAlignment"@), "left"@)
    &&& p.colspan == match last_number(attrs, "colspan"@, 0xffff_ffff) {
        Some(v) => v as u32,
        None => 1u32,
    }
    &&& p.rowspan == match last_number(attrs, "rowspan"@, 0xffff_ffff) {
        Some(v) => v as u32,
        None => 1u32,
    }
    &&& match last_widths(attrs) {
        Some(w) => p.colwidth matches Some(c) && c@ == w,
        None => p.colwidth is None,
    }
}

/// The cell keys, distinct.
proof fn lemma_cell_keys_distinct()
    ensures
        "backgroundColor"@ != "textColor"@,
        "backgroundColor"@ != "textAlignment"@,
        "backgroundColor"@ != "colspan"@,
        "backgroundColor"@ != "rowspan"@,
        "backgroundColor"@ != "colwidth"@,
        "textColor"@ != "textAlignment"@,
        "textColor"@ != "colspan"@,
        "textColor"@ != "rowspan"@,
        "textColor"@ != "colwidth"@,
        "textAlignment"@ != "colspan"@,
        "textAlignment"@ != "rowspan"@,
        "textAlignment"@ != "colwidth"@,
        "colspan"@ != "rowspan"@,
        "colspan"@ != "colwidth"@,
        "rowspan"@ != "colwidth"@,
{
    reveal_strlit("backgroundColor");
    reveal_strlit("textColor");
    reveal_strlit("textAlignment");
    reveal_strlit("colspan");
    reveal_strlit("rowspan");
    reveal_strlit("colwidth");
    assert("backgroundColor"@.len() != "textColor"@.len());
    assert("backgroundColor"@.len() != "textAlignment"@.len());
    assert("backgroundColor"@.len() != "colspan"@.len());
    assert("backgroundColor"@.len() != "rowspan"@.len());
    assert("backgroundColor"@.len() != "colwidth"@.len());
    assert("textColor"@.len() != "textAlignment"@.len());
    assert("textColor"@.len() != "colspan"@.len());
    assert("textColor"@.len() != "rowspan"@.len());
    assert("textColor"@.len() != "colwidth"@.len());
    assert("textAlignment"@.len() != "colspan"@.len());
    assert("textAlignment"@.len() != "rowspan"@.len());
    assert("textAlignment"@.len() != "colwidth"@.len());
    assert("colspan"@[0] != "rowspan"@[0]);
    assert("colspan"@.len() != "colwidth"@.len());
    assert("rowspan"@.len() != "colwidth"@.len());
}

/// Read the props of a table cell from its attributes.
pub fn decode_cell_props(attrs: &[(String, Option<String>)]) -> (p: TableCellProps)
    ensures
        cell_props_ok(attrs@, p),
{
    let mut props = TableCellProps::default();
    let mut i: usize = 0;
    proof {
        assert(attrs@.take(0) =~= Seq::<(String, Option<String>)>::empty());
    }
    while i < attrs.len()
        invariant
            i <= attrs.len(),
            cell_props_ok(attrs@.take(i as int), props),
        decreases attrs.len() - i,
    {
        let key = &attrs[i].0;
        let value = &attrs[i].1;
        proof {
            lemma_attr_step(attrs@, i as int);
            lemma_cell_keys_distinct();
            let t = attrs@.take(i + 1);
            assert(t.drop_last() =~= attrs@.take(i as int));
            assert(t.last() == attrs@[i as int]);
        }
        match value {
            None => {},
            Some(s) => {
                if str_eq(key.as_str(), "backgroundColor") {
                    props.background_color = s.clone();
                } else if str_eq(key.as_str(), "textColor") {
                    props.text_color = s.clone();
                } else if str_eq(key.as_str(), "textAlignment") {
                    props.text_alignment = s.clone();
                } else if str_eq(key.as_str(), "colspan") {
                    match parse_uint(s.as_str(), 0xffff_ffff) {
                        Some(v) => props.colspan = v as u32,
                        None => {},
                    }
                } else if str_eq(key.as_str(), "rowspan") {
                    match parse_uint(s.as_str(), 0xffff_ffff) {
                        Some(v) => props.rowspan = v as u32,
                        None => {},
                    }
                } else if str_eq(key.as_str(), "colwidth") {
                    let widths = parse_width_list(s.as_str());
                    if widths.len() > 0 {
                        props.colwidth = Some(widths);
                    }
                }
            },
        }
        i += 1;
    }
    proof {
        assert(attrs@.take(attrs@.len() as int) =~= attrs@);
    }
    props
}

/// The `tableRow` elements among nodes, in order.
pub open spec fn row_elements(children: Seq<XmlNode>) -> Seq<XmlElement>
    decreases children.len(),
{
    if children.len() == 0 {
        Seq::empty()
    } else {
        let rest = row_elements(children.drop_last());
        match children.last() {
            XmlNode::Element(e) => if e.tag@ == "tableRow"@ { rest.push(e) } else { rest },
            _ => rest,
        }
    }
}

/// The cell type an element's tag names.
pub open spec fn cell_type_of(tag: Seq<char>) -> Option<TableCellType> {
    if tag == "tableCell"@ {
        Some(TableCellType::TableCell)
    } else if tag == "tableHeader"@ {
        Some(TableCellType::TableHeader)
    } else {
        None
    }
}

/// The cell elements among nodes, in order.
pub open spec fn cell_elements(children: Seq<XmlNode>) -> Seq<XmlElement>
    decreases children.len(),
{
    if children.len() == 0 {
        Seq::empty()
    } else {
        let rest = cell_elements(children.drop_last());
        match children.last() {
            XmlNode::Element(e) => if cell_type_of(e.tag@) is Some { rest.push(e) } else { rest },
            _ => rest,
        }
    }
}

/// The inline content of a cell: that of its first `tableParagraph` element.
pub open spec fn cell_inlines(children: Seq<XmlNode>) -> Seq<InlineView>
    decreases children.len(),
{
    if children.len() == 0 {
        Seq::empty()
    } else if children[0] is Element && children[0]->Element_0.tag@ == "tableParagraph"@ {
        xml_inlines(children[0]->Element_0.children@)
    } else {
        cell_inlines(children.skip(1))
    }
}

/// The cell a cell element becomes.
pub open spec fn cell_decoded_ok(e: XmlElement, c: TableCell) -> bool {
    &&& cell_type_of(e.tag@) == Some(c.cell_type)
    &&& cell_props_ok(e.attrs@, c.props)
    &&& inline_views(c.content@) == cell_inlines(e.children@)
}

/// The row a row element becomes.
pub open spec fn row_decoded_ok(e: XmlElement, r: TableRow) -> bool {
    let cells = cell_elements(e.children@);
    &&& r.cells@.len() == cells.len()
    &&& forall|j: int| 0 <= j < cells.len() ==> cell_decoded_ok(cells[j], #[trigger] r.cells@[j])
}

/// A row whose first cell is a header cell.
pub open spec fn header_row(r: TableRow) -> bool {
    r.cells@.len() > 0 && r.cells@[0].cell_type == TableCellType::TableHeader
}

/// The length of the run of items at the start that have a property, as an
/// optional count (`None` for an empty run).
pub open spec fn run_count_ok(n: Option<usize>, len: int, p: spec_fn(int) -> bool) -> bool {
    match n {
        Some(k) => 0 < k <= len && (forall|i: int| 0 <= i < k ==> #[trigger] p(i)) && (k == len || !p(k as int)),
        None => len == 0 || !p(0),
    }
}

/// The table content that the children of a table element give: one row per
/// row element; column widths from the first width of each cell of the first
/// row; the header rows and columns counted from the start.
pub open spec fn table_decoded_ok(children: Seq<XmlNode>, tc: TableContent) -> bool {
    let rows = row_elements(children);
    &&& tc.rows@.len() == rows.len()
    &&& (forall|i: int| 0 <= i < rows.len() ==> row_decoded_ok(rows[i], #[trigger] tc.rows@[i]))
    &&& tc.column_widths@.len() == if rows.len() > 0 { tc.rows@[0].cells@.len() } else { 0 }
    &&& (forall|j: int| 0 <= j < tc.column_widths@.len() ==> #[trigger] tc.column_widths@[j] == match tc.rows@[0].cells@[j].props.colwidth {
        Some(w) => if w@.len() > 0 { Some(w@[0]) } else { None },
        None => None,
    })
    &&& run_count_ok(tc.header_rows, tc.rows@.len() as int, |i: int| header_row(tc.rows@[i]))
    &&& run_count_ok(tc.header_cols, if rows.len() > 0 { tc.rows@[0].cells@.len() as int } else { 0 }, |j: int| tc.rows@[0].cells@[j].cell_type == TableCellType::TableHeader)
}

/// Decode the inline content of a cell: that of its first `tableParagraph`.
fn decode_cell_inline_content(children: &[XmlNode]) -> (r: Vec<InlineContent>)
    ensures
        inline_views(r@) == cell_inlines(children@),
{
    let mut i: usize = 0;
    proof {
        assert(children@.skip(0) =~= children@);
    }
    while i < children.len()
        invariant
            i <= children.len(),
            cell_inlines(children@) == cell_inlines(children@.skip(i as int)),
        decreases children.len() - i,
    {
        proof {
            assert(children@.skip(i as int)[0] == children@[i as int]);
            assert(children@.skip(i as int).skip(1) =~= children@.skip(i + 1));
        }
        match &children[i] {
            XmlNode::Element(elem) => {
                if str_eq(elem.tag.as_str(), "tableParagraph") {
                    return decode_inline_content(elem.children.as_slice());
                }
            },
            _ => {},
        }
        i += 1;
    }
    proof {
        assert(children@.skip(i as int).len() == 0);
        assert(inline_views(Seq::<InlineContent>::empty()) =~= Seq::<InlineView>::empty());
    }
    Vec::new()
}

/// Decode the cells of a row element.
fn decode_row(row: &XmlElement) -> (r: TableRow)
    ensures
        row_decoded_ok(*row, r),
{
    let mut cells: Vec<TableCell> = Vec::new();
    let mut k: usize = 0;
    proof {
        assert(row.children@.take(0) =~= Seq::<XmlNode>::empty());
    }
    while k < row.children.len()
        invariant
            k <= row.children.len(),
            cells@.len() == cell_elements(row.children@.take(k as int)).len(),
            forall|j: int| 0 <= j < cells@.len() ==> cell_decoded_ok(cell_elements(row.children@.take(k as int))[j], #[trigger] cells@[j]),
        decreases row.children.len() - k,
    {
        proof {
            assert(row.children@.take(k + 1).drop_last() =~= row.children@.take(k as int));
            assert(row.children@.take(k + 1).last() == row.children@[k as int]);
        }
        match &row.children[k] {
            XmlNode::Element(cell_elem) => {
                let is_cell = str_eq(cell_elem.tag.as_str(), "tableCell");
                let is_header = str_eq(cell_elem.tag.as_str(), "tableHeader");
                if is_cell || is_header {
                    let cell_type = if is_cell { TableCellType::TableCell } else { TableCellType::TableHeader };
                    let props = decode_cell_props(cell_elem.attrs.as_slice());
                    let content = decode_cell_inline_content(cell_elem.children.as_slice());
                    cells.push(TableCell { cell_type, props, content });
                }
            },
            _ => {},
        }
        k += 1;
    }
    proof {
        assert(row.children@.take(row.children@.len() as int) =~= row.children@);
    }
    TableRow { cells }
}

/// Decode table content from the children of a table element.
pub fn decode_table(children: &[XmlNode]) -> (r: TableContent)
    ensures
        table_decoded_ok(children@, r),
{
    let mut rows: Vec<TableRow> = Vec::new();
    let mut k: usize = 0;
    proof {
        assert(children@.take(0) =~= Seq::<XmlNode>::empty());
    }
    while k < children.len()
        invariant
            k <= children.len(),
            rows@.len() == row_elements(children@.take(k as int)).len(),
            forall|i: int| 0 <= i < rows@.len() ==> row_decoded_ok(row_elements(children@.take(k as int))[i], #[trigger] rows@[i]),
        decreases children.len() - k,
    {
        proof {
            assert(children@.take(k + 1).drop_last() =~= children@.take(k as int));
            assert(children@.take(k + 1).last() == children@[k as int]);
        }
        match &children[k] {
            XmlNode::Element(row_elem) => {
                if str_eq(row_elem.tag.as_str(), "tableRow") {
                    rows.push(decode_row(row_elem));
                }
            },
            _ => {},
        }
        k += 1;
    }
    proof {
        assert(children@.take(children@.len() as int) =~= children@);
    }
    let mut column_widths: Vec<Option<u32>> = Vec::new();
    let mut header_cols: usize = 0;
    if rows.len() > 0 {
        let first = &rows[0];
        let mut j: usize = 0;
        while j < first.cells.len()
            invariant
                j <= first.cells.len(),
                column_widths@.len() == j,
                forall|m: int| 0 <= m < j ==> #[trigger] column_widths@[m] == match first.cells@[m].props.colwidth {
                    Some(w) => if w@.len() > 0 { Some(w@[0]) } else { None },
                    None => None,
                },
            decreases first.cells.len() - j,
        {
            let w = match &first.cells[j].props.colwidth {
                Some(cw) => if cw.len() > 0 { Some(cw[0]) } else { None },
                None => None,
            };
            column_widths.push(w);
            j += 1;
        }
        while header_cols < first.cells.len() && first.cells[header_cols].cell_type == TableCellType::TableHeader
            invariant
                header_cols <= first.cells.len(),
                forall|m: int| 0 <= m < header_cols ==> (#[trigger] first.cells@[m]).cell_type == TableCellType::TableHeader,
            decreases first.cells.len() - header_cols,
        {
            header_cols += 1;
        }
    }
    let mut header_rows: usize = 0;
    while header_rows < rows.len() && rows[header_rows].cells.len() > 0
        && rows[header_rows].cells[0].cell_type == TableCellType::TableHeader
        invariant
            header_rows <= rows.len(),
            forall|m: int| 0 <= m < header_rows ==> header_row(#[trigger] rows@[m]),
        decreases rows.len() - header_rows,
    {
        header_rows += 1;
    }
    let r = TableContent {
        column_widths,
        header_rows: if header_rows > 0 { Some(header_rows) } else { None },
        header_cols: if header_cols > 0 { Some(header_cols) } else { None },
        rows,
    };
    proof {
        let p1 = |i: int| header_row(r.rows@[i]);
        assert forall|i: int| 0 <= i < header_rows implies #[trigger] p1(i) by {
            assert(header_row(r.rows@[i]));
        }
        assert(run_count_ok(r.header_rows, r.rows@.len() as int, p1));
        if r.rows@.len() > 0 {
            let p2 = |j: int| r.rows@[0].cells@[j].cell_type == TableCellType::TableHeader;
            assert forall|j: int| 0 <= j < header_cols implies #[trigger] p2(j) by {
                assert(r.rows@[0].cells@[j].cell_type == TableCellType::TableHeader);
            }
            assert(run_count_ok(r.header_cols, r.rows@[0].cells@.len() as int, p2));
        }
    }
    r
}

// ── Block containers → blocks ───────────────────────────────

/// Whether a node is an element with the given tag.
pub open spec fn tagged(n: XmlNode, tag: Seq<char>) -> bool {
    n is Element && n->Element_0.tag@ == tag
}

/// The block type of a container: the one its first child's tag names, when
/// that child is an element.
pub open spec fn container_type(c: XmlElement) -> Option<BlockType> {
    if c.children@.len() > 0 && c.children@[0] is Element {
        parse_block_type(c.children@[0]->Element_0.tag@)
    } else {
        None
    }
}

/// Whether a node is a container that gives a block.
pub open spec fn decodes(n: XmlNode) -> bool {
    tagged(n, "blockContainer"@) && container_type(n->Element_0) is Some
}

/// How many blocks the children of a group give.
pub open spec fn container_count(children: Seq<XmlNode>) -> nat
    decreases children.len(),
{
    if children.len() == 0 {
        0
    } else {
        container_count(children.drop_last()) + if decodes(children.last()) { 1nat } else { 0nat }
    }
}

/// The position of the first `blockGroup` element among nodes.
pub open spec fn first_group(children: Seq<XmlNode>) -> Option<int> {
    if exists|i: int| 0 <= i < children.len() && tagged(#[trigger] children[i], "blockGroup"@)
        && forall|j: int| 0 <= j < i ==> !tagged(#[trigger] children[j], "blockGroup"@) {
        Some(choose|i: int| 0 <= i < children.len() && tagged(#[trigger] children[i], "blockGroup"@)
            && forall|j: int| 0 <= j < i ==> !tagged(#[trigger] children[j], "blockGroup"@))
    } else {
        None
    }
}

/// The block a container gives: its id, the type its first child names, the
/// props of that child's attributes, its table, inline content or nothing,
/// and as many children as its first group gives.
pub open spec fn block_decoded_ok(c: XmlElement, b: Block) -> bool
    decreases c,
{
    let e = c.children@[0]->Element_0;
    let t = container_type(c)->0;
    &&& b.id@ == text_or(attr_text(c.attrs@, "id"@), Seq::empty())
    &&& b.block_type == t
    &&& props_from_attrs_ok(e.attrs@, b.props)
    &&& if t == BlockType::Table {
        b.content matches BlockContent::Table(tc) && table_decoded_ok(e.children@, tc)
    } else if has_inline_content_spec(t) {
        content_views(b.content) == Some(xml_inlines(e.children@))
    } else {
        b.content is Empty
    }
    &&& match first_group(c.children@) {
        Some(g) => if 0 <= g < c.children@.len() && c.children@[g] is Element {
            group_decoded_ok(c.children@[g]->Element_0.children@, b.children@)
        } else {
            false
        },
        None => b.children@.len() == 0,
    }
}

/// The blocks the children of a group give: one per container that decodes,
/// in order.
pub open spec fn group_decoded_ok(children: Seq<XmlNode>, bs: Seq<Block>) -> bool
    decreases children,
{
    if children.len() == 0 {
        bs.len() == 0
    } else if decodes(children.last()) {
        &&& bs.len() > 0
        &&& group_decoded_ok(children.drop_last(), bs.drop_last())
        &&& block_decoded_ok(children.last()->Element_0, bs.last())
    } else {
        group_decoded_ok(children.drop_last(), bs)
    }
}

/// A group's blocks are as many as its containers that decode.
proof fn lemma_group_count(children: Seq<XmlNode>, bs: Seq<Block>)
    requires
        group_decoded_ok(children, bs),
    ensures
        bs.len() == container_count(children),
    decreases children.len(),
{
    if children.len() > 0 {
        if decodes(children.last()) {
            lemma_group_count(children.drop_last(), bs.drop_last());
        } else {
            lemma_group_count(children.drop_last(), bs);
        }
    }
}

/// The position of the first `blockGroup` element among nodes.
fn find_block_group(children: &[XmlNode]) -> (r: Option<usize>)
    ensures
        r matches Some(i) ==> first_group(children@) == Some(i as int) && i < children@.len(),
        r is None ==> first_group(children@) is None,
{
    let mut i: usize = 0;
    while i < children.len()
        invariant
            i <= children.len(),
            forall|j: int| 0 <= j < i ==> !tagged(#[trigger] children@[j], "blockGroup"@),
        decreases children.len() - i,
    {
        match &children[i] {
            XmlNode::Element(e) => {
                if str_eq(e.tag.as_str(), "blockGroup") {
                    proof {
                        assert(tagged(children@[i as int], "blockGroup"@));
                        let c = choose|k: int| 0 <= k < children@.len() && tagged(#[trigger] children@[k], "blockGroup"@)
                            && forall|j: int| 0 <= j < k ==> !tagged(#[trigger] children@[j], "blockGroup"@);
                        assert(0 <= c < children@.len() && tagged(children@[c], "blockGroup"@)
                            && forall|j: int| 0 <= j < c ==> !tagged(#[trigger] children@[j], "blockGroup"@));
                        if c < i {
                            assert(!tagged(children@[c], "blockGroup"@));
                        }
                        if c > i {
                            assert(!tagged(children@[i as int], "blockGroup"@));
                        }
                    }
                    return Some(i);
                }
            },
            _ => {},
        }
        i += 1;
    }
    None
}

/// Decode a block container; `None` when its first child is not an element
/// naming a block type.
fn decode_block_container(container: &XmlElement) -> (r: Option<Block>)
    ensures
        (r is Some) == (container_type(*container) is Some),
        r matches Some(b) ==> block_decoded_ok(*container, b),
    decreases *container, 1int,
{
    let id = match attr_value(container.attrs.as_slice(), "id") {
        Some(v) => v,
        None => String::new(),
    };
    if container.children.len() == 0 {
        return None;
    }
    let content_elem = match &container.children[0] {
        XmlNode::Element(e) => e,
        _ => {
            return None;
        },
    };
    let block_type = match BlockType::parse(content_elem.tag.as_str()) {
        Some(t) => t,
        None => {
            return None;
        },
    };
    let props = props_from_attrs(content_elem.attrs.as_slice());
    let content = if block_type == BlockType::Table {
        BlockContent::Table(decode_table(content_elem.children.as_slice()))
    } else if block_type.has_inline_content() {
        BlockContent::Inline(decode_inline_content(content_elem.children.as_slice()))
    } else {
        BlockContent::Empty
    };
    let children = match find_block_group(container.children.as_slice()) {
        Some(g) => match &container.children[g] {
            XmlNode::Element(group) => {
                proof {
                    assert(decreases_to!(*container => container.children));
                    assert(decreases_to!(container.children => container.children@));
                    assert(decreases_to!(container.children@ => container.children@[g as int]));
                    assert(decreases_to!(container.children@[g as int] => *group));
                }
                decode_block_group(group.children.as_slice())
            },
            _ => Vec::new(),
        },
        None => Vec::new(),
    };
    Some(Block { id, block_type, props, content, children })
}

/// The text of the last attribute with the given key that has a text value.
pub fn attr_value(attrs: &[(String, Option<String>)], key: &str) -> (r: Option<String>)
    ensures
        opt_text(r) == attr_text(attrs@, key@),
{
    let mut i = attrs.len();
    proof {
        assert(attrs@.take(i as int) =~= attrs@);
    }
    while i > 0
        invariant
            i <= attrs.len(),
            attr_text(attrs@, key@) == attr_text(attrs@.take(i as int), key@),
        decreases i,
    {
        proof {
            assert(attrs@.take(i as int).drop_last() =~= attrs@.take(i - 1));
            assert(attrs@.take(i as int).last() == attrs@[i - 1]);
        }
        if str_eq(attrs[i - 1].0.as_str(), key) {
            match &attrs[i - 1].1 {
                Some(v) => {
                    return Some(v.clone());
                },
                None => {},
            }
        }
        i -= 1;
    }
    None
}

/// Decode the blocks of a group's children: one per container that decodes.
pub fn decode_block_group(children: &[XmlNode]) -> (r: Vec<Block>)
    ensures
        group_decoded_ok(children@, r@),
    decreases children@, 0int,
{
    let mut blocks: Vec<Block> = Vec::new();
    let mut k: usize = 0;
    proof {
        assert(children@.take(0) =~= Seq::<XmlNode>::empty());
    }
    while k < children.len()
        invariant
            k <= children.len(),
            group_decoded_ok(children@.take(k as int), blocks@),
        decreases children.len() - k,
    {
        let ghost before = blocks@;
        proof {
            assert(children@.take(k + 1).drop_last() =~= children@.take(k as int));
            assert(children@.take(k + 1).last() == children@[k as int]);
            assert(decreases_to!(children@ => children@[k as int]));
        }
        match &children[k] {
            XmlNode::Element(container) => {
                if str_eq(container.tag.as_str(), "blockContainer") {
                    proof {
                        assert(decreases_to!(children@[k as int] => *container));
                    }
                    match decode_block_container(container) {
                        Some(b) => {
                            blocks.push(b);
                            proof {
                                assert(blocks@.drop_last() =~= before);
                            }
                        },
                        None => {},
                    }
                }
            },
            _ => {},
        }
        k += 1;
    }
    proof {
        assert(children@.take(children@.len() as int) =~= children@);
    }
    blocks
}

/// The message for a root that is not a `blockGroup` element.
pub open spec fn wrong_root_message(tag: Seq<char>) -> Seq<char> {
    "expected 'blockGroup', found '"@ + tag + "'"@
}

/// What decoding the children of a document fragment gives: no blocks for
/// none; otherwise the first child must be a `blockGroup` element, whose
/// containers give the blocks.
pub open spec fn fragment_decoded(fragment: Seq<XmlNode>, r: ConvertResult<Vec<Block>>) -> bool {
    if fragment.len() == 0 {
        r matches Ok(bs) && bs@.len() == 0
    } else if !(fragment[0] is Element) {
        r matches Err(ConvertError::InvalidSchema(m)) && m@ == "root child is not an XmlElement"@
    } else if fragment[0]->Element_0.tag@ != "blockGroup"@ {
        r matches Err(ConvertError::InvalidSchema(m)) && m@ == wrong_root_message(fragment[0]->Element_0.tag@)
    } else {
        r matches Ok(bs) && group_decoded_ok(fragment[0]->Element_0.children@, bs@)
    }
}

/// Decode the blocks of a document fragment: an empty fragment has none;
/// otherwise its first child must be a `blockGroup` element, whose containers
/// give the blocks.
pub fn doc_to_blocks(fragment: &[XmlNode]) -> (r: ConvertResult<Vec<Block>>)
    ensures
        fragment_decoded(fragment@, r),
{
    if fragment.len() == 0 {
        return Ok(Vec::new());
    }
    match &fragment[0] {
        XmlNode::Element(block_group) => {
            if !str_eq(block_group.tag.as_str(), "blockGroup") {
                return Err(ConvertError::InvalidSchema(crate::text::concat3(
                    "expected 'blockGroup', found '",
                    block_group.tag.as_str(),
                    "'",
                )));
            }
            Ok(decode_block_group(block_group.children.as_slice()))
        },
        _ => Err(ConvertError::InvalidSchema(crate::text::owned("root child is not an XmlElement"))),
    }
}

/// Decode the blocks of a document fragment whose reported length is `len`
/// and whose children are `fragment`: no blocks for a length of 0, an error
/// for a positive length without children, else as `doc_to_blocks`.
pub fn decode_fragment(len: u32, fragment: &[XmlNode]) -> (r: ConvertResult<Vec<Block>>)
    ensures
        len == 0 ==> (r matches Ok(bs) && bs@.len() == 0),
        len > 0 && fragment@.len() == 0 ==> (r matches Err(ConvertError::InvalidSchema(m))
            && m@ == "fragment reports non-zero len but no children"@),
        len > 0 && fragment@.len() > 0 ==> fragment_decoded(fragment@, r),
{
    if len == 0 {
        return Ok(Vec::new());
    }
    if fragment.len() == 0 {
        return Err(ConvertError::InvalidSchema(crate::text::owned("fragment reports non-zero len but no children")));
    }
    doc_to_blocks(fragment)
}

// ── Props → attributes ──────────────────────────────────────

/// An attribute for a value that is set.
pub open spec fn opt_attr(key: Seq<char>, v: Option<Seq<char>>) -> Seq<(Seq<char>, Seq<char>)> {
    match v {
        Some(t) => seq![(key, t)],
        None => Seq::empty(),
    }
}

/// The text of a number that is set.
pub open spec fn opt_num(v: Option<nat>) -> Option<Seq<char>> {
    match v {
        Some(n) => Some(decimal_spec(n)),
        None => None,
    }
}

/// The text of a flag that is set.
pub open spec fn opt_flag(v: Option<bool>) -> Option<Seq<char>> {
    match v {
        Some(b) => Some(bool_text(b)),
        None => None,
    }
}

/// The entries of the other props, as key/value text.
pub open spec fn other_attrs(o: Seq<(String, String)>) -> Seq<(Seq<char>, Seq<char>)>
    decreases o.len(),
{
    if o.len() == 0 {
        Seq::empty()
    } else {
        other_attrs(o.drop_last()).push((o.last().0@, o.last().1@))
    }
}

/// The attributes props are written as: each set known prop under its key
/// (numbers in decimal, flags as `true` or `false`), then the other props.
pub open spec fn props_attrs(p: Props) -> Seq<(Seq<char>, Seq<char>)> {
    opt_attr("textColor"@, opt_text(p.text_color))
        + opt_attr("backgroundColor"@, opt_text(p.background_color))
        + opt_attr("textAlignment"@, opt_text(p.text_alignment))
        + opt_attr("level"@, opt_num(match p.level { Some(v) => Some(v as nat), None => None }))
        + opt_attr("isToggleable"@, opt_flag(p.is_toggleable))
        + opt_attr("checked"@, opt_flag(p.checked))
        + opt_attr("start"@, opt_num(match p.start { Some(v) => Some(v as nat), None => None }))
        + opt_attr("language"@, opt_text(p.language))
        + opt_attr("name"@, opt_text(p.name))
        + opt_attr("url"@, opt_text(p.url))
        + opt_attr("caption"@, opt_text(p.caption))
        + opt_attr("showPreview"@, opt_flag(p.show_preview))
        + opt_attr("previewWidth"@, opt_num(match p.preview_width { Some(v) => Some(v as nat), None => None }))
        + other_attrs(p.other@)
}

/// Attributes as key/value text, each value set.
pub open spec fn attrs_text(a: Seq<(String, Option<String>)>) -> Seq<(Seq<char>, Seq<char>)>
    decreases a.len(),
{
    if a.len() == 0 {
        Seq::empty()
    } else {
        attrs_text(a.drop_last()).push((a.last().0@, a.last().1->0@))
    }
}

/// Every attribute has a text value.
pub open spec fn all_set(a: Seq<(String, Option<String>)>) -> bool {
    forall|i: int| 0 <= i < a.len() ==> (#[trigger] a[i]).1 is Some
}

/// Append one attribute.
fn push_attr(attrs: &mut Vec<(String, Option<String>)>, key: &str, value: String)
    ensures
        final(attrs)@ == old(attrs)@.push((final(attrs)@.last().0, Some(value))),
        final(attrs)@.last().0@ == key@,
        all_set(old(attrs)@) ==> all_set(final(attrs)@),
        attrs_text(final(attrs)@) == attrs_text(old(attrs)@).push((key@, value@)),
{
    attrs.push((owned(key), Some(value)));
    proof {
        assert(attrs@.drop_last() =~= old(attrs)@);
    }
}

/// Append the attribute of a text value that is set.
fn push_opt_text(attrs: &mut Vec<(String, Option<String>)>, key: &str, value: &Option<String>)
    ensures
        all_set(old(attrs)@) ==> all_set(final(attrs)@),
        attrs_text(final(attrs)@) == attrs_text(old(attrs)@) + opt_attr(key@, opt_text(*value)),
{
    match value {
        Some(v) => push_attr(attrs, key, v.clone()),
        None => {},
    }
    proof {
        assert(attrs_text(old(attrs)@) + Seq::<(Seq<char>, Seq<char>)>::empty() =~= attrs_text(old(attrs)@));
        if value is Some {
            assert(attrs_text(old(attrs)@).push((key@, value->0@)) =~= attrs_text(old(attrs)@) + opt_attr(key@, opt_text(*value)));
        }
    }
}

/// Append the attribute of a number that is set.
fn push_opt_num(attrs: &mut Vec<(String, Option<String>)>, key: &str, value: Option<u128>)
    ensures
        all_set(old(attrs)@) ==> all_set(final(attrs)@),
        attrs_text(final(attrs)@) == attrs_text(old(attrs)@) + opt_attr(key@, opt_num(match value { Some(v) => Some(v as nat), None => None })),
{
    match value {
        Some(v) => push_attr(attrs, key, decimal_text(v)),
        None => {},
    }
    proof {
        assert(attrs_text(old(attrs)@) + Seq::<(Seq<char>, Seq<char>)>::empty() =~= attrs_text(old(attrs)@));
        if value is Some {
            assert(attrs_text(final(attrs)@) =~= attrs_text(old(attrs)@) + opt_attr(key@, opt_num(match value { Some(v) => Some(v as nat), None => None })));
        }
    }
}

/// Append the attribute of a flag that is set.
fn push_opt_flag(attrs: &mut Vec<(String, Option<String>)>, key: &str, value: Option<bool>)
    ensures
        all_set(old(attrs)@) ==> all_set(final(attrs)@),
        attrs_text(final(attrs)@) == attrs_text(old(attrs)@) + opt_attr(key@, opt_flag(value)),
{
    match value {
        Some(b) => push_attr(attrs, key, bool_to_text(b)),
        None => {},
    }
    proof {
        assert(attrs_text(old(attrs)@) + Seq::<(Seq<char>, Seq<char>)>::empty() =~= attrs_text(old(attrs)@));
        if value is Some {
            assert(attrs_text(final(attrs)@) =~= attrs_text(old(attrs)@) + opt_attr(key@, opt_flag(value)));
        }
    }
}

/// The attributes that props are written as: each set known prop under its
/// key, then the other props.
pub fn props_to_attrs(props: &Props) -> (r: Vec<(String, Option<String>)>)
    ensures
        all_set(r@),
        attrs_text(r@) == props_attrs(*props),
{
    let mut attrs: Vec<(String, Option<String>)> = Vec::new();
    let ghost x1 = opt_attr("textColor"@, opt_text(props.text_color));
    proof {
        assert(attrs_text(attrs@) =~= Seq::<(Seq<char>, Seq<char>)>::empty());
        assert(Seq::<(Seq<char>, Seq<char>)>::empty() + x1 =~= x1);
    }
    push_opt_text(&mut attrs, "textColor", &props.text_color);
    push_opt_text(&mut attrs, "backgroundColor", &props.background_color);
    push_opt_text(&mut attrs, "textAlignment", &props.text_alignment);
    push_opt_num(&mut attrs, "level", match props.level { Some(v) => Some(v as u128), None => None });
    push_opt_flag(&mut attrs, "isToggleable", props.is_toggleable);
    push_opt_flag(&mut attrs, "checked", props.checked);
    push_opt_num(&mut attrs, "start", match props.start { Some(v) => Some(v as u128), None => None });
    push_opt_text(&mut attrs, "language", &props.language);
    push_opt_text(&mut attrs, "name", &props.name);
    push_opt_text(&mut attrs, "url", &props.url);
    push_opt_text(&mut attrs, "caption", &props.caption);
    push_opt_flag(&mut attrs, "showPreview", props.show_preview);
    push_opt_num(&mut attrs, "previewWidth", match props.preview_width { Some(v) => Some(v as u128), None => None });
    let ghost a1 = attrs_text(attrs@);
    let mut i: usize = 0;
    proof {
        assert(props.other@.take(0) =~= Seq::<(String, String)>::empty());
        assert(a1 + other_attrs(Seq::<(String, String)>::empty()) =~= a1);
    }
    while i < props.other.len()
        invariant
            i <= props.other.len(),
            all_set(attrs@),
            attrs_text(attrs@) == a1 + other_attrs(props.other@.take(i as int)),
        decreases props.other.len() - i,
    {
        let k = props.other[i].0.as_str();
        push_attr(&mut attrs, k, props.other[i].1.clone());
        proof {
            assert(props.other@.take(i + 1).drop_last() =~= props.other@.take(i as int));
            assert(attrs_text(attrs@) =~= a1 + other_attrs(props.other@.take(i + 1)));
        }
        i += 1;
    }
    proof {
        assert(props.other@.take(props.other@.len() as int) =~= props.other@);
    }
    attrs
}

/// The text of joined attribute lists is the joined text.
proof fn lemma_attrs_text_add(a: Seq<(String, Option<String>)>, b: Seq<(String, Option<String>)>)
    ensures
        attrs_text(a + b) == attrs_text(a) + attrs_text(b),
    decreases b.len(),
{
    if b.len() == 0 {
        assert(a + b =~= a);
        assert(attrs_text(a) + attrs_text(b) =~= attrs_text(a));
    } else {
        lemma_attrs_text_add(a, b.drop_last());
        assert((a + b).drop_last() =~= a + b.drop_last());
        assert(attrs_text(a + b) =~= attrs_text(a) + attrs_text(b));
    }
}

// ── Inline content → text runs ──────────────────────────────

/// A run as text: its text, the names of its marks, its link target.
pub type RunText = (Seq<char>, Seq<Seq<char>>, Option<Seq<char>>);

/// The mark names of styles, in the order bold, italic, underline, strike,
/// code.
pub open spec fn styles_marks(st: Styles) -> Seq<Seq<char>> {
    (if st.bold { seq!["bold"@] } else { Seq::empty() })
        + (if st.italic { seq!["italic"@] } else { Seq::empty() })
        + (if st.underline { seq!["underline"@] } else { Seq::empty() })
        + (if st.strikethrough { seq!["strike"@] } else { Seq::empty() })
        + (if st.code { seq!["code"@] } else { Seq::empty() })
}

/// The texts of strings.
pub open spec fn texts(m: Seq<String>) -> Seq<Seq<char>>
    decreases m.len(),
{
    if m.len() == 0 {
        Seq::empty()
    } else {
        texts(m.drop_last()).push(m.last()@)
    }
}

/// The text of runs.
pub open spec fn runs_text(runs: Seq<TextRun>) -> Seq<RunText>
    decreases runs.len(),
{
    if runs.len() == 0 {
        Seq::empty()
    } else {
        let r = runs.last();
        runs_text(runs.drop_last()).push((r.insert->0@, texts(r.marks@), opt_text(r.link)))
    }
}

/// The runs of the text items of a link's content, each with the link's
/// target; other items give none.
pub open spec fn link_runs(href: Seq<char>, content: Seq<InlineContent>) -> Seq<RunText>
    decreases content.len(),
{
    if content.len() == 0 {
        Seq::empty()
    } else {
        let rest = link_runs(href, content.drop_last());
        match content.last() {
            InlineContent::Text { text, styles } => rest.push((text@, styles_marks(styles), Some(href))),
            _ => rest,
        }
    }
}

/// The runs inline content is written as: a run per text item, the runs of
/// each link's text items, nothing for a hard break.
pub open spec fn inline_runs(items: Seq<InlineContent>) -> Seq<RunText>
    decreases items.len(),
{
    if items.len() == 0 {
        Seq::empty()
    } else {
        let rest = inline_runs(items.drop_last());
        match items.last() {
            InlineContent::Text { text, styles } => rest.push((text@, styles_marks(styles), None)),
            InlineContent::Link { href, content } => rest + link_runs(href@, content@),
            InlineContent::HardBreak => rest,
        }
    }
}

/// Every run has text.
pub open spec fn all_inserts(runs: Seq<TextRun>) -> bool {
    forall|i: int| 0 <= i < runs.len() ==> (#[trigger] runs[i]).insert is Some
}

/// The mark names of styles.
pub fn styles_to_marks(st: &Styles) -> (r: Vec<String>)
    ensures
        texts(r@) == styles_marks(*st),
{
    let mut marks: Vec<String> = Vec::new();
    let ghost mut acc: Seq<Seq<char>> = Seq::empty();
    proof {
        assert(texts(marks@) =~= acc);
    }
    if st.bold {
        marks.push(owned("bold"));
        proof {
            assert(marks@.drop_last() =~= Seq::<String>::empty());
        }
    }
    proof {
        acc = if st.bold { seq!["bold"@] } else { Seq::empty() };
        assert(texts(marks@) =~= acc);
    }
    let ghost m1 = marks@;
    if st.italic {
        marks.push(owned("italic"));
        proof {
            assert(marks@.drop_last() =~= m1);
        }
    }
    proof {
        acc = acc + if st.italic { seq!["italic"@] } else { Seq::empty() };
        assert(texts(marks@) =~= acc);
    }
    let ghost m2 = marks@;
    if st.underline {
        marks.push(owned("underline"));
        proof {
            assert(marks@.drop_last() =~= m2);
        }
    }
    proof {
        acc = acc + if st.underline { seq!["underline"@] } else { Seq::empty() };
        assert(texts(marks@) =~= acc);
    }
    let ghost m3 = marks@;
    if st.strikethrough {
        marks.push(owned("strike"));
        proof {
            assert(marks@.drop_last() =~= m3);
        }
    }
    proof {
        acc = acc + if st.strikethrough { seq!["strike"@] } else { Seq::empty() };
        assert(texts(marks@) =~= acc);
    }
    let ghost m4 = marks@;
    if st.code {
        marks.push(owned("code"));
        proof {
            assert(marks@.drop_last() =~= m4);
        }
    }
    proof {
        acc = acc + if st.code { seq!["code"@] } else { Seq::empty() };
        assert(texts(marks@) =~= acc);
        assert(acc =~= styles_marks(*st));
    }
    marks
}

/// Append a run.
fn push_run(runs: &mut Vec<TextRun>, text: &String, styles: &Styles, link: &Option<String>)
    ensures
        all_inserts(old(runs)@) ==> all_inserts(final(runs)@),
        runs_text(final(runs)@) == runs_text(old(runs)@).push((text@, styles_marks(*styles), opt_text(*link))),
{
    let link_copy = match link {
        Some(l) => Some(l.clone()),
        None => None,
    };
    runs.push(TextRun { insert: Some(text.clone()), marks: styles_to_marks(styles), link: link_copy });
    proof {
        assert(runs@.drop_last() =~= old(runs)@);
    }
}

/// Write inline content as text runs: each text item one run; each text item
/// of a link one run with the link's target; hard breaks are not written.
pub fn encode_inline_content(inlines: &[InlineContent]) -> (r: Vec<TextRun>)
    ensures
        all_inserts(r@),
        runs_text(r@) == inline_runs(inlines@),
{
    let mut runs: Vec<TextRun> = Vec::new();
    let mut i: usize = 0;
    proof {
        assert(inlines@.take(0) =~= Seq::<InlineContent>::empty());
        assert(runs_text(runs@) =~= Seq::<RunText>::empty());
    }
    while i < inlines.len()
        invariant
            i <= inlines.len(),
            all_inserts(runs@),
            runs_text(runs@) == inline_runs(inlines@.take(i as int)),
        decreases inlines.len() - i,
    {
        proof {
            assert(inlines@.take(i + 1).drop_last() =~= inlines@.take(i as int));
            assert(inlines@.take(i + 1).last() == inlines@[i as int]);
        }
        match &inlines[i] {
            InlineContent::Text { text, styles } => {
                push_run(&mut runs, text, styles, &None);
            },
            InlineContent::Link { href, content } => {
                let ghost before = runs_text(runs@);
                let link = Some(href.clone());
                let mut j: usize = 0;
                proof {
                    assert(content@.take(0) =~= Seq::<InlineContent>::empty());
                    assert(before + link_runs(href@, Seq::<InlineContent>::empty()) =~= before);
                }
                while j < content.len()
                    invariant
                        j <= content.len(),
                        all_inserts(runs@),
                        link == Some(*href),
                        runs_text(runs@) == before + link_runs(href@, content@.take(j as int)),
                    decreases content.len() - j,
                {
                    proof {
                        assert(content@.take(j + 1).drop_last() =~= content@.take(j as int));
                        assert(content@.take(j + 1).last() == content@[j as int]);
                    }
                    match &content[j] {
                        InlineContent::Text { text, styles } => {
                            push_run(&mut runs, text, styles, &link);
                            proof {
                                assert(runs_text(runs@) =~= before + link_runs(href@, content@.take(j + 1)));
                            }
                        },
                        _ => {},
                    }
                    j += 1;
                }
                proof {
                    assert(content@.take(content@.len() as int) =~= content@);
                }
            },
            InlineContent::HardBreak => {},
        }
        i += 1;
    }
    proof {
        assert(inlines@.take(inlines@.len() as int) =~= inlines@);
    }
    runs
}

// ── Tables and blocks → elements ────────────────────────────

/// Numbers in decimal, separated by commas.
pub open spec fn join_widths(ws: Seq<u32>) -> Seq<char>
    decreases ws.len(),
{
    if ws.len() == 0 {
        Seq::empty()
    } else if ws.len() == 1 {
        decimal_spec(ws[0] as nat)
    } else {
        join_widths(ws.drop_last()) + ","@ + decimal_spec(ws.last() as nat)
    }
}

/// Write numbers in decimal, separated by commas.
pub fn widths_to_text(ws: &[u32]) -> (r: String)
    ensures
        r@ == join_widths(ws@),
{
    let mut out = String::new();
    let mut i: usize = 0;
    proof {
        assert(ws@.take(0) =~= Seq::<u32>::empty());
    }
    while i < ws.len()
        invariant
            i <= ws.len(),
            out@ == join_widths(ws@.take(i as int)),
        decreases ws.len() - i,
    {
        proof {
            assert(ws@.take(i + 1).drop_last() =~= ws@.take(i as int));
            assert(ws@.take(i + 1).last() == ws@[i as int]);
            if i == 0 {
                assert(ws@.take(1) =~= seq![ws@[0]]);
            }
        }
        if i > 0 {
            push_str(&mut out, ",");
        }
        let d = decimal_text(ws[i] as u128);
        push_str(&mut out, d.as_str());
        proof {
            reveal_strlit(",");
            if i == 0 {
                assert(out@ =~= join_widths(ws@.take(1)));
            } else {
                assert(out@ =~= join_widths(ws@.take(i + 1)));
            }
        }
        i += 1;
    }
    proof {
        assert(ws@.take(ws@.len() as int) =~= ws@);
    }
    out
}

/// The attributes a table cell's props are written as.
pub open spec fn cell_attrs(p: TableCellProps) -> Seq<(Seq<char>, Seq<char>)> {
    seq![
        ("backgroundColor"@, p.background_color@),
        ("textColor"@, p.text_color@),
        ("textAlignment"@, p.text_alignment@),
        ("colspan"@, decimal_spec(p.colspan as nat)),
        ("rowspan"@, decimal_spec(p.rowspan as nat)),
    ] + match p.colwidth {
        Some(w) => seq![("colwidth"@, join_widths(w@))],
        None => Seq::empty(),
    }
}

/// The element a table cell is written as: tagged by its type, with its props
/// as attributes, holding a `tableParagraph` element with its text, if any.
pub open spec fn cell_encoded_ok(c: TableCell, n: XmlNode) -> bool {
    &&& n is Element
    &&& n->Element_0.tag@ == match c.cell_type {
        TableCellType::TableCell => "tableCell"@,
        TableCellType::TableHeader => "tableHeader"@,
    }
    &&& all_set(n->Element_0.attrs@)
    &&& attrs_text(n->Element_0.attrs@) == cell_attrs(c.props)
    &&& n->Element_0.children@.len() == 1
    &&& n->Element_0.children@[0] is Element
    &&& n->Element_0.children@[0]->Element_0.tag@ == "tableParagraph"@
    &&& n->Element_0.children@[0]->Element_0.attrs@.len() == 0
    &&& if c.content@.len() == 0 {
        n->Element_0.children@[0]->Element_0.children@.len() == 0
    } else {
        n->Element_0.children@[0]->Element_0.children@.len() == 1
            && (n->Element_0.children@[0]->Element_0.children@[0] matches XmlNode::Text(runs)
            && all_inserts(runs@) && runs_text(runs@) == inline_runs(c.content@))
    }
}

/// The elements table content is written as: a `tableRow` element per row,
/// holding an element per cell.
pub open spec fn table_encoded_ok(tc: TableContent, rows: Seq<XmlNode>) -> bool {
    &&& rows.len() == tc.rows@.len()
    &&& forall|i: int| 0 <= i < rows.len() ==> {
        let n = #[trigger] rows[i];
        &&& n is Element
        &&& n->Element_0.tag@ == "tableRow"@
        &&& n->Element_0.attrs@.len() == 0
        &&& n->Element_0.children@.len() == tc.rows@[i].cells@.len()
        &&& forall|j: int| 0 <= j < tc.rows@[i].cells@.len() ==> cell_encoded_ok(
            tc.rows@[i].cells@[j],
            #[trigger] n->Element_0.children@[j],
        )
    }
}

/// Write a table cell.
fn encode_cell(cell: &TableCell) -> (r: XmlNode)
    ensures
        cell_encoded_ok(*cell, r),
{
    let mut attrs: Vec<(String, Option<String>)> = Vec::new();
    proof {
        assert(attrs_text(attrs@) =~= Seq::<(Seq<char>, Seq<char>)>::empty());
    }
    push_attr(&mut attrs, "backgroundColor", cell.props.background_color.clone());
    push_attr(&mut attrs, "textColor", cell.props.text_color.clone());
    push_attr(&mut attrs, "textAlignment", cell.props.text_alignment.clone());
    push_attr(&mut attrs, "colspan", decimal_text(cell.props.colspan as u128));
    push_attr(&mut attrs, "rowspan", decimal_text(cell.props.rowspan as u128));
    match &cell.props.colwidth {
        Some(w) => {
            push_attr(&mut attrs, "colwidth", widths_to_text(w.as_slice()));
        },
        None => {},
    }
    proof {
        assert(attrs_text(attrs@) =~= cell_attrs(cell.props));
    }
    let mut para_children: Vec<XmlNode> = Vec::new();
    if cell.content.len() > 0 {
        para_children.push(XmlNode::Text(encode_inline_content(cell.content.as_slice())));
    }
    let para = XmlNode::Element(XmlElement { tag: owned("tableParagraph"), attrs: Vec::new(), children: para_children });
    let tag = match cell.cell_type {
        TableCellType::TableCell => owned("tableCell"),
        TableCellType::TableHeader => owned("tableHeader"),
    };
    XmlNode::Element(XmlElement { tag, attrs, children: vec![para] })
}

/// Write table content as row elements.
pub fn encode_table(table: &TableContent) -> (r: Vec<XmlNode>)
    ensures
        table_encoded_ok(*table, r@),
{
    let mut rows: Vec<XmlNode> = Vec::new();
    let mut i: usize = 0;
    while i < table.rows.len()
        invariant
            i <= table.rows.len(),
            rows@.len() == i,
            forall|k: int| 0 <= k < i ==> {
                let n = #[trigger] rows@[k];
                &&& n is Element
                &&& n->Element_0.tag@ == "tableRow"@
                &&& n->Element_0.attrs@.len() == 0
                &&& n->Element_0.children@.len() == table.rows@[k].cells@.len()
                &&& forall|j: int| 0 <= j < table.rows@[k].cells@.len() ==> cell_encoded_ok(
                    table.rows@[k].cells@[j],
                    #[trigger] n->Element_0.children@[j],
                )
            },
        decreases table.rows.len() - i,
    {
        let row = &table.rows[i];
        let mut cells: Vec<XmlNode> = Vec::new();
        let mut j: usize = 0;
        while j < row.cells.len()
            invariant
                j <= row.cells.len(),
                cells@.len() == j,
                forall|m: int| 0 <= m < j ==> cell_encoded_ok(row.cells@[m], #[trigger] cells@[m]),
            decreases row.cells.len() - j,
        {
            cells.push(encode_cell(&row.cells[j]));
            j += 1;
        }
        rows.push(XmlNode::Element(XmlElement { tag: owned("tableRow"), attrs: Vec::new(), children: cells }));
        i += 1;
    }
    rows
}

/// The props a block is written with: the defaults of its type, overridden
/// by its own.
pub open spec fn props_with_defaults_ok(t: BlockType, own: Props, p: Props) -> bool {
    exists|d: Props| default_props_spec(t, d) && #[trigger] merged(d, own, p)
}

/// The element a block is written as: a `blockContainer` element with the
/// block's id (or a new one when it has none) and its props with defaults as
/// attributes, holding an element named after the block type (with the same
/// props, and the block's text or table), then a `blockGroup` of its children
/// when it has any.
pub open spec fn block_encoded_ok(b: Block, n: XmlNode) -> bool
    decreases b,
{
    &&& n is Element
    &&& n->Element_0.tag@ == "blockContainer"@
    &&& all_set(n->Element_0.attrs@)
    &&& attrs_text(n->Element_0.attrs@).len() > 0
    &&& attrs_text(n->Element_0.attrs@)[0].0 == "id"@
    &&& (b.id@.len() > 0 ==> attrs_text(n->Element_0.attrs@)[0].1 == b.id@)
    &&& exists|p: Props| #[trigger] props_with_defaults_ok(b.block_type, b.props, p)
        && attrs_text(n->Element_0.attrs@).skip(1) == props_attrs(p)
        && n->Element_0.children@.len() > 0
        && n->Element_0.children@[0] is Element
        && attrs_text(n->Element_0.children@[0]->Element_0.attrs@) == props_attrs(p)
        && all_set(n->Element_0.children@[0]->Element_0.attrs@)
    &&& n->Element_0.children@.len() == if b.children@.len() > 0 { 2int } else { 1int }
    &&& n->Element_0.children@[0]->Element_0.tag@ == block_type_name(b.block_type)
    &&& match b.content {
        BlockContent::Inline(v) => if has_inline_content_spec(b.block_type) && v@.len() > 0 {
            n->Element_0.children@[0]->Element_0.children@.len() == 1
                && (n->Element_0.children@[0]->Element_0.children@[0] matches XmlNode::Text(runs)
                && all_inserts(runs@) && runs_text(runs@) == inline_runs(v@))
        } else {
            n->Element_0.children@[0]->Element_0.children@.len() == 0
        },
        BlockContent::Table(t) => table_encoded_ok(t, n->Element_0.children@[0]->Element_0.children@),
        BlockContent::Empty => n->Element_0.children@[0]->Element_0.children@.len() == 0,
    }
    &&& b.children@.len() > 0 ==> {
        let g = n->Element_0.children@[1];
        &&& g is Element
        &&& g->Element_0.tag@ == "blockGroup"@
        &&& g->Element_0.attrs@.len() == 0
        &&& g->Element_0.children@.len() == b.children@.len()
        &&& forall|i: int| 0 <= i < b.children@.len() ==> block_encoded_ok(
            #[trigger] b.children@[i],
            g->Element_0.children@[i],
        )
    }
}

/// Write a block as a container element; a block without an id gets one from
/// the generator.
pub fn encode_block<G: IdGenerator>(block: &Block, id_gen: &mut G) -> (r: XmlNode)
    ensures
        block_encoded_ok(*block, r),
    decreases block, 1int,
{
    let id = if block.id.as_str().unicode_len() == 0 {
        id_gen.next_id()
    } else {
        block.id.clone()
    };
    let props = block.block_type.props_with_defaults(&block.props);
    let mut attrs: Vec<(String, Option<String>)> = Vec::new();
    proof {
        assert(attrs_text(attrs@) =~= Seq::<(Seq<char>, Seq<char>)>::empty());
    }
    push_attr(&mut attrs, "id", id);
    let mut props_list = props_to_attrs(&props);
    let ghost a0 = attrs@;
    let ghost pl = props_list@;
    attrs.append(&mut props_list);
    proof {
        reveal_strlit("id");
        lemma_attrs_text_add(a0, pl);
        assert(attrs@ == a0 + pl);
        assert(attrs_text(attrs@).skip(1) =~= props_attrs(props));
        assert forall|i: int| 0 <= i < attrs@.len() implies (#[trigger] attrs@[i]).1 is Some by {
            if i >= a0.len() {
                assert(attrs@[i] == pl[i - a0.len()]);
            }
        }
    }
    let content_children: Vec<XmlNode> = match &block.content {
        BlockContent::Inline(inlines) => {
            if block.block_type.has_inline_content() && inlines.len() > 0 {
                vec![XmlNode::Text(encode_inline_content(inlines.as_slice()))]
            } else {
                Vec::new()
            }
        },
        BlockContent::Table(table) => encode_table(table),
        BlockContent::Empty => Vec::new(),
    };
    let content_elem = XmlNode::Element(XmlElement {
        tag: owned(block.block_type.name()),
        attrs: props_to_attrs(&props),
        children: content_children,
    });
    let mut children: Vec<XmlNode> = vec![content_elem];
    if block.children.len() > 0 {
        let mut group_children: Vec<XmlNode> = Vec::new();
        let mut i: usize = 0;
        while i < block.children.len()
            invariant
                i <= block.children.len(),
                group_children@.len() == i,
                forall|k: int| 0 <= k < i ==> block_encoded_ok(#[trigger] block.children@[k], group_children@[k]),
            decreases block.children.len() - i,
        {
            proof {
                assert(decreases_to!(*block => block.children));
                assert(decreases_to!(block.children => block.children@));
                assert(decreases_to!(block.children@ => block.children@[i as int]));
            }
            group_children.push(encode_block(&block.children[i], id_gen));
            i += 1;
        }
        children.push(XmlNode::Element(XmlElement { tag: owned("blockGroup"), attrs: Vec::new(), children: group_children }));
    }
    let r = XmlNode::Element(XmlElement { tag: owned("blockContainer"), attrs, children });
    proof {
        assert(props_with_defaults_ok(block.block_type, block.props, props));
    }
    r
}

/// The `blockGroup` element that blocks are written as: one container per
/// block, in order.
pub open spec fn fragment_encoded_ok(blocks: Seq<Block>, r: XmlNode) -> bool {
    &&& r is Element
    &&& r->Element_0.tag@ == "blockGroup"@
    &&& r->Element_0.attrs@.len() == 0
    &&& r->Element_0.children@.len() == blocks.len()
    &&& forall|i: int| 0 <= i < blocks.len() ==> block_encoded_ok(#[trigger] blocks[i], r->Element_0.children@[i])
}

/// Write blocks as the `blockGroup` element of a document.
pub fn blocks_to_fragment<G: IdGenerator>(blocks: &[Block], id_gen: &mut G) -> (r: XmlNode)
    ensures
        fragment_encoded_ok(blocks@, r),
{
    let mut children: Vec<XmlNode> = Vec::new();
    let mut i: usize = 0;
    while i < blocks.len()
        invariant
            i <= blocks.len(),
            children@.len() == i,
            forall|k: int| 0 <= k < i ==> block_encoded_ok(#[trigger] blocks@[k], children@[k]),
        decreases blocks.len() - i,
    {
        children.push(encode_block(&blocks[i], id_gen));
        i += 1;
    }
    XmlNode::Element(XmlElement { tag: owned("blockGroup"), attrs: Vec::new(), children })
}

// ── Laws ────────────────────────────────────────────────────

/// The value given last to a key among key/value texts.
pub open spec fn lookup_text(a: Seq<(Seq<char>, Seq<char>)>, key: Seq<char>) -> Option<Seq<char>>
    decreases a.len(),
{
    if a.len() == 0 {
        None
    } else if a.last().0 == key {
        Some(a.last().1)
    } else {
        lookup_text(a.drop_last(), key)
    }
}

/// With every value set, the text of a key is its last value.
proof fn lemma_attr_text_lookup(a: Seq<(String, Option<String>)>, key: Seq<char>)
    requires
        all_set(a),
    ensures
        attr_text(a, key) == lookup_text(attrs_text(a), key),
    decreases a.len(),
{
    if a.len() > 0 {
        assert(a.last().1 is Some);
        assert(all_set(a.drop_last())) by {
            assert forall|i: int| 0 <= i < a.drop_last().len() implies (#[trigger] a.drop_last()[i]).1 is Some by {
                assert(a.drop_last()[i] == a[i]);
            }
        }
        lemma_attr_text_lookup(a.drop_last(), key);
        let t = attrs_text(a);
        assert(t == attrs_text(a.drop_last()).push((a.last().0@, a.last().1->0@)));
        assert(t.drop_last() =~= attrs_text(a.drop_last()));
        assert(t.last() == (a.last().0@, a.last().1->0@));
    }
}

/// The last value of a key in joined lists: from the second if it has the
/// key, else from the first.
proof fn lemma_lookup_add(a: Seq<(Seq<char>, Seq<char>)>, b: Seq<(Seq<char>, Seq<char>)>, key: Seq<char>)
    ensures
        lookup_text(a + b, key) == match lookup_text(b, key) {
            Some(v) => Some(v),
            None => lookup_text(a, key),
        },
    decreases b.len(),
{
    if b.len() == 0 {
        assert(a + b =~= a);
    } else {
        assert((a + b).drop_last() =~= a + b.drop_last());
        lemma_lookup_add(a, b.drop_last(), key);
    }
}

/// The other props' entries hold only their own keys.
proof fn lemma_other_attrs_lookup(o: Seq<(String, String)>, key: Seq<char>)
    ensures
        lookup_text(other_attrs(o), key) == other_lookup(o, key),
    decreases o.len(),
{
    if o.len() > 0 {
        lemma_other_attrs_lookup(o.drop_last(), key);
        let t = other_attrs(o);
        assert(t.drop_last() =~= other_attrs(o.drop_last()));
        assert(t.last() == (o.last().0@, o.last().1@));
    }
}

/// A one-key attribute list.
proof fn lemma_lookup_opt(k: Seq<char>, v: Option<Seq<char>>, key: Seq<char>)
    ensures
        lookup_text(opt_attr(k, v), key) == if k == key { v } else { None },
{
    if v is Some {
        let t = opt_attr(k, v);
        assert(t.drop_last() =~= Seq::<(Seq<char>, Seq<char>)>::empty());
        assert(t.last() == (k, v->0));
        assert(lookup_text(Seq::<(Seq<char>, Seq<char>)>::empty(), key) is None);
    } else {
        assert(opt_attr(k, v).len() == 0);
    }
}

/// Whether no other prop has the key of a known prop.
pub open spec fn others_unknown(p: Props) -> bool {
    forall|k: Seq<char>| known_prop_key(k) ==> #[trigger] other_lookup(p.other@, k) is None
}

/// Reading back the attributes that props are written as gives the props
/// back, when no other prop has the key of a known prop: every known prop has
/// the same value, and every other key the same value.
pub proof fn lemma_props_roundtrip(p: Props, attrs: Seq<(String, Option<String>)>, q: Props)
    requires
        all_set(attrs),
        attrs_text(attrs) == props_attrs(p),
        others_unknown(p),
        props_from_attrs_ok(attrs, q),
    ensures
        opt_text(q.text_color) == opt_text(p.text_color),
        opt_text(q.background_color) == opt_text(p.background_color),
        opt_text(q.text_alignment) == opt_text(p.text_alignment),
        q.level == p.level,
        q.is_toggleable == p.is_toggleable,
        q.checked == p.checked,
        q.start == p.start,
        opt_text(q.language) == opt_text(p.language),
        opt_text(q.name) == opt_text(p.name),
        opt_text(q.url) == opt_text(p.url),
        opt_text(q.caption) == opt_text(p.caption),
        q.show_preview == p.show_preview,
        q.preview_width == p.preview_width,
        forall|k: Seq<char>| #[trigger] other_lookup(q.other@, k) == other_lookup(p.other@, k),
{
    lemma_known_keys_distinct();
    reveal_strlit("true");
    reveal_strlit("false");
    assert("true"@.len() != "false"@.len());
    let level_n: Option<nat> = match p.level { Some(v) => Some(v as nat), None => None };
    let start_n: Option<nat> = match p.start { Some(v) => Some(v as nat), None => None };
    let width_n: Option<nat> = match p.preview_width { Some(v) => Some(v as nat), None => None };
    let x0 = Seq::<(Seq<char>, Seq<char>)>::empty();
    let x1 = x0 + opt_attr("textColor"@, opt_text(p.text_color));
    let x2 = x1 + opt_attr("backgroundColor"@, opt_text(p.background_color));
    let x3 = x2 + opt_attr("textAlignment"@, opt_text(p.text_alignment));
    let x4 = x3 + opt_attr("level"@, opt_num(level_n));
    let x5 = x4 + opt_attr("isToggleable"@, opt_flag(p.is_toggleable));
    let x6 = x5 + opt_attr("checked"@, opt_flag(p.checked));
    let x7 = x6 + opt_attr("start"@, opt_num(start_n));
    let x8 = x7 + opt_attr("language"@, opt_text(p.language));
    let x9 = x8 + opt_attr("name"@, opt_text(p.name));
    let x10 = x9 + opt_attr("url"@, opt_text(p.url));
    let x11 = x10 + opt_attr("caption"@, opt_text(p.caption));
    let x12 = x11 + opt_attr("showPreview"@, opt_flag(p.show_preview));
    let x13 = x12 + opt_attr("previewWidth"@, opt_num(width_n));
    let all = x13 + other_attrs(p.other@);
    assert(x1 =~= opt_attr("textColor"@, opt_text(p.text_color)));
    assert(all =~= props_attrs(p));
    assert forall|k: Seq<char>| #[trigger] lookup_text(all, k) == if known_prop_key(k) {
        lookup_text(x13, k)
    } else {
        other_lookup(p.other@, k)
    } by {
        lemma_lookup_add(x13, other_attrs(p.other@), k);
        lemma_other_attrs_lookup(p.other@, k);
        lemma_lookup_add(x0, opt_attr("textColor"@, opt_text(p.text_color)), k);
        lemma_lookup_opt("textColor"@, opt_text(p.text_color), k);
        lemma_lookup_add(x1, opt_attr("backgroundColor"@, opt_text(p.background_color)), k);
        lemma_lookup_opt("backgroundColor"@, opt_text(p.background_color), k);
        lemma_lookup_add(x2, opt_attr("textAlignment"@, opt_text(p.text_alignment)), k);
        lemma_lookup_opt("textAlignment"@, opt_text(p.text_alignment), k);
        lemma_lookup_add(x3, opt_attr("level"@, opt_num(level_n)), k);
        lemma_lookup_opt("level"@, opt_num(level_n), k);
        lemma_lookup_add(x4, opt_attr("isToggleable"@, opt_flag(p.is_toggleable)), k);
        lemma_lookup_opt("isToggleable"@, opt_flag(p.is_toggleable), k);
        lemma_lookup_add(x5, opt_attr("checked"@, opt_flag(p.checked)), k);
        lemma_lookup_opt("checked"@, opt_flag(p.checked), k);
        lemma_lookup_add(x6, opt_attr("start"@, opt_num(start_n)), k);
        lemma_lookup_opt("start"@, opt_num(start_n), k);
        lemma_lookup_add(x7, opt_attr("language"@, opt_text(p.language)), k);
        lemma_lookup_opt("language"@, opt_text(p.language), k);
        lemma_lookup_add(x8, opt_attr("name"@, opt_text(p.name)), k);
        lemma_lookup_opt("name"@, opt_text(p.name), k);
        lemma_lookup_add(x9, opt_attr("url"@, opt_text(p.url)), k);
        lemma_lookup_opt("url"@, opt_text(p.url), k);
        lemma_lookup_add(x10, opt_attr("caption"@, opt_text(p.caption)), k);
        lemma_lookup_opt("caption"@, opt_text(p.caption), k);
        lemma_lookup_add(x11, opt_attr("showPreview"@, opt_flag(p.show_preview)), k);
        lemma_lookup_opt("showPreview"@, opt_flag(p.show_preview), k);
        lemma_lookup_add(x12, opt_attr("previewWidth"@, opt_num(width_n)), k);
        lemma_lookup_opt("previewWidth"@, opt_num(width_n), k);
        if !known_prop_key(k) {
            assert(lookup_text(x13, k) is None);
        }
    }
    assert forall|k: Seq<char>| #[trigger] attr_text(attrs, k) == lookup_text(all, k) by {
        lemma_attr_text_lookup(attrs, k);
    }
    assert(lookup_text(all, "textColor"@) == opt_text(p.text_color)) by {
        lemma_lookup_add(x0, opt_attr("textColor"@, opt_text(p.text_color)), "textColor"@);
        lemma_lookup_opt("textColor"@, opt_text(p.text_color), "textColor"@);
        lemma_lookup_add(x1, opt_attr("backgroundColor"@, opt_text(p.background_color)), "textColor"@);
        lemma_lookup_opt("backgroundColor"@, opt_text(p.background_color), "textColor"@);
        lemma_lookup_add(x2, opt_attr("textAlignment"@, opt_text(p.text_alignment)), "textColor"@);
        lemma_lookup_opt("textAlignment"@, opt_text(p.text_alignment), "textColor"@);
        lemma_lookup_add(x3, opt_attr("level"@, opt_num(level_n)), "textColor"@);
        lemma_lookup_opt("level"@, opt_num(level_n), "textColor"@);
        lemma_lookup_add(x4, opt_attr("isToggleable"@, opt_flag(p.is_toggleable)), "textColor"@);
        lemma_lookup_opt("isToggleable"@, opt_flag(p.is_toggleable), "textColor"@);
        lemma_lookup_add(x5, opt_attr("checked"@, opt_flag(p.checked)), "textColor"@);
        lemma_lookup_opt("checked"@, opt_flag(p.checked), "textColor"@);
        lemma_lookup_add(x6, opt_attr("start"@, opt_num(start_n)), "textColor"@);
        lemma_lookup_opt("start"@, opt_num(start_n), "textColor"@);
        lemma_lookup_add(x7, opt_attr("language"@, opt_text(p.language)), "textColor"@);
        lemma_lookup_opt("language"@, opt_text(p.language), "textColor"@);
        lemma_lookup_add(x8, opt_attr("name"@, opt_text(p.name)), "textColor"@);
        lemma_lookup_opt("name"@, opt_text(p.name), "textColor"@);
        lemma_lookup_add(x9, opt_attr("url"@, opt_text(p.url)), "textColor"@);
        lemma_lookup_opt("url"@, opt_text(p.url), "textColor"@);
        lemma_lookup_add(x10, opt_attr("caption"@, opt_text(p.caption)), "textColor"@);
        lemma_lookup_opt("caption"@, opt_text(p.caption), "textColor"@);
        lemma_lookup_add(x11, opt_attr("showPreview"@, opt_flag(p.show_preview)), "textColor"@);
        lemma_lookup_opt("showPreview"@, opt_flag(p.show_preview), "textColor"@);
        lemma_lookup_add(x12, opt_attr("previewWidth"@, opt_num(width_n)), "textColor"@);
        lemma_lookup_opt("previewWidth"@, opt_num(width_n), "textColor"@);
    }
    assert(lookup_text(all, "backgroundColor"@) == opt_text(p.background_color)) by {
        lemma_lookup_add(x0, opt_attr("textColor"@, opt_text(p.text_color)), "backgroundColor"@);
        lemma_lookup_opt("textColor"@, opt_text(p.text_color), "backgroundColor"@);
        lemma_lookup_add(x1, opt_attr("backgroundColor"@, opt_text(p.background_color)), "backgroundColor"@);
        lemma_lookup_opt("backgroundColor"@, opt_text(p.background_color), "backgroundColor"@);
        lemma_lookup_add(x2, opt_attr("textAlignment"@, opt_text(p.text_alignment)), "backgroundColor"@);
        lemma_lookup_opt("textAlignment"@, opt_text(p.text_alignment), "backgroundColor"@);
        lemma_lookup_add(x3, opt_attr("level"@, opt_num(level_n)), "backgroundColor"@);
        lemma_lookup_opt("level"@, opt_num(level_n), "backgroundColor"@);
        lemma_lookup_add(x4, opt_attr("isToggleable"@, opt_flag(p.is_toggleable)), "backgroundColor"@);
        lemma_lookup_opt("isToggleable"@, opt_flag(p.is_toggleable), "backgroundColor"@);
        lemma_lookup_add(x5, opt_attr("checked"@, opt_flag(p.checked)), "backgroundColor"@);
        lemma_lookup_opt("checked"@, opt_flag(p.checked), "backgroundColor"@);
        lemma_lookup_add(x6, opt_attr("start"@, opt_num(start_n)), "backgroundColor"@);
        lemma_lookup_opt("start"@, opt_num(start_n), "backgroundColor"@);
        lemma_lookup_add(x7, opt_attr("language"@, opt_text(p.language)), "backgroundColor"@);
        lemma_lookup_opt("language"@, opt_text(p.language), "backgroundColor"@);
        lemma_lookup_add(x8, opt_attr("name"@, opt_text(p.name)), "backgroundColor"@);
        lemma_lookup_opt("name"@, opt_text(p.name), "backgroundColor"@);
        lemma_lookup_add(x9, opt_attr("url"@, opt_text(p.url)), "backgroundColor"@);
        lemma_lookup_opt("url"@, opt_text(p.url), "backgroundColor"@);
        lemma_lookup_add(x10, opt_attr("caption"@, opt_text(p.caption)), "backgroundColor"@);
        lemma_lookup_opt("caption"@, opt_text(p.caption), "backgroundColor"@);
        lemma_lookup_add(x11, opt_attr("showPreview"@, opt_flag(p.show_preview)), "backgroundColor"@);
        lemma_lookup_opt("showPreview"@, opt_flag(p.show_preview), "backgroundColor"@);
        lemma_lookup_add(x12, opt_attr("previewWidth"@, opt_num(width_n)), "backgroundColor"@);
        lemma_lookup_opt("previewWidth"@, opt_num(width_n), "backgroundColor"@);
    }
    assert(lookup_text(all, "textAlignment"@) == opt_text(p.text_alignment)) by {
        lemma_lookup_add(x0, opt_attr("textColor"@, opt_text(p.text_color)), "textAlignment"@);
        lemma_lookup_opt("textColor"@, opt_text(p.text_color), "textAlignment"@);
        lemma_lookup_add(x1, opt_attr("backgroundColor"@, opt_text(p.background_color)), "textAlignment"@);
        lemma_lookup_opt("backgroundColor"@, opt_text(p.background_color), "textAlignment"@);
        lemma_lookup_add(x2, opt_attr("textAlignment"@, opt_text(p.text_alignment)), "textAlignment"@);
        lemma_lookup_opt("textAlignment"@, opt_text(p.text_alignment), "textAlignment"@);
        lemma_lookup_add(x3, opt_attr("level"@, opt_num(level_n)), "textAlignment"@);
        lemma_lookup_opt("level"@, opt_num(level_n), "textAlignment"@);
        lemma_lookup_add(x4, opt_attr("isToggleable"@, opt_flag(p.is_toggleable)), "textAlignment"@);
        lemma_lookup_opt("isToggleable"@, opt_flag(p.is_toggleable), "textAlignment"@);
        lemma_lookup_add(x5, opt_attr("checked"@, opt_flag(p.checked)), "textAlignment"@);
        lemma_lookup_opt("checked"@, opt_flag(p.checked), "textAlignment"@);
        lemma_lookup_add(x6, opt_attr("start"@, opt_num(start_n)), "textAlignment"@);
        lemma_lookup_opt("start"@, opt_num(start_n), "textAlignment"@);
        lemma_lookup_add(x7, opt_attr("language"@, opt_text(p.language)), "textAlignment"@);
        lemma_lookup_opt("language"@, opt_text(p.language), "textAlignment"@);
        lemma_lookup_add(x8, opt_attr("name"@, opt_text(p.name)), "textAlignment"@);
        lemma_lookup_opt("name"@, opt_text(p.name), "textAlignment"@);
        lemma_lookup_add(x9, opt_attr("url"@, opt_text(p.url)), "textAlignment"@);
        lemma_lookup_opt("url"@, opt_text(p.url), "textAlignment"@);
        lemma_lookup_add(x10, opt_attr("caption"@, opt_text(p.caption)), "textAlignment"@);
        lemma_lookup_opt("caption"@, opt_text(p.caption), "textAlignment"@);
        lemma_lookup_add(x11, opt_attr("showPreview"@, opt_flag(p.show_preview)), "textAlignment"@);
        lemma_lookup_opt("showPreview"@, opt_flag(p.show_preview), "textAlignment"@);
        lemma_lookup_add(x12, opt_attr("previewWidth"@, opt_num(width_n)), "textAlignment"@);
        lemma_lookup_opt("previewWidth"@, opt_num(width_n), "textAlignment"@);
    }
    assert(lookup_text(all, "level"@) == opt_num(level_n)) by {
        lemma_lookup_add(x0, opt_attr("textColor"@, opt_text(p.text_color)), "level"@);
        lemma_lookup_opt("textColor"@, opt_text(p.text_color), "level"@);
        lemma_lookup_add(x1, opt_attr("backgroundColor"@, opt_text(p.background_color)), "level"@);
        lemma_lookup_opt("backgroundColor"@, opt_text(p.background_color), "level"@);
        lemma_lookup_add(x2, opt_attr("textAlignment"@, opt_text(p.text_alignment)), "level"@);
        lemma_lookup_opt("textAlignment"@, opt_text(p.text_alignment), "level"@);
        lemma_lookup_add(x3, opt_attr("level"@, opt_num(level_n)), "level"@);
        lemma_lookup_opt("level"@, opt_num(level_n), "level"@);
        lemma_lookup_add(x4, opt_attr("isToggleable"@, opt_flag(p.is_toggleable)), "level"@);
        lemma_lookup_opt("isToggleable"@, opt_flag(p.is_toggleable), "level"@);
        lemma_lookup_add(x5, opt_attr("checked"@, opt_flag(p.checked)), "level"@);
        lemma_lookup_opt("checked"@, opt_flag(p.checked), "level"@);
        lemma_lookup_add(x6, opt_attr("start"@, opt_num(start_n)), "level"@);
        lemma_lookup_opt("start"@, opt_num(start_n), "level"@);
        lemma_lookup_add(x7, opt_attr("language"@, opt_text(p.language)), "level"@);
        lemma_lookup_opt("language"@, opt_text(p.language), "level"@);
        lemma_lookup_add(x8, opt_attr("name"@, opt_text(p.name)), "level"@);
        lemma_lookup_opt("name"@, opt_text(p.name), "level"@);
        lemma_lookup_add(x9, opt_attr("url"@, opt_text(p.url)), "level"@);
        lemma_lookup_opt("url"@, opt_text(p.url), "level"@);
        lemma_lookup_add(x10, opt_attr("caption"@, opt_text(p.caption)), "level"@);
        lemma_lookup_opt("caption"@, opt_text(p.caption), "level"@);
        lemma_lookup_add(x11, opt_attr("showPreview"@, opt_flag(p.show_preview)), "level"@);
        lemma_lookup_opt("showPreview"@, opt_flag(p.show_preview), "level"@);
        lemma_lookup_add(x12, opt_attr("previewWidth"@, opt_num(width_n)), "level"@);
        lemma_lookup_opt("previewWidth"@, opt_num(width_n), "level"@);
    }
    assert(lookup_text(all, "isToggleable"@) == opt_flag(p.is_toggleable)) by {
        lemma_lookup_add(x0, opt_attr("textColor"@, opt_text(p.text_color)), "isToggleable"@);
        lemma_lookup_opt("textColor"@, opt_text(p.text_color), "isToggleable"@);
        lemma_lookup_add(x1, opt_attr("backgroundColor"@, opt_text(p.background_color)), "isToggleable"@);
        lemma_lookup_opt("backgroundColor"@, opt_text(p.background_color), "isToggleable"@);
        lemma_lookup_add(x2, opt_attr("textAlignment"@, opt_text(p.text_alignment)), "isToggleable"@);
        lemma_lookup_opt("textAlignment"@, opt_text(p.text_alignment), "isToggleable"@);
        lemma_lookup_add(x3, opt_attr("level"@, opt_num(level_n)), "isToggleable"@);
        lemma_lookup_opt("level"@, opt_num(level_n), "isToggleable"@);
        lemma_lookup_add(x4, opt_attr("isToggleable"@, opt_flag(p.is_toggleable)), "isToggleable"@);
        lemma_lookup_opt("isToggleable"@, opt_flag(p.is_toggleable), "isToggleable"@);
        lemma_lookup_add(x5, opt_attr("checked"@, opt_flag(p.checked)), "isToggleable"@);
        lemma_lookup_opt("checked"@, opt_flag(p.checked), "isToggleable"@);
        lemma_lookup_add(x6, opt_attr("start"@, opt_num(start_n)), "isToggleable"@);
        lemma_lookup_opt("start"@, opt_num(start_n), "isToggleable"@);
        lemma_lookup_add(x7, opt_attr("language"@, opt_text(p.language)), "isToggleable"@);
        lemma_lookup_opt("language"@, opt_text(p.language), "isToggleable"@);
        lemma_lookup_add(x8, opt_attr("name"@, opt_text(p.name)), "isToggleable"@);
        lemma_lookup_opt("name"@, opt_text(p.name), "isToggleable"@);
        lemma_lookup_add(x9, opt_attr("url"@, opt_text(p.url)), "isToggleable"@);
        lemma_lookup_opt("url"@, opt_text(p.url), "isToggleable"@);
        lemma_lookup_add(x10, opt_attr("caption"@, opt_text(p.caption)), "isToggleable"@);
        lemma_lookup_opt("caption"@, opt_text(p.caption), "isToggleable"@);
        lemma_lookup_add(x11, opt_attr("showPreview"@, opt_flag(p.show_preview)), "isToggleable"@);
        lemma_lookup_opt("showPreview"@, opt_flag(p.show_preview), "isToggleable"@);
        lemma_lookup_add(x12, opt_attr("previewWidth"@, opt_num(width_n)), "isToggleable"@);
        lemma_lookup_opt("previewWidth"@, opt_num(width_n), "isToggleable"@);
    }
    assert(lookup_text(all, "checked"@) == opt_flag(p.checked)) by {
        lemma_lookup_add(x0, opt_attr("textColor"@, opt_text(p.text_color)), "checked"@);
        lemma_lookup_opt("textColor"@, opt_text(p.text_color), "checked"@);
        lemma_lookup_add(x1, opt_attr("backgroundColor"@, opt_text(p.background_color)), "checked"@);
        lemma_lookup_opt("backgroundColor"@, opt_text(p.background_color), "checked"@);
        lemma_lookup_add(x2, opt_attr("textAlignment"@, opt_text(p.text_alignment)), "checked"@);
        lemma_lookup_opt("textAlignment"@, opt_text(p.text_alignment), "checked"@);
        lemma_lookup_add(x3, opt_attr("level"@, opt_num(level_n)), "checked"@);
        lemma_lookup_opt("level"@, opt_num(level_n), "checked"@);
        lemma_lookup_add(x4, opt_attr("isToggleable"@, opt_flag(p.is_toggleable)), "checked"@);
        lemma_lookup_opt("isToggleable"@, opt_flag(p.is_toggleable), "checked"@);
        lemma_lookup_add(x5, opt_attr("checked"@, opt_flag(p.checked)), "checked"@);
        lemma_lookup_opt("checked"@, opt_flag(p.checked), "checked"@);
        lemma_lookup_add(x6, opt_attr("start"@, opt_num(start_n)), "checked"@);
        lemma_lookup_opt("start"@, opt_num(start_n), "checked"@);
        lemma_lookup_add(x7, opt_attr("language"@, opt_text(p.language)), "checked"@);
        lemma_lookup_opt("language"@, opt_text(p.language), "checked"@);
        lemma_lookup_add(x8, opt_attr("name"@, opt_text(p.name)), "checked"@);
        lemma_lookup_opt("name"@, opt_text(p.name), "checked"@);
        lemma_lookup_add(x9, opt_attr("url"@, opt_text(p.url)), "checked"@);
        lemma_lookup_opt("url"@, opt_text(p.url), "checked"@);
        lemma_lookup_add(x10, opt_attr("caption"@, opt_text(p.caption)), "checked"@);
        lemma_lookup_opt("caption"@, opt_text(p.caption), "checked"@);
        lemma_lookup_add(x11, opt_attr("showPreview"@, opt_flag(p.show_preview)), "checked"@);
        lemma_lookup_opt("showPreview"@, opt_flag(p.show_preview), "checked"@);
        lemma_lookup_add(x12, opt_attr("previewWidth"@, opt_num(width_n)), "checked"@);
        lemma_lookup_opt("previewWidth"@, opt_num(width_n), "checked"@);
    }
    assert(lookup_text(all, "start"@) == opt_num(start_n)) by {
        lemma_lookup_add(x0, opt_attr("textColor"@, opt_text(p.text_color)), "start"@);
        lemma_lookup_opt("textColor"@, opt_text(p.text_color), "start"@);
        lemma_lookup_add(x1, opt_attr("backgroundColor"@, opt_text(p.background_color)), "start"@);
        lemma_lookup_opt("backgroundColor"@, opt_text(p.background_color), "start"@);
        lemma_lookup_add(x2, opt_attr("textAlignment"@, opt_text(p.text_alignment)), "start"@);
        lemma_lookup_opt("textAlignment"@, opt_text(p.text_alignment), "start"@);
        lemma_lookup_add(x3, opt_attr("level"@, opt_num(level_n)), "start"@);
        lemma_lookup_opt("level"@, opt_num(level_n), "start"@);
        lemma_lookup_add(x4, opt_attr("isToggleable"@, opt_flag(p.is_toggleable)), "start"@);
        lemma_lookup_opt("isToggleable"@, opt_flag(p.is_toggleable), "start"@);
        lemma_lookup_add(x5, opt_attr("checked"@, opt_flag(p.checked)), "start"@);
        lemma_lookup_opt("checked"@, opt_flag(p.checked), "start"@);
        lemma_lookup_add(x6, opt_attr("start"@, opt_num(start_n)), "start"@);
        lemma_lookup_opt("start"@, opt_num(start_n), "start"@);
        lemma_lookup_add(x7, opt_attr("language"@, opt_text(p.language)), "start"@);
        lemma_lookup_opt("language"@, opt_text(p.language), "start"@);
        lemma_lookup_add(x8, opt_attr("name"@, opt_text(p.name)), "start"@);
        lemma_lookup_opt("name"@, opt_text(p.name), "start"@);
        lemma_lookup_add(x9, opt_attr("url"@, opt_text(p.url)), "start"@);
        lemma_lookup_opt("url"@, opt_text(p.url), "start"@);
        lemma_lookup_add(x10, opt_attr("caption"@, opt_text(p.caption)), "start"@);
        lemma_lookup_opt("caption"@, opt_text(p.caption), "start"@);
        lemma_lookup_add(x11, opt_attr("showPreview"@, opt_flag(p.show_preview)), "start"@);
        lemma_lookup_opt("showPreview"@, opt_flag(p.show_preview), "start"@);
        lemma_lookup_add(x12, opt_attr("previewWidth"@, opt_num(width_n)), "start"@);
        lemma_lookup_opt("previewWidth"@, opt_num(width_n), "start"@);
    }
    assert(lookup_text(all, "language"@) == opt_text(p.language)) by {
        lemma_lookup_add(x0, opt_attr("textColor"@, opt_text(p.text_color)), "language"@);
        lemma_lookup_opt("textColor"@, opt_text(p.text_color), "language"@);
        lemma_lookup_add(x1, opt_attr("backgroundColor"@, opt_text(p.background_color)), "language"@);
        lemma_lookup_opt("backgroundColor"@, opt_text(p.background_color), "language"@);
        lemma_lookup_add(x2, opt_attr("textAlignment"@, opt_text(p.text_alignment)), "language"@);
        lemma_lookup_opt("textAlignment"@, opt_text(p.text_alignment), "language"@);
        lemma_lookup_add(x3, opt_attr("level"@, opt_num(level_n)), "language"@);
        lemma_lookup_opt("level"@, opt_num(level_n), "language"@);
        lemma_lookup_add(x4, opt_attr("isToggleable"@, opt_flag(p.is_toggleable)), "language"@);
        lemma_lookup_opt("isToggleable"@, opt_flag(p.is_toggleable), "language"@);
        lemma_lookup_add(x5, opt_attr("checked"@, opt_flag(p.checked)), "language"@);
        lemma_lookup_opt("checked"@, opt_flag(p.checked), "language"@);
        lemma_lookup_add(x6, opt_attr("start"@, opt_num(start_n)), "language"@);
        lemma_lookup_opt("start"@, opt_num(start_n), "language"@);
        lemma_lookup_add(x7, opt_attr("language"@, opt_text(p.language)), "language"@);
        lemma_lookup_opt("language"@, opt_text(p.language), "language"@);
        lemma_lookup_add(x8, opt_attr("name"@, opt_text(p.name)), "language"@);
        lemma_lookup_opt("name"@, opt_text(p.name), "language"@);
        lemma_lookup_add(x9, opt_attr("url"@, opt_text(p.url)), "language"@);
        lemma_lookup_opt("url"@, opt_text(p.url), "language"@);
        lemma_lookup_add(x10, opt_attr("caption"@, opt_text(p.caption)), "language"@);
        lemma_lookup_opt("caption"@, opt_text(p.caption), "language"@);
        lemma_lookup_add(x11, opt_attr("showPreview"@, opt_flag(p.show_preview)), "language"@);
        lemma_lookup_opt("showPreview"@, opt_flag(p.show_preview), "language"@);
        lemma_lookup_add(x12, opt_attr("previewWidth"@, opt_num(width_n)), "language"@);
        lemma_lookup_opt("previewWidth"@, opt_num(width_n), "language"@);
    }
    assert(lookup_text(all, "name"@) == opt_text(p.name)) by {
        lemma_lookup_add(x0, opt_attr("textColor"@, opt_text(p.text_color)), "name"@);
        lemma_lookup_opt("textColor"@, opt_text(p.text_color), "name"@);
        lemma_lookup_add(x1, opt_attr("backgroundColor"@, opt_text(p.background_color)), "name"@);
        lemma_lookup_opt("backgroundColor"@, opt_text(p.background_color), "name"@);
        lemma_lookup_add(x2, opt_attr("textAlignment"@, opt_text(p.text_alignment)), "name"@);
        lemma_lookup_opt("textAlignment"@, opt_text(p.text_alignment), "name"@);
        lemma_lookup_add(x3, opt_attr("level"@, opt_num(level_n)), "name"@);
        lemma_lookup_opt("level"@, opt_num(level_n), "name"@);
        lemma_lookup_add(x4, opt_attr("isToggleable"@, opt_flag(p.is_toggleable)), "name"@);
        lemma_lookup_opt("isToggleable"@, opt_flag(p.is_toggleable), "name"@);
        lemma_lookup_add(x5, opt_attr("checked"@, opt_flag(p.checked)), "name"@);
        lemma_lookup_opt("checked"@, opt_flag(p.checked), "name"@);
        lemma_lookup_add(x6, opt_attr("start"@, opt_num(start_n)), "name"@);
        lemma_lookup_opt("start"@, opt_num(start_n), "name"@);
        lemma_lookup_add(x7, opt_attr("language"@, opt_text(p.language)), "name"@);
        lemma_lookup_opt("language"@, opt_text(p.language), "name"@);
        lemma_lookup_add(x8, opt_attr("name"@, opt_text(p.name)), "name"@);
        lemma_lookup_opt("name"@, opt_text(p.name), "name"@);
        lemma_lookup_add(x9, opt_attr("url"@, opt_text(p.url)), "name"@);
        lemma_lookup_opt("url"@, opt_text(p.url), "name"@);
        lemma_lookup_add(x10, opt_attr("caption"@, opt_text(p.caption)), "name"@);
        lemma_lookup_opt("caption"@, opt_text(p.caption), "name"@);
        lemma_lookup_add(x11, opt_attr("showPreview"@, opt_flag(p.show_preview)), "name"@);
        lemma_lookup_opt("showPreview"@, opt_flag(p.show_preview), "name"@);
        lemma_lookup_add(x12, opt_attr("previewWidth"@, opt_num(width_n)), "name"@);
        lemma_lookup_opt("previewWidth"@, opt_num(width_n), "name"@);
    }
    assert(lookup_text(all, "url"@) == opt_text(p.url)) by {
        lemma_lookup_add(x0, opt_attr("textColor"@, opt_text(p.text_color)), "url"@);
        lemma_lookup_opt("textColor"@, opt_text(p.text_color), "url"@);
        lemma_lookup_add(x1, opt_attr("backgroundColor"@, opt_text(p.background_color)), "url"@);
        lemma_lookup_opt("backgroundColor"@, opt_text(p.background_color), "url"@);
        lemma_lookup_add(x2, opt_attr("textAlignment"@, opt_text(p.text_alignment)), "url"@);
        lemma_lookup_opt("textAlignment"@, opt_text(p.text_alignment), "url"@);
        lemma_lookup_add(x3, opt_attr("level"@, opt_num(level_n)), "url"@);
        lemma_lookup_opt("level"@, opt_num(level_n), "url"@);
        lemma_lookup_add(x4, opt_attr("isToggleable"@, opt_flag(p.is_toggleable)), "url"@);
        lemma_lookup_opt("isToggleable"@, opt_flag(p.is_toggleable), "url"@);
        lemma_lookup_add(x5, opt_attr("checked"@, opt_flag(p.checked)), "url"@);
        lemma_lookup_opt("checked"@, opt_flag(p.checked), "url"@);
        lemma_lookup_add(x6, opt_attr("start"@, opt_num(start_n)), "url"@);
        lemma_lookup_opt("start"@, opt_num(start_n), "url"@);
        lemma_lookup_add(x7, opt_attr("language"@, opt_text(p.language)), "url"@);
        lemma_lookup_opt("language"@, opt_text(p.language), "url"@);
        lemma_lookup_add(x8, opt_attr("name"@, opt_text(p.name)), "url"@);
        lemma_lookup_opt("name"@, opt_text(p.name), "url"@);
        lemma_lookup_add(x9, opt_attr("url"@, opt_text(p.url)), "url"@);
        lemma_lookup_opt("url"@, opt_text(p.url), "url"@);
        lemma_lookup_add(x10, opt_attr("caption"@, opt_text(p.caption)), "url"@);
        lemma_lookup_opt("caption"@, opt_text(p.caption), "url"@);
        lemma_lookup_add(x11, opt_attr("showPreview"@, opt_flag(p.show_preview)), "url"@);
        lemma_lookup_opt("showPreview"@, opt_flag(p.show_preview), "url"@);
        lemma_lookup_add(x12, opt_attr("previewWidth"@, opt_num(width_n)), "url"@);
        lemma_lookup_opt("previewWidth"@, opt_num(width_n), "url"@);
    }
    assert(lookup_text(all, "caption"@) == opt_text(p.caption)) by {
        lemma_lookup_add(x0, opt_attr("textColor"@, opt_text(p.text_color)), "caption"@);
        lemma_lookup_opt("textColor"@, opt_text(p.text_color), "caption"@);
        lemma_lookup_add(x1, opt_attr("backgroundColor"@, opt_text(p.background_color)), "caption"@);
        lemma_lookup_opt("backgroundColor"@, opt_text(p.background_color), "caption"@);
        lemma_lookup_add(x2, opt_attr("textAlignment"@, opt_text(p.text_alignment)), "caption"@);
        lemma_lookup_opt("textAlignment"@, opt_text(p.text_alignment), "caption"@);
        lemma_lookup_add(x3, opt_attr("level"@, opt_num(level_n)), "caption"@);
        lemma_lookup_opt("level"@, opt_num(level_n), "caption"@);
        lemma_lookup_add(x4, opt_attr("isToggleable"@, opt_flag(p.is_toggleable)), "caption"@);
        lemma_lookup_opt("isToggleable"@, opt_flag(p.is_toggleable), "caption"@);
        lemma_lookup_add(x5, opt_attr("checked"@, opt_flag(p.checked)), "caption"@);
        lemma_lookup_opt("checked"@, opt_flag(p.checked), "caption"@);
        lemma_lookup_add(x6, opt_attr("start"@, opt_num(start_n)), "caption"@);
        lemma_lookup_opt("start"@, opt_num(start_n), "caption"@);
        lemma_lookup_add(x7, opt_attr("language"@, opt_text(p.language)), "caption"@);
        lemma_lookup_opt("language"@, opt_text(p.language), "caption"@);
        lemma_lookup_add(x8, opt_attr("name"@, opt_text(p.name)), "caption"@);
        lemma_lookup_opt("name"@, opt_text(p.name), "caption"@);
        lemma_lookup_add(x9, opt_attr("url"@, opt_text(p.url)), "caption"@);
        lemma_lookup_opt("url"@, opt_text(p.url), "caption"@);
        lemma_lookup_add(x10, opt_attr("caption"@, opt_text(p.caption)), "caption"@);
        lemma_lookup_opt("caption"@, opt_text(p.caption), "caption"@);
        lemma_lookup_add(x11, opt_attr("showPreview"@, opt_flag(p.show_preview)), "caption"@);
        lemma_lookup_opt("showPreview"@, opt_flag(p.show_preview), "caption"@);
        lemma_lookup_add(x12, opt_attr("previewWidth"@, opt_num(width_n)), "caption"@);
        lemma_lookup_opt("previewWidth"@, opt_num(width_n), "caption"@);
    }
    assert(lookup_text(all, "showPreview"@) == opt_flag(p.show_preview)) by {
        lemma_lookup_add(x0, opt_attr("textColor"@, opt_text(p.text_color)), "showPreview"@);
        lemma_lookup_opt("textColor"@, opt_text(p.text_color), "showPreview"@);
        lemma_lookup_add(x1, opt_attr("backgroundColor"@, opt_text(p.background_color)), "showPreview"@);
        lemma_lookup_opt("backgroundColor"@, opt_text(p.background_color), "showPreview"@);
        lemma_lookup_add(x2, opt_attr("textAlignment"@, opt_text(p.text_alignment)), "showPreview"@);
        lemma_lookup_opt("textAlignment"@, opt_text(p.text_alignment), "showPreview"@);
        lemma_lookup_add(x3, opt_attr("level"@, opt_num(level_n)), "showPreview"@);
        lemma_lookup_opt("level"@, opt_num(level_n), "showPreview"@);
        lemma_lookup_add(x4, opt_attr("isToggleable"@, opt_flag(p.is_toggleable)), "showPreview"@);
        lemma_lookup_opt("isToggleable"@, opt_flag(p.is_toggleable), "showPreview"@);
        lemma_lookup_add(x5, opt_attr("checked"@, opt_flag(p.checked)), "showPreview"@);
        lemma_lookup_opt("checked"@, opt_flag(p.checked), "showPreview"@);
        lemma_lookup_add(x6, opt_attr("start"@, opt_num(start_n)), "showPreview"@);
        lemma_lookup_opt("start"@, opt_num(start_n), "showPreview"@);
        lemma_lookup_add(x7, opt_attr("language"@, opt_text(p.language)), "showPreview"@);
        lemma_lookup_opt("language"@, opt_text(p.language), "showPreview"@);
        lemma_lookup_add(x8, opt_attr("name"@, opt_text(p.name)), "showPreview"@);
        lemma_lookup_opt("name"@, opt_text(p.name), "showPreview"@);
        lemma_lookup_add(x9, opt_attr("url"@, opt_text(p.url)), "showPreview"@);
        lemma_lookup_opt("url"@, opt_text(p.url), "showPreview"@);
        lemma_lookup_add(x10, opt_attr("caption"@, opt_text(p.caption)), "showPreview"@);
        lemma_lookup_opt("caption"@, opt_text(p.caption), "showPreview"@);
        lemma_lookup_add(x11, opt_attr("showPreview"@, opt_flag(p.show_preview)), "showPreview"@);
        lemma_lookup_opt("showPreview"@, opt_flag(p.show_preview), "showPreview"@);
        lemma_lookup_add(x12, opt_attr("previewWidth"@, opt_num(width_n)), "showPreview"@);
        lemma_lookup_opt("previewWidth"@, opt_num(width_n), "showPreview"@);
    }
    assert(lookup_text(all, "previewWidth"@) == opt_num(width_n)) by {
        lemma_lookup_add(x0, opt_attr("textColor"@, opt_text(p.text_color)), "previewWidth"@);
        lemma_lookup_opt("textColor"@, opt_text(p.text_color), "previewWidth"@);
        lemma_lookup_add(x1, opt_attr("backgroundColor"@, opt_text(p.background_color)), "previewWidth"@);
        lemma_lookup_opt("backgroundColor"@, opt_text(p.background_color), "previewWidth"@);
        lemma_lookup_add(x2, opt_attr("textAlignment"@, opt_text(p.text_alignment)), "previewWidth"@);
        lemma_lookup_opt("textAlignment"@, opt_text(p.text_alignment), "previewWidth"@);
        lemma_lookup_add(x3, opt_attr("level"@, opt_num(level_n)), "previewWidth"@);
        lemma_lookup_opt("level"@, opt_num(level_n), "previewWidth"@);
        lemma_lookup_add(x4, opt_attr("isToggleable"@, opt_flag(p.is_toggleable)), "previewWidth"@);
        lemma_lookup_opt("isToggleable"@, opt_flag(p.is_toggleable), "previewWidth"@);
        lemma_lookup_add(x5, opt_attr("checked"@, opt_flag(p.checked)), "previewWidth"@);
        lemma_lookup_opt("checked"@, opt_flag(p.checked), "previewWidth"@);
        lemma_lookup_add(x6, opt_attr("start"@, opt_num(start_n)), "previewWidth"@);
        lemma_lookup_opt("start"@, opt_num(start_n), "previewWidth"@);
        lemma_lookup_add(x7, opt_attr("language"@, opt_text(p.language)), "previewWidth"@);
        lemma_lookup_opt("language"@, opt_text(p.language), "previewWidth"@);
        lemma_lookup_add(x8, opt_attr("name"@, opt_text(p.name)), "previewWidth"@);
        lemma_lookup_opt("name"@, opt_text(p.name), "previewWidth"@);
        lemma_lookup_add(x9, opt_attr("url"@, opt_text(p.url)), "previewWidth"@);
        lemma_lookup_opt("url"@, opt_text(p.url), "previewWidth"@);
        lemma_lookup_add(x10, opt_attr("caption"@, opt_text(p.caption)), "previewWidth"@);
        lemma_lookup_opt("caption"@, opt_text(p.caption), "previewWidth"@);
        lemma_lookup_add(x11, opt_attr("showPreview"@, opt_flag(p.show_preview)), "previewWidth"@);
        lemma_lookup_opt("showPreview"@, opt_flag(p.show_preview), "previewWidth"@);
        lemma_lookup_add(x12, opt_attr("previewWidth"@, opt_num(width_n)), "previewWidth"@);
        lemma_lookup_opt("previewWidth"@, opt_num(width_n), "previewWidth"@);
    }
    if p.level is Some {
        lemma_parse_decimal(p.level->0 as nat, 255);
    }
    if p.start is Some {
        lemma_parse_decimal(p.start->0 as nat, usize::MAX as nat);
    }
    if p.preview_width is Some {
        lemma_parse_decimal(p.preview_width->0 as nat, 0xffff_ffff);
    }
    assert forall|k: Seq<char>| #[trigger] other_lookup(q.other@, k) == other_lookup(p.other@, k) by {
    }
}

/// The styles that mark names give.
pub open spec fn marks_styles_t(ms: Seq<Seq<char>>) -> Styles {
    Styles {
        bold: ms.contains("bold"@),
        italic: ms.contains("italic"@),
        underline: ms.contains("underline"@),
        strikethrough: ms.contains("strike"@),
        code: ms.contains("code"@),
    }
}

/// Inline content read so far, and the link still open.
pub type ReadState = (Seq<InlineView>, Option<(Seq<char>, Seq<InlineView>)>);

/// The items read so far, with the open link closed.
pub open spec fn flush_state(st: ReadState) -> Seq<InlineView> {
    match st.1 {
        Some((h, c)) => st.0.push(InlineView::Link(h, c)),
        None => st.0,
    }
}

/// Reading one more run, given as text.
pub open spec fn rt_step(st: ReadState, r: RunText) -> ReadState {
    let item = InlineView::Text(r.0, marks_styles_t(r.1));
    if st.1 is Some && r.2 is Some && (st.1->0).0 == r.2->0 {
        (st.0, Some(((st.1->0).0, (st.1->0).1.push(item))))
    } else {
        match r.2 {
            Some(l) => (flush_state(st), Some((l, seq![item]))),
            None => (flush_state(st).push(item), None),
        }
    }
}

/// Reading runs, given as text.
pub open spec fn rt_state(rts: Seq<RunText>) -> ReadState
    decreases rts.len(),
{
    if rts.len() == 0 {
        (Seq::empty(), None)
    } else {
        rt_step(rt_state(rts.drop_last()), rts.last())
    }
}

/// The texts of strings, one per string.
proof fn lemma_texts(m: Seq<String>)
    ensures
        texts(m).len() == m.len(),
        forall|i: int| 0 <= i < m.len() ==> #[trigger] texts(m)[i] == m[i]@,
    decreases m.len(),
{
    if m.len() > 0 {
        lemma_texts(m.drop_last());
        assert forall|i: int| 0 <= i < m.len() implies #[trigger] texts(m)[i] == m[i]@ by {
            if i < m.len() - 1 {
                assert(texts(m)[i] == texts(m.drop_last())[i]);
            }
        }
    }
}

/// A string has a mark exactly when its text is among the texts.
proof fn lemma_has_mark(m: Seq<String>, name: Seq<char>)
    ensures
        has_mark(m, name) == texts(m).contains(name),
{
    lemma_texts(m);
    if has_mark(m, name) {
        let i = choose|i: int| 0 <= i < m.len() && (#[trigger] m[i])@ == name;
        assert(texts(m)[i] == name);
    }
    if texts(m).contains(name) {
        let i = choose|i: int| 0 <= i < texts(m).len() && texts(m)[i] == name;
        assert(m[i]@ == name);
    }
}

/// Reading runs depends only on their text.
proof fn lemma_runs_state_text(runs: Seq<TextRun>)
    requires
        all_inserts(runs),
    ensures
        runs_state(runs) == rt_state(runs_text(runs)),
    decreases runs.len(),
{
    if runs.len() > 0 {
        assert(all_inserts(runs.drop_last())) by {
            assert forall|i: int| 0 <= i < runs.drop_last().len() implies (#[trigger] runs.drop_last()[i]).insert is Some by {
                assert(runs.drop_last()[i] == runs[i]);
            }
        }
        lemma_runs_state_text(runs.drop_last());
        let r = runs.last();
        assert(runs[runs.len() - 1].insert is Some);
        lemma_has_mark(r.marks@, "bold"@);
        lemma_has_mark(r.marks@, "italic"@);
        lemma_has_mark(r.marks@, "underline"@);
        lemma_has_mark(r.marks@, "strike"@);
        lemma_has_mark(r.marks@, "code"@);
        assert(marks_styles(r.marks@) == marks_styles_t(texts(r.marks@)));
        let t = runs_text(runs);
        assert(t.drop_last() =~= runs_text(runs.drop_last()));
        assert(t.last() == (r.insert->0@, texts(r.marks@), opt_text(r.link)));
    }
}

/// An element is in a joined sequence exactly when it is in either part.
proof fn lemma_contains_add(a: Seq<Seq<char>>, b: Seq<Seq<char>>, x: Seq<char>)
    ensures
        (a + b).contains(x) == (a.contains(x) || b.contains(x)),
{
    if (a + b).contains(x) {
        let i = choose|i: int| 0 <= i < (a + b).len() && (a + b)[i] == x;
        if i < a.len() {
            assert(a[i] == x);
        } else {
            assert(b[i - a.len()] == x);
        }
    }
    if a.contains(x) {
        let i = choose|i: int| 0 <= i < a.len() && a[i] == x;
        assert((a + b)[i] == x);
    }
    if b.contains(x) {
        let i = choose|i: int| 0 <= i < b.len() && b[i] == x;
        assert((a + b)[i + a.len()] == x);
    }
}

/// The mark of a style, if it is set.
pub open spec fn opt_mark(on: bool, name: Seq<char>) -> Seq<Seq<char>> {
    if on { seq![name] } else { Seq::empty() }
}

proof fn lemma_opt_mark(on: bool, name: Seq<char>, x: Seq<char>)
    ensures
        opt_mark(on, name).contains(x) == (on && name == x),
{
    if on {
        assert(opt_mark(on, name)[0] == name);
    }
}

/// Reading the marks that styles are written as gives the styles back.
pub proof fn lemma_marks_roundtrip(st: Styles)
    ensures
        marks_styles_t(styles_marks(st)) == st,
{
    reveal_strlit("bold");
    reveal_strlit("italic");
    reveal_strlit("underline");
    reveal_strlit("strike");
    reveal_strlit("code");
    assert("bold"@[0] != "code"@[0]);
    assert("italic"@[0] != "strike"@[0]);
    let m1 = opt_mark(st.bold, "bold"@);
    let m2 = opt_mark(st.italic, "italic"@);
    let m3 = opt_mark(st.underline, "underline"@);
    let m4 = opt_mark(st.strikethrough, "strike"@);
    let m5 = opt_mark(st.code, "code"@);
    assert(styles_marks(st) == m1 + m2 + m3 + m4 + m5);
    assert forall|x: Seq<char>| #[trigger] styles_marks(st).contains(x) == ((st.bold && x == "bold"@) || (st.italic
        && x == "italic"@) || (st.underline && x == "underline"@) || (st.strikethrough && x == "strike"@) || (
    st.code && x == "code"@)) by {
        lemma_contains_add(m1 + m2 + m3 + m4, m5, x);
        lemma_contains_add(m1 + m2 + m3, m4, x);
        lemma_contains_add(m1 + m2, m3, x);
        lemma_contains_add(m1, m2, x);
        lemma_opt_mark(st.bold, "bold"@, x);
        lemma_opt_mark(st.italic, "italic"@, x);
        lemma_opt_mark(st.underline, "underline"@, x);
        lemma_opt_mark(st.strikethrough, "strike"@, x);
        lemma_opt_mark(st.code, "code"@, x);
    }
    assert(styles_marks(st).contains("bold"@) == st.bold);
    assert(styles_marks(st).contains("italic"@) == st.italic);
    assert(styles_marks(st).contains("underline"@) == st.underline);
    assert(styles_marks(st).contains("strike"@) == st.strikethrough);
    assert(styles_marks(st).contains("code"@) == st.code);
}

/// Inline content that reads back as it was written: no hard breaks, links
/// that hold text items only and at least one, and no two links in a row with
/// the same target.
pub open spec fn normal_inlines(items: Seq<InlineContent>) -> bool {
    &&& forall|i: int| 0 <= i < items.len() ==> !(#[trigger] items[i] is HardBreak)
    &&& forall|i: int| 0 <= i < items.len() && (#[trigger] items[i] is Link) ==> {
        let c = items[i]->Link_content;
        &&& c@.len() > 0
        &&& forall|k: int| 0 <= k < c@.len() ==> #[trigger] c@[k] is Text
    }
    &&& forall|i: int| 0 <= i < items.len() - 1 && (#[trigger] items[i] is Link) && items[i + 1] is Link
        ==> items[i]->Link_href@ != items[i + 1]->Link_href@
}

/// What reading the runs of the first `i` items gives: the items, with a
/// last link still open.
pub open spec fn exp_state(items: Seq<InlineContent>, i: int) -> ReadState {
    if i == 0 {
        (Seq::empty(), None)
    } else {
        match items[i - 1] {
            InlineContent::Link { href, content } => (inline_views(items.take(i - 1)), Some((href@, inline_views(content@)))),
            _ => (inline_views(items.take(i)), None),
        }
    }
}

/// Closing the open link gives the items.
proof fn lemma_flush_exp(items: Seq<InlineContent>, i: int)
    requires
        0 <= i <= items.len(),
    ensures
        flush_state(exp_state(items, i)) == inline_views(items.take(i)),
{
    if i == 0 {
        assert(items.take(0) =~= Seq::<InlineContent>::empty());
        assert(inline_views(Seq::<InlineContent>::empty()) =~= Seq::<InlineView>::empty());
    } else if items[i - 1] is Link {
        assert(items.take(i).drop_last() =~= items.take(i - 1));
        assert(items.take(i).last() == items[i - 1]);
        assert(inline_views(items.take(i)) == inline_views(items.take(i - 1)).push(inline_view(items[i - 1])));
    }
}

/// Reading the runs of a link's text items: the first opens the link (closing
/// any other), the rest join it.
proof fn lemma_link_runs(r: Seq<RunText>, h: Seq<char>, c: Seq<InlineContent>, j: int)
    requires
        1 <= j <= c.len(),
        forall|k: int| 0 <= k < c.len() ==> #[trigger] c[k] is Text,
        !(rt_state(r).1 is Some && (rt_state(r).1->0).0 == h),
    ensures
        rt_state(r + link_runs(h, c.take(j))) == (flush_state(rt_state(r)), Some((h, inline_views(c.take(j))))),
    decreases j,
{
    let x = c[j - 1];
    assert(c.take(j).drop_last() =~= c.take(j - 1));
    assert(c.take(j).last() == x);
    assert(x is Text);
    let t = x->Text_text;
    let st = x->Text_styles;
    let run: RunText = (t@, styles_marks(st), Some(h));
    lemma_marks_roundtrip(st);
    let lr = link_runs(h, c.take(j));
    assert(lr == link_runs(h, c.take(j - 1)).push(run));
    assert((r + lr).drop_last() =~= r + link_runs(h, c.take(j - 1)));
    assert((r + lr).last() == run);
    assert(inline_views(c.take(j)) == inline_views(c.take(j - 1)).push(inline_view(x)));
    if j == 1 {
        assert(c.take(0) =~= Seq::<InlineContent>::empty());
        assert(r + link_runs(h, Seq::<InlineContent>::empty()) =~= r);
        assert(inline_views(Seq::<InlineContent>::empty()) =~= Seq::<InlineView>::empty());
        assert(Seq::<InlineView>::empty().push(inline_view(x)) =~= seq![inline_view(x)]);
    } else {
        lemma_link_runs(r, h, c, j - 1);
    }
}

/// Reading the runs of the first `i` items gives what `exp_state` says.
proof fn lemma_inline_state(items: Seq<InlineContent>, i: int)
    requires
        normal_inlines(items),
        0 <= i <= items.len(),
    ensures
        rt_state(inline_runs(items.take(i))) == exp_state(items, i),
    decreases i,
{
    if i == 0 {
        assert(items.take(0) =~= Seq::<InlineContent>::empty());
    } else {
        lemma_inline_state(items, i - 1);
        lemma_flush_exp(items, i - 1);
        let x = items[i - 1];
        assert(items.take(i).drop_last() =~= items.take(i - 1));
        assert(items.take(i).last() == x);
        assert(!(x is HardBreak));
        assert(inline_views(items.take(i)) == inline_views(items.take(i - 1)).push(inline_view(x)));
        match x {
            InlineContent::Text { text, styles } => {
                lemma_marks_roundtrip(styles);
                let rs = inline_runs(items.take(i));
                assert(rs.drop_last() =~= inline_runs(items.take(i - 1)));
            },
            InlineContent::Link { href, content } => {
                assert(content@.len() > 0);
                assert forall|k: int| 0 <= k < content@.len() implies #[trigger] content@[k] is Text by {
                    assert(items[i - 1] is Link);
                }
                if i >= 2 && items[i - 2] is Link {
                    assert(items[i - 2]->Link_href@ != items[i - 1]->Link_href@);
                }
                assert(content@.take(content@.len() as int) =~= content@);
                lemma_link_runs(inline_runs(items.take(i - 1)), href@, content@, content@.len() as int);
            },
            InlineContent::HardBreak => {},
        }
    }
}

/// Reading the runs that inline content is written as gives the content
/// back, when it has no hard breaks, its links hold text items only (at least
/// one), and no two links in a row have the same target.
pub proof fn lemma_inline_roundtrip(items: Seq<InlineContent>, runs: Seq<TextRun>)
    requires
        normal_inlines(items),
        all_inserts(runs),
        runs_text(runs) == inline_runs(items),
    ensures
        runs_views(runs) == inline_views(items),
{
    lemma_runs_state_text(runs);
    lemma_inline_state(items, items.len() as int);
    assert(items.take(items.len() as int) =~= items);
    lemma_flush_exp(items, items.len() as int);
}

/// Two props hold the same values.
pub open spec fn same_props(a: Props, b: Props) -> bool {
    &&& opt_text(a.text_color) == opt_text(b.text_color)
    &&& opt_text(a.background_color) == opt_text(b.background_color)
    &&& opt_text(a.text_alignment) == opt_text(b.text_alignment)
    &&& a.level == b.level
    &&& a.is_toggleable == b.is_toggleable
    &&& a.checked == b.checked
    &&& a.start == b.start
    &&& opt_text(a.language) == opt_text(b.language)
    &&& opt_text(a.name) == opt_text(b.name)
    &&& opt_text(a.url) == opt_text(b.url)
    &&& opt_text(a.caption) == opt_text(b.caption)
    &&& a.show_preview == b.show_preview
    &&& a.preview_width == b.preview_width
    &&& forall|k: Seq<char>| #[trigger] other_lookup(a.other@, k) == other_lookup(b.other@, k)
}

/// Block content that reads back as it is written: normal inline content for
/// the types that have inline content, no content for the others but tables.
pub open spec fn content_fits(b: Block) -> bool {
    if has_inline_content_spec(b.block_type) {
        b.content matches BlockContent::Inline(v) && normal_inlines(v@)
    } else {
        b.block_type != BlockType::Table && b.content is Empty
    }
}

/// The key of the id attribute is no prop key.
proof fn lemma_id_key()
    ensures
        !known_prop_key("id"@),
{
    reveal_strlit("id");
    reveal_strlit("textColor");
    assert("id"@.len() != "textColor"@.len());
    reveal_strlit("backgroundColor");
    assert("id"@.len() != "backgroundColor"@.len());
    reveal_strlit("textAlignment");
    assert("id"@.len() != "textAlignment"@.len());
    reveal_strlit("level");
    assert("id"@.len() != "level"@.len());
    reveal_strlit("isToggleable");
    assert("id"@.len() != "isToggleable"@.len());
    reveal_strlit("checked");
    assert("id"@.len() != "checked"@.len());
    reveal_strlit("start");
    assert("id"@.len() != "start"@.len());
    reveal_strlit("language");
    assert("id"@.len() != "language"@.len());
    reveal_strlit("name");
    assert("id"@.len() != "name"@.len());
    reveal_strlit("url");
    assert("id"@.len() != "url"@.len());
    reveal_strlit("caption");
    assert("id"@.len() != "caption"@.len());
    reveal_strlit("showPreview");
    assert("id"@.len() != "showPreview"@.len());
    reveal_strlit("previewWidth");
    assert("id"@.len() != "previewWidth"@.len());
}

/// No block type's name is the tag of a group.
proof fn lemma_name_not_group(t: BlockType)
    ensures
        block_type_name(t) != "blockGroup"@,
{
    reveal_strlit("blockGroup");
    match t {
        BlockType::Paragraph => {
            reveal_strlit("paragraph");
            assert("paragraph"@.len() != "blockGroup"@.len());
        },
        BlockType::Heading => {
            reveal_strlit("heading");
            assert("heading"@.len() != "blockGroup"@.len());
        },
        BlockType::BulletListItem => {
            reveal_strlit("bulletListItem");
            assert("bulletListItem"@.len() != "blockGroup"@.len());
        },
        BlockType::NumberedListItem => {
            reveal_strlit("numberedListItem");
            assert("numberedListItem"@.len() != "blockGroup"@.len());
        },
        BlockType::CheckListItem => {
            reveal_strlit("checkListItem");
            assert("checkListItem"@.len() != "blockGroup"@.len());
        },
        BlockType::CodeBlock => {
            reveal_strlit("codeBlock");
            assert("codeBlock"@.len() != "blockGroup"@.len());
        },
        BlockType::Image => {
            reveal_strlit("image");
            assert("image"@.len() != "blockGroup"@.len());
        },
        BlockType::Table => {
            reveal_strlit("table");
            assert("table"@.len() != "blockGroup"@.len());
        },
        BlockType::TableRow => {
            reveal_strlit("tableRow");
            assert("tableRow"@.len() != "blockGroup"@.len());
        },
        BlockType::TableHeader => {
            reveal_strlit("tableHeader");
            assert("tableHeader"@.len() != "blockGroup"@.len());
        },
        BlockType::TableCell => {
            reveal_strlit("tableCell");
            assert("tableCell"@.len() != "blockGroup"@.len());
        },
        BlockType::TableParagraph => {
            reveal_strlit("tableParagraph");
            assert("tableParagraph"@.len() != "blockGroup"@.len());
        },
        BlockType::Divider => {
            reveal_strlit("divider");
            assert("divider"@.len() != "blockGroup"@.len());
        },
        BlockType::HardBreak => {
            reveal_strlit("hardBreak");
            assert("hardBreak"@.len() != "blockGroup"@.len());
        },
        BlockType::Quote => {
            reveal_strlit("quote");
            assert("quote"@.len() != "blockGroup"@.len());
        },
        BlockType::ToggleListItem => {
            reveal_strlit("toggleListItem");
            assert("toggleListItem"@.len() != "blockGroup"@.len());
        },
    }
}

/// Under a key that is no known prop key, the attributes of props give the
/// other prop of that key.
proof fn lemma_props_attrs_other(p: Props, k: Seq<char>)
    requires
        !known_prop_key(k),
    ensures
        lookup_text(props_attrs(p), k) == other_lookup(p.other@, k),
{
    let level_n: Option<nat> = match p.level { Some(v) => Some(v as nat), None => None };
    let start_n: Option<nat> = match p.start { Some(v) => Some(v as nat), None => None };
    let width_n: Option<nat> = match p.preview_width { Some(v) => Some(v as nat), None => None };
    let x0 = Seq::<(Seq<char>, Seq<char>)>::empty();
    let x1 = x0 + opt_attr("textColor"@, opt_text(p.text_color));
    let x2 = x1 + opt_attr("backgroundColor"@, opt_text(p.background_color));
    let x3 = x2 + opt_attr("textAlignment"@, opt_text(p.text_alignment));
    let x4 = x3 + opt_attr("level"@, opt_num(level_n));
    let x5 = x4 + opt_attr("isToggleable"@, opt_flag(p.is_toggleable));
    let x6 = x5 + opt_attr("checked"@, opt_flag(p.checked));
    let x7 = x6 + opt_attr("start"@, opt_num(start_n));
    let x8 = x7 + opt_attr("language"@, opt_text(p.language));
    let x9 = x8 + opt_attr("name"@, opt_text(p.name));
    let x10 = x9 + opt_attr("url"@, opt_text(p.url));
    let x11 = x10 + opt_attr("caption"@, opt_text(p.caption));
    let x12 = x11 + opt_attr("showPreview"@, opt_flag(p.show_preview));
    let x13 = x12 + opt_attr("previewWidth"@, opt_num(width_n));
    assert(x1 =~= opt_attr("textColor"@, opt_text(p.text_color)));
    assert(x13 + other_attrs(p.other@) =~= props_attrs(p));
    lemma_lookup_add(x13, other_attrs(p.other@), k);
    lemma_other_attrs_lookup(p.other@, k);
    lemma_lookup_add(x0, opt_attr("textColor"@, opt_text(p.text_color)), k);
    lemma_lookup_opt("textColor"@, opt_text(p.text_color), k);
    lemma_lookup_add(x1, opt_attr("backgroundColor"@, opt_text(p.background_color)), k);
    lemma_lookup_opt("backgroundColor"@, opt_text(p.background_color), k);
    lemma_lookup_add(x2, opt_attr("textAlignment"@, opt_text(p.text_alignment)), k);
    lemma_lookup_opt("textAlignment"@, opt_text(p.text_alignment), k);
    lemma_lookup_add(x3, opt_attr("level"@, opt_num(level_n)), k);
    lemma_lookup_opt("level"@, opt_num(level_n), k);
    lemma_lookup_add(x4, opt_attr("isToggleable"@, opt_flag(p.is_toggleable)), k);
    lemma_lookup_opt("isToggleable"@, opt_flag(p.is_toggleable), k);
    lemma_lookup_add(x5, opt_attr("checked"@, opt_flag(p.checked)), k);
    lemma_lookup_opt("checked"@, opt_flag(p.checked), k);
    lemma_lookup_add(x6, opt_attr("start"@, opt_num(start_n)), k);
    lemma_lookup_opt("start"@, opt_num(start_n), k);
    lemma_lookup_add(x7, opt_attr("language"@, opt_text(p.language)), k);
    lemma_lookup_opt("language"@, opt_text(p.language), k);
    lemma_lookup_add(x8, opt_attr("name"@, opt_text(p.name)), k);
    lemma_lookup_opt("name"@, opt_text(p.name), k);
    lemma_lookup_add(x9, opt_attr("url"@, opt_text(p.url)), k);
    lemma_lookup_opt("url"@, opt_text(p.url), k);
    lemma_lookup_add(x10, opt_attr("caption"@, opt_text(p.caption)), k);
    lemma_lookup_opt("caption"@, opt_text(p.caption), k);
    lemma_lookup_add(x11, opt_attr("showPreview"@, opt_flag(p.show_preview)), k);
    lemma_lookup_opt("showPreview"@, opt_flag(p.show_preview), k);
    lemma_lookup_add(x12, opt_attr("previewWidth"@, opt_num(width_n)), k);
    lemma_lookup_opt("previewWidth"@, opt_num(width_n), k);
}

/// Containers that all decode give one block each.
proof fn lemma_count_all(children: Seq<XmlNode>)
    requires
        forall|i: int| 0 <= i < children.len() ==> decodes(#[trigger] children[i]),
    ensures
        container_count(children) == children.len(),
    decreases children.len(),
{
    if children.len() > 0 {
        assert(decodes(children[children.len() - 1]));
        assert forall|i: int| 0 <= i < children.drop_last().len() implies decodes(#[trigger] children.drop_last()[i]) by {
            assert(children.drop_last()[i] == children[i]);
        }
        lemma_count_all(children.drop_last());
    }
}

/// A written block's container decodes.
proof fn lemma_encoded_decodes(b: Block, n: XmlNode)
    requires
        block_encoded_ok(b, n),
    ensures
        decodes(n),
        container_type(n->Element_0) == Some(b.block_type),
{
    crate::blocknote::schema::lemma_parse_name(b.block_type);
}

/// The props of a written block: its own over the defaults of its type.
pub open spec fn encoded_props(b: Block, n: XmlNode, p: Props) -> bool {
    let c = n->Element_0;
    &&& props_with_defaults_ok(b.block_type, b.props, p)
    &&& attrs_text(c.attrs@).skip(1) == props_attrs(p)
    &&& c.children@.len() > 0
    &&& c.children@[0] is Element
    &&& attrs_text(c.children@[0]->Element_0.attrs@) == props_attrs(p)
    &&& all_set(c.children@[0]->Element_0.attrs@)
}

/// The props written with defaults use no known key nor `id` among the other
/// props, when the block's own do not.
proof fn lemma_encoded_props_plain(b: Block, p: Props)
    requires
        props_with_defaults_ok(b.block_type, b.props, p),
        others_unknown(b.props),
        other_lookup(b.props.other@, "id"@) is None,
    ensures
        others_unknown(p),
        other_lookup(p.other@, "id"@) is None,
{
    let dp = choose|dp: Props| default_props_spec(b.block_type, dp) && #[trigger] merged(dp, b.props, p);
    assert(other_lookup(dp.other@, "id"@) is None);
    assert forall|k: Seq<char>| known_prop_key(k) implies #[trigger] other_lookup(p.other@, k) is None by {
        assert(other_lookup(dp.other@, k) is None);
    }
}

/// The id read back is the one written.
proof fn lemma_id_roundtrip(c: XmlElement, p: Props)
    requires
        all_set(c.attrs@),
        attrs_text(c.attrs@).len() > 0,
        attrs_text(c.attrs@)[0].0 == "id"@,
        attrs_text(c.attrs@).skip(1) == props_attrs(p),
        others_unknown(p),
        other_lookup(p.other@, "id"@) is None,
    ensures
        attr_text(c.attrs@, "id"@) == Some(attrs_text(c.attrs@)[0].1),
{
    lemma_id_key();
    let at = attrs_text(c.attrs@);
    assert(at =~= seq![at[0]] + at.skip(1));
    lemma_lookup_add(seq![at[0]], at.skip(1), "id"@);
    lemma_props_attrs_other(p, "id"@);
    lemma_lookup_opt("id"@, Some(at[0].1), "id"@);
    assert(seq![at[0]] =~= opt_attr("id"@, Some(at[0].1)));
    lemma_attr_text_lookup(c.attrs@, "id"@);
}

/// The inline content read back is the one written.
proof fn lemma_content_roundtrip(b: Block, n: XmlNode)
    requires
        block_encoded_ok(b, n),
        content_fits(b),
        has_inline_content_spec(b.block_type),
    ensures
        content_views(b.content) == Some(xml_inlines(n->Element_0.children@[0]->Element_0.children@)),
{
    let e = n->Element_0.children@[0]->Element_0;
    let v = b.content->Inline_0;
    if v@.len() > 0 {
        let runs = e.children@[0]->Text_0;
        lemma_inline_roundtrip(v@, runs@);
        assert(e.children@.drop_last() =~= Seq::<XmlNode>::empty());
        assert(xml_inlines(Seq::<XmlNode>::empty()) =~= Seq::<InlineView>::empty());
        assert(e.children@.last() == e.children@[0]);
        assert(e.children@[0] == XmlNode::Text(runs));
        assert(xml_node_inlines(e.children@[0]) == runs_views(runs@));
        assert(xml_inlines(e.children@) == xml_inlines(e.children@.drop_last()) + xml_node_inlines(e.children@.last()));
        assert(Seq::<InlineView>::empty() + runs_views(runs@) =~= runs_views(runs@));
        assert(xml_inlines(e.children@) =~= runs_views(runs@));
    } else {
        assert(inline_views(v@) =~= Seq::<InlineView>::empty());
        assert(xml_inlines(e.children@) =~= Seq::<InlineView>::empty());
    }
}

/// The number of children read back is the number written.
proof fn lemma_children_roundtrip(b: Block, n: XmlNode)
    requires
        block_encoded_ok(b, n),
    ensures
        match first_group(n->Element_0.children@) {
            Some(g) => container_count(n->Element_0.children@[g]->Element_0.children@),
            None => 0,
        } == b.children@.len(),
        b.children@.len() > 0 ==> first_group(n->Element_0.children@) == Some(1int),
        b.children@.len() == 0 ==> first_group(n->Element_0.children@) is None,
{
    let c = n->Element_0;
    lemma_name_not_group(b.block_type);
    assert(!tagged(c.children@[0], "blockGroup"@));
    if b.children@.len() > 0 {
        let g = c.children@[1];
        assert(tagged(g, "blockGroup"@));
        assert(exists|i: int| 0 <= i < c.children@.len() && tagged(#[trigger] c.children@[i], "blockGroup"@)
            && forall|j: int| 0 <= j < i ==> !tagged(#[trigger] c.children@[j], "blockGroup"@)) by {
            assert(tagged(c.children@[1], "blockGroup"@));
        }
        let i = first_group(c.children@)->0;
        assert(0 <= i < c.children@.len() && tagged(c.children@[i], "blockGroup"@));
        assert(i == 1);
        assert forall|k: int| 0 <= k < g->Element_0.children@.len() implies decodes(#[trigger] g->Element_0.children@[k]) by {
            lemma_encoded_decodes(b.children@[k], g->Element_0.children@[k]);
        }
        lemma_count_all(g->Element_0.children@);
    } else {
        assert(first_group(c.children@) is None);
    }
}

/// A decoded block has as many children as its first group's containers that
/// decode.
proof fn lemma_decoded_children_count(c: XmlElement, d: Block)
    requires
        block_decoded_ok(c, d),
    ensures
        d.children@.len() == match first_group(c.children@) {
            Some(g) => container_count(c.children@[g]->Element_0.children@),
            None => 0,
        },
{
    match first_group(c.children@) {
        Some(g) => {
            lemma_group_count(c.children@[g]->Element_0.children@, d.children@);
        },
        None => {},
    }
}

/// A block written and read back keeps its id (when it has one), its type,
/// its props with the defaults of its type, its inline content and its number
/// of children, when its other props use no known prop key and not `id`, and
/// its content reads back as written.
pub proof fn lemma_block_roundtrip(b: Block, n: XmlNode, d: Block)
    requires
        block_encoded_ok(b, n),
        others_unknown(b.props),
        other_lookup(b.props.other@, "id"@) is None,
        content_fits(b),
        block_decoded_ok(n->Element_0, d),
    ensures
        container_type(n->Element_0) == Some(b.block_type),
        b.id@.len() > 0 ==> d.id@ == b.id@,
        d.block_type == b.block_type,
        exists|p: Props| #[trigger] props_with_defaults_ok(b.block_type, b.props, p) && same_props(d.props, p),
        content_views(d.content) == content_views(b.content),
        d.content is Empty == b.content is Empty,
        d.children@.len() == b.children@.len(),
{
    lemma_encoded_decodes(b, n);
    let c = n->Element_0;
    lemma_decoded_children_count(c, d);
    let p = choose|p: Props| #[trigger] props_with_defaults_ok(b.block_type, b.props, p)
        && attrs_text(c.attrs@).skip(1) == props_attrs(p)
        && c.children@.len() > 0
        && c.children@[0] is Element
        && attrs_text(c.children@[0]->Element_0.attrs@) == props_attrs(p)
        && all_set(c.children@[0]->Element_0.attrs@);
    lemma_encoded_props_plain(b, p);
    lemma_props_roundtrip(p, c.children@[0]->Element_0.attrs@, d.props);
    lemma_id_roundtrip(c, p);
    if has_inline_content_spec(b.block_type) {
        lemma_content_roundtrip(b, n);
    }
    lemma_children_roundtrip(b, n);
}

/// A group whose containers all decode gives one block per container, each
/// the block of its container.
proof fn lemma_group_all(children: Seq<XmlNode>, bs: Seq<Block>)
    requires
        forall|i: int| 0 <= i < children.len() ==> decodes(#[trigger] children[i]),
        group_decoded_ok(children, bs),
    ensures
        bs.len() == children.len(),
        forall|i: int| 0 <= i < children.len() ==> block_decoded_ok(children[i]->Element_0, #[trigger] bs[i]),
    decreases children.len(),
{
    if children.len() > 0 {
        assert(decodes(children[children.len() - 1]));
        assert forall|i: int| 0 <= i < children.drop_last().len() implies decodes(#[trigger] children.drop_last()[i]) by {
            assert(children.drop_last()[i] == children[i]);
        }
        lemma_group_all(children.drop_last(), bs.drop_last());
        assert forall|i: int| 0 <= i < children.len() implies block_decoded_ok(children[i]->Element_0, #[trigger] bs[i]) by {
            if i < children.len() - 1 {
                assert(children.drop_last()[i] == children[i]);
                assert(bs.drop_last()[i] == bs[i]);
            }
        }
    }
}

/// A block tree whose every block reads back as it is written: other props
/// with no known prop key and no `id`, and content that reads back.
pub open spec fn plain_tree(b: Block) -> bool
    decreases b,
{
    &&& others_unknown(b.props)
    &&& other_lookup(b.props.other@, "id"@) is None
    &&& content_fits(b)
    &&& forall|i: int| 0 <= i < b.children@.len() ==> plain_tree(#[trigger] b.children@[i])
}

/// A block tree read back from the tree that another was written as: each
/// block with the same id (when it had one), type, props with the defaults
/// of its type, inline content and children.
pub open spec fn read_back_ok(b: Block, d: Block) -> bool
    decreases b,
{
    &&& (b.id@.len() > 0 ==> d.id@ == b.id@)
    &&& d.block_type == b.block_type
    &&& exists|p: Props| #[trigger] props_with_defaults_ok(b.block_type, b.props, p) && same_props(d.props, p)
    &&& content_views(d.content) == content_views(b.content)
    &&& (d.content is Empty == b.content is Empty)
    &&& d.children@.len() == b.children@.len()
    &&& forall|i: int| 0 <= i < b.children@.len() ==> read_back_ok(#[trigger] b.children@[i], d.children@[i])
}

/// A block tree written and read back is the tree again, block by block,
/// when every block reads back as it is written.
pub proof fn lemma_tree_roundtrip(b: Block, n: XmlNode, d: Block)
    requires
        block_encoded_ok(b, n),
        plain_tree(b),
        block_decoded_ok(n->Element_0, d),
    ensures
        read_back_ok(b, d),
    decreases b,
{
    lemma_block_roundtrip(b, n, d);
    lemma_children_roundtrip(b, n);
    let c = n->Element_0;
    if b.children@.len() > 0 {
        let g = c.children@[1]->Element_0;
        assert(group_decoded_ok(g.children@, d.children@));
        assert forall|k: int| 0 <= k < g.children@.len() implies decodes(#[trigger] g.children@[k]) by {
            lemma_encoded_decodes(b.children@[k], g.children@[k]);
        }
        lemma_group_all(g.children@, d.children@);
        assert forall|i: int| 0 <= i < b.children@.len() implies read_back_ok(#[trigger] b.children@[i], d.children@[i]) by {
            assert(block_encoded_ok(b.children@[i], g.children@[i]));
            assert(plain_tree(b.children@[i]));
            assert(block_decoded_ok(g.children@[i]->Element_0, d.children@[i]));
            lemma_tree_roundtrip(b.children@[i], g.children@[i], d.children@[i]);
        }
    }
}

/// Blocks written as a document and read back are the blocks again, block by
/// block, when every block reads back as it is written.
pub proof fn lemma_document_roundtrip(blocks: Seq<Block>, group: XmlNode, read: Seq<Block>)
    requires
        fragment_encoded_ok(blocks, group),
        forall|i: int| 0 <= i < blocks.len() ==> plain_tree(#[trigger] blocks[i]),
        group_decoded_ok(group->Element_0.children@, read),
    ensures
        read.len() == blocks.len(),
        forall|i: int| 0 <= i < blocks.len() ==> read_back_ok(#[trigger] blocks[i], read[i]),
{
    let g = group->Element_0;
    assert forall|k: int| 0 <= k < g.children@.len() implies decodes(#[trigger] g.children@[k]) by {
        lemma_encoded_decodes(blocks[k], g.children@[k]);
    }
    lemma_group_all(g.children@, read);
    assert forall|i: int| 0 <= i < blocks.len() implies read_back_ok(#[trigger] blocks[i], read[i]) by {
        lemma_tree_roundtrip(blocks[i], g.children@[i], read[i]);
    }
}


/// The `tableRow` elements among nodes that are all `tableRow` elements are
/// those nodes.
proof fn lemma_all_rows(children: Seq<XmlNode>)
    requires
        forall|i: int| 0 <= i < children.len() ==> (#[trigger] children[i]) is Element && children[i]->Element_0.tag@
            == "tableRow"@,
    ensures
        row_elements(children).len() == children.len(),
        forall|i: int| 0 <= i < children.len() ==> #[trigger] row_elements(children)[i] == children[i]->Element_0,
    decreases children.len(),
{
    if children.len() > 0 {
        let p = children.drop_last();
        assert forall|i: int| 0 <= i < p.len() implies (#[trigger] p[i]) is Element && p[i]->Element_0.tag@
            == "tableRow"@ by {
            assert(p[i] == children[i]);
        }
        lemma_all_rows(p);
        assert forall|i: int| 0 <= i < children.len() implies #[trigger] row_elements(children)[i]
            == children[i]->Element_0 by {
            if i < children.len() - 1 {
                assert(p[i] == children[i]);
            }
        }
    }
}

/// The cell elements among nodes that are all cell elements are those nodes.
proof fn lemma_all_cells(children: Seq<XmlNode>)
    requires
        forall|i: int| 0 <= i < children.len() ==> (#[trigger] children[i]) is Element && cell_type_of(
            children[i]->Element_0.tag@,
        ) is Some,
    ensures
        cell_elements(children).len() == children.len(),
        forall|i: int| 0 <= i < children.len() ==> #[trigger] cell_elements(children)[i] == children[i]->Element_0,
    decreases children.len(),
{
    if children.len() > 0 {
        let p = children.drop_last();
        assert forall|i: int| 0 <= i < p.len() implies (#[trigger] p[i]) is Element && cell_type_of(
            p[i]->Element_0.tag@,
        ) is Some by {
            assert(p[i] == children[i]);
        }
        lemma_all_cells(p);
        assert forall|i: int| 0 <= i < children.len() implies #[trigger] cell_elements(children)[i]
            == children[i]->Element_0 by {
            if i < children.len() - 1 {
                assert(p[i] == children[i]);
            }
        }
    }
}

/// A cell written and read back has its text again, when that text reads
/// back as it is written.
proof fn lemma_cell_content_roundtrip(c: TableCell, n: XmlNode, d: TableCell)
    requires
        cell_encoded_ok(c, n),
        cell_decoded_ok(n->Element_0, d),
        normal_inlines(c.content@),
    ensures
        inline_views(d.content@) == inline_views(c.content@),
{
    reveal_strlit("tableParagraph");
    let e = n->Element_0;
    let para = e.children@[0];
    assert(cell_inlines(e.children@) == xml_inlines(para->Element_0.children@));
    let pc = para->Element_0.children@;
    if c.content@.len() == 0 {
        assert(xml_inlines(pc) =~= Seq::<InlineView>::empty());
        assert(inline_views(c.content@) =~= Seq::<InlineView>::empty());
    } else {
        assert(pc.drop_last() =~= Seq::<XmlNode>::empty());
        assert(xml_inlines(pc.drop_last()) =~= Seq::<InlineView>::empty());
        let runs = pc[0]->Text_0;
        assert(pc.len() == 1 && pc.last() == pc[0]);
        assert(xml_node_inlines(pc[0]) == runs_views(runs@));
        assert(xml_inlines(pc) == xml_inlines(pc.drop_last()) + xml_node_inlines(pc.last()));
        assert(xml_inlines(pc) =~= runs_views(runs@));
        lemma_inline_roundtrip(c.content@, runs@);
    }
}

/// Table content written as row elements and read back keeps its rows and
/// cells and the type of each cell (a header cell is read back as a header
/// cell, a body cell as a body cell), so its header rows are those of the
/// content written: a run of rows from the first that start with a header
/// cell; and each cell keeps its text, where that text reads back as it is
/// written.
pub proof fn lemma_table_roundtrip(tc: TableContent, rows: Seq<XmlNode>, back: TableContent)
    requires
        table_encoded_ok(tc, rows),
        table_decoded_ok(rows, back),
    ensures
        back.rows@.len() == tc.rows@.len(),
        forall|i: int| 0 <= i < tc.rows@.len() ==> (#[trigger] back.rows@[i]).cells@.len() == tc.rows@[i].cells@.len(),
        forall|i: int, j: int|
            0 <= i < tc.rows@.len() && 0 <= j < tc.rows@[i].cells@.len() ==> (#[trigger] back.rows@[i].cells@[j]).cell_type
                == tc.rows@[i].cells@[j].cell_type,
        back.header_rows matches Some(k) ==> 0 < k <= tc.rows@.len() && (forall|i: int| 0 <= i < k ==> header_row(
            #[trigger] tc.rows@[i],
        )) && (k == tc.rows@.len() || !header_row(tc.rows@[k as int])),
        back.header_rows is None ==> tc.rows@.len() == 0 || !header_row(tc.rows@[0]),
        forall|i: int, j: int|
            0 <= i < tc.rows@.len() && 0 <= j < tc.rows@[i].cells@.len() && normal_inlines(tc.rows@[i].cells@[j].content@)
                ==> inline_views((#[trigger] back.rows@[i].cells@[j]).content@) == inline_views(tc.rows@[i].cells@[j].content@),
{
    reveal_strlit("tableCell");
    reveal_strlit("tableHeader");
    assert("tableHeader"@.len() != "tableCell"@.len());
    assert(cell_type_of("tableHeader"@) == Some(TableCellType::TableHeader));
    assert(cell_type_of("tableCell"@) == Some(TableCellType::TableCell));
    lemma_all_rows(rows);
    let hb = |i: int| header_row(back.rows@[i]);
    assert(run_count_ok(back.header_rows, back.rows@.len() as int, hb));
    assert forall|i: int, j: int|
        0 <= i < tc.rows@.len() && 0 <= j < tc.rows@[i].cells@.len() implies (#[trigger] back.rows@[i].cells@[j]).cell_type
            == tc.rows@[i].cells@[j].cell_type && back.rows@[i].cells@.len() == tc.rows@[i].cells@.len() && (normal_inlines(
            tc.rows@[i].cells@[j].content@,
        ) ==> inline_views(back.rows@[i].cells@[j].content@) == inline_views(tc.rows@[i].cells@[j].content@)) by {
        let e = rows[i]->Element_0;
        assert(row_elements(rows)[i] == e);
        assert forall|m: int| 0 <= m < e.children@.len() implies (#[trigger] e.children@[m]) is Element && cell_type_of(
            e.children@[m]->Element_0.tag@,
        ) is Some by {
            assert(cell_encoded_ok(tc.rows@[i].cells@[m], e.children@[m]));
        }
        lemma_all_cells(e.children@);
        assert(row_decoded_ok(e, back.rows@[i]));
        assert(e.children@.len() == tc.rows@[i].cells@.len());
        assert(cell_encoded_ok(tc.rows@[i].cells@[j], e.children@[j]));
        assert(cell_elements(e.children@)[j] == e.children@[j]->Element_0);
        assert(cell_decoded_ok(cell_elements(e.children@)[j], back.rows@[i].cells@[j]));
        if normal_inlines(tc.rows@[i].cells@[j].content@) {
            lemma_cell_content_roundtrip(tc.rows@[i].cells@[j], e.children@[j], back.rows@[i].cells@[j]);
        }
    }
    assert forall|i: int| 0 <= i < tc.rows@.len() implies (#[trigger] back.rows@[i]).cells@.len()
        == tc.rows@[i].cells@.len() by {
        let e = rows[i]->Element_0;
        assert(row_elements(rows)[i] == e);
        assert forall|m: int| 0 <= m < e.children@.len() implies (#[trigger] e.children@[m]) is Element && cell_type_of(
            e.children@[m]->Element_0.tag@,
        ) is Some by {
            assert(cell_encoded_ok(tc.rows@[i].cells@[m], e.children@[m]));
        }
        lemma_all_cells(e.children@);
        assert(row_decoded_ok(e, back.rows@[i]));
    }
    assert forall|i: int| 0 <= i < tc.rows@.len() implies header_row(#[trigger] back.rows@[i]) == header_row(
        tc.rows@[i],
    ) by {
        if tc.rows@[i].cells@.len() > 0 {
            assert(back.rows@[i].cells@[0].cell_type == tc.rows@[i].cells@[0].cell_type);
        }
    }
    match back.header_rows {
        Some(k) => {
            assert forall|i: int| 0 <= i < k implies header_row(#[trigger] tc.rows@[i]) by {
                assert(hb(i));
                assert(header_row(back.rows@[i]));
            }
            if k < tc.rows@.len() {
                assert(!hb(k as int));
                assert(!header_row(back.rows@[k as int]));
            }
        },
        None => {
            if tc.rows@.len() > 0 {
                assert(!hb(0));
                assert(!header_row(back.rows@[0]));
            }
        },
    }
}

}
