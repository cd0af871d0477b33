//! Formatting decisions and plain-text helpers of the serializer.

use vstd::prelude::*;
use crate::check::{valid_list_item_indent};
use crate::mdast::{Code, Heading, Link, Node};
use crate::regex_ext::regex_is_match;
use crate::safe::is_ascii_punct_spec;
use crate::safe::is_ascii_punct;
use crate::state::State;
use crate::text::{chars_of, concat, owned, push_str, str_eq};

verus! {

/// The children that plain-text extraction and tree visits descend into.
pub open spec fn all_children(n: Node) -> Seq<Node> {
    match n {
        Node::Root(x) => x.children@,
        Node::Blockquote(x) => x.children@,
        Node::FootnoteDefinition(x) => x.children@,
        Node::List(x) => x.children@,
        Node::ListItem(x) => x.children@,
        Node::Emphasis(x) => x.children@,
        Node::Strong(x) => x.children@,
        Node::Delete(x) => x.children@,
        Node::Link(x) => x.children@,
        Node::LinkReference(x) => x.children@,
        Node::MdxJsxFlowElement(x) => x.children@,
        Node::MdxJsxTextElement(x) => x.children@,
        Node::Heading(x) => x.children@,
        Node::Table(x) => x.children@,
        Node::TableRow(x) => x.children@,
        Node::TableCell(x) => x.children@,
        Node::Paragraph(x) => x.children@,
        _ => Seq::empty(),
    }
}

/// Each of those children is structurally smaller than the node.
pub proof fn lemma_all_children_decrease(n: Node)
    ensures
        forall|i: int|
            0 <= i < all_children(n).len() ==> decreases_to!(n => #[trigger] all_children(n)[i]),
{
    assert forall|i: int| 0 <= i < all_children(n).len() implies decreases_to!(n => #[trigger] all_children(n)[i]) by {
        match n {
            Node::Root(x) => assert(decreases_to!(n => x.children@[i])),
            Node::Blockquote(x) => assert(decreases_to!(n => x.children@[i])),
            Node::FootnoteDefinition(x) => assert(decreases_to!(n => x.children@[i])),
            Node::List(x) => assert(decreases_to!(n => x.children@[i])),
            Node::ListItem(x) => assert(decreases_to!(n => x.children@[i])),
            Node::Emphasis(x) => assert(decreases_to!(n => x.children@[i])),
            Node::Strong(x) => assert(decreases_to!(n => x.children@[i])),
            Node::Delete(x) => assert(decreases_to!(n => x.children@[i])),
            Node::Link(x) => assert(decreases_to!(n => x.children@[i])),
            Node::LinkReference(x) => assert(decreases_to!(n => x.children@[i])),
            Node::MdxJsxFlowElement(x) => assert(decreases_to!(n => x.children@[i])),
            Node::MdxJsxTextElement(x) => assert(decreases_to!(n => x.children@[i])),
            Node::Heading(x) => assert(decreases_to!(n => x.children@[i])),
            Node::Table(x) => assert(decreases_to!(n => x.children@[i])),
            Node::TableRow(x) => assert(decreases_to!(n => x.children@[i])),
            Node::TableCell(x) => assert(decreases_to!(n => x.children@[i])),
            Node::Paragraph(x) => assert(decreases_to!(n => x.children@[i])),
            _ => {},
        }
    }
}

/// Get the children of any node type.
fn get_all_children(node: &Node) -> (r: Option<&Vec<Node>>)
    ensures
        match r {
            Some(v) => v@ == all_children(*node),
            None => all_children(*node).len() == 0,
        },
{
    match node {
        Node::Root(n) => Some(&n.children),
        Node::Blockquote(n) => Some(&n.children),
        Node::FootnoteDefinition(n) => Some(&n.children),
        Node::List(n) => Some(&n.children),
        Node::ListItem(n) => Some(&n.children),
        Node::Emphasis(n) => Some(&n.children),
        Node::Strong(n) => Some(&n.children),
        Node::Delete(n) => Some(&n.children),
        Node::Link(n) => Some(&n.children),
        Node::LinkReference(n) => Some(&n.children),
        Node::MdxJsxFlowElement(n) => Some(&n.children),
        Node::MdxJsxTextElement(n) => Some(&n.children),
        Node::Heading(n) => Some(&n.children),
        Node::Table(n) => Some(&n.children),
        Node::TableRow(n) => Some(&n.children),
        Node::TableCell(n) => Some(&n.children),
        Node::Paragraph(n) => Some(&n.children),
        _ => None,
    }
}

/// The plain text of a node: the value of a text, inline code, html or code
/// node, else the text of its children, in order.
pub open spec fn text_content(n: Node) -> Seq<char>
    decreases n, (all_children(n).len() + 1) as int,
{
    match n {
        Node::Text(t) => t.value@,
        Node::InlineCode(c) => c.value@,
        Node::Html(h) => h.value@,
        Node::Code(c) => c.value@,
        _ => text_of_children(n, all_children(n).len() as int),
    }
}

/// The text of the first `k` children of `n`.
pub open spec fn text_of_children(n: Node, k: int) -> Seq<char>
    decreases n, k,
{
    if k <= 0 || k > all_children(n).len() {
        Seq::empty()
    } else {
        proof {
            lemma_all_children_decrease(n);
        }
        text_of_children(n, k - 1) + text_content(all_children(n)[k - 1])
    }
}

/// Convert a node to its plain text content.
#[verifier::loop_isolation(false)]
pub fn node_to_string(node: &Node) -> (r: String)
    ensures
        r@ == text_content(*node),
    decreases node,
{
    match node {
        Node::Text(t) => owned(t.value.as_str()),
        Node::InlineCode(c) => owned(c.value.as_str()),
        Node::Html(h) => owned(h.value.as_str()),
        Node::Code(c) => owned(c.value.as_str()),
        _ => {
            let mut s = String::new();
            match get_all_children(node) {
                Some(children) => {
                    let mut i: usize = 0;
                    while i < children.len()
                        invariant
                            children@ == all_children(*node),
                            i <= children.len(),
                            s@ == text_of_children(*node, i as int),
                        decreases children.len() - i,
                    {
                        proof {
                            lemma_all_children_decrease(*node);
                            assert(decreases_to!(*node => children@[i as int]));
                        }
                        let t = node_to_string(&children[i]);
                        push_str(&mut s, t.as_str());
                        i += 1;
                    }
                },
                None => {},
            }
            s
        },
    }
}

/// The node itself holds a literal line break: a text or inline code value with
/// a line ending, or a hard break.
pub open spec fn own_literal_break(n: Node) -> bool {
    match n {
        Node::Text(t) => t.value@.contains('\n') || t.value@.contains('\r'),
        Node::InlineCode(c) => c.value@.contains('\n') || c.value@.contains('\r'),
        Node::Break(_) => true,
        _ => false,
    }
}

/// The node or one of its descendants holds a literal line break.
pub open spec fn literal_break(n: Node) -> bool
    decreases n, (all_children(n).len() + 1) as int,
{
    own_literal_break(n) || literal_break_in_children(n, all_children(n).len() as int)
}

/// One of the first `k` children of `n` holds a literal line break.
pub open spec fn literal_break_in_children(n: Node, k: int) -> bool
    decreases n, k,
{
    if k <= 0 || k > all_children(n).len() {
        false
    } else {
        proof {
            lemma_all_children_decrease(n);
        }
        literal_break_in_children(n, k - 1) || literal_break(all_children(n)[k - 1])
    }
}

/// Whether the node or one of its descendants holds a literal line break.
#[verifier::loop_isolation(false)]
fn has_literal_break(node: &Node) -> (r: bool)
    ensures
        r == literal_break(*node),
    decreases node,
{
    let own = match node {
        Node::Text(t) => crate::text::contains_char(t.value.as_str(), '\n')
            || crate::text::contains_char(t.value.as_str(), '\r'),
        Node::InlineCode(c) => crate::text::contains_char(c.value.as_str(), '\n')
            || crate::text::contains_char(c.value.as_str(), '\r'),
        Node::Break(_) => true,
        _ => false,
    };
    if own {
        return true;
    }
    match get_all_children(node) {
        Some(children) => {
            let mut found = false;
            let mut i: usize = 0;
            while i < children.len()
                invariant
                    children@ == all_children(*node),
                    i <= children.len(),
                    found == literal_break_in_children(*node, i as int),
                decreases children.len() - i,
            {
                proof {
                    lemma_all_children_decrease(*node);
                    assert(decreases_to!(*node => children@[i as int]));
                }
                if has_literal_break(&children[i]) {
                    found = true;
                }
                i += 1;
            }
            found
        },
        None => false,
    }
}

/// Whether a heading is written as a setext heading: depth 1 or 2, some text,
/// and either the `setext` option or a literal line break inside.
pub open spec fn heading_setext_spec(h: Heading, o: crate::types::Options) -> bool {
    &&& h.depth <= 2
    &&& text_content(Node::Heading(h)).len() > 0
    &&& (o.setext || literal_break(Node::Heading(h)))
}

/// Check whether a heading should be formatted as setext.
pub fn format_heading_as_setext(node: &Heading, state: &State) -> (r: bool)
    ensures
        r == heading_setext_spec(*node, state.options),
{
    if node.depth > 2 {
        return false;
    }
    let ghost whole = Node::Heading(*node);
    let mut content = String::new();
    let mut i: usize = 0;
    assert(all_children(whole) == node.children@);
    while i < node.children.len()
        invariant
            whole == Node::Heading(*node),
            all_children(whole) == node.children@,
            i <= node.children.len(),
            content@ == text_of_children(whole, i as int),
        decreases node.children.len() - i,
    {
        let t = node_to_string(&node.children[i]);
        push_str(&mut content, t.as_str());
        i += 1;
    }
    if content.as_str().unicode_len() == 0 {
        return false;
    }
    let mut literal = false;
    let mut j: usize = 0;
    while j < node.children.len()
        invariant
            whole == Node::Heading(*node),
            all_children(whole) == node.children@,
            j <= node.children.len(),
            literal == literal_break_in_children(whole, j as int),
        decreases node.children.len() - j,
    {
        if has_literal_break(&node.children[j]) {
            literal = true;
        }
        j += 1;
    }
    state.options.setext || literal
}

/// The expression for a first line of only tabs and spaces.
pub const BLANK_FIRST_LINE: &'static str = "^[\\t ]*(?:[\\r\\n]|$)";

/// The expression for a last line of only tabs and spaces.
pub const BLANK_LAST_LINE: &'static str = "(?:^|[\\r\\n])[\\t ]*$";

/// The expression for a URL that starts with a scheme.
pub const URL_SCHEME: &'static str = "(?i)^[a-z][a-z+.-]+:";

/// The expression for characters that an autolink cannot hold.
pub const URL_UNSAFE: &'static str = "[\\x00-\\x20<>\\x7F]";

/// A tab or a space.
pub open spec fn is_blank(c: char) -> bool {
    c == '\t' || c == ' '
}

/// The characters of `s` from `a` up to `b` are tabs and spaces.
pub open spec fn blank_between(s: Seq<char>, a: int, b: int) -> bool {
    forall|j: int| a <= j < b ==> is_blank(#[trigger] s[j])
}

/// The first line of `s` is only tabs and spaces: what `BLANK_FIRST_LINE`
/// finds.
pub open spec fn first_line_blank(s: Seq<char>) -> bool {
    exists|k: int| 0 <= k <= s.len() && #[trigger] blank_between(s, 0, k) && (k == s.len() || s[k] == '\r' || s[k]
        == '\n')
}

/// The last line of `s` is only tabs and spaces: what `BLANK_LAST_LINE` finds.
pub open spec fn last_line_blank(s: Seq<char>) -> bool {
    exists|p: int| 0 <= p <= s.len() && (p == 0 || s[p - 1] == '\r' || s[p - 1] == '\n') && #[trigger] blank_between(
        s,
        p,
        s.len() as int,
    )
}

/// A letter of a scheme: what `[a-z]` takes when case is ignored, as the
/// `regex` crate folds case by Unicode (so also the long s and the Kelvin sign).
pub open spec fn is_scheme_letter(c: char) -> bool {
    ('a' <= c && c <= 'z') || ('A' <= c && c <= 'Z') || c == '\u{17f}' || c == '\u{212a}'
}

/// A character of a scheme after its first.
pub open spec fn is_scheme_char(c: char) -> bool {
    is_scheme_letter(c) || c == '+' || c == '.' || c == '-'
}

/// `s` starts with a scheme of two characters or more and a colon: what
/// `URL_SCHEME` finds.
pub open spec fn has_scheme(s: Seq<char>) -> bool {
    exists|k: int| 2 <= k < s.len() && is_scheme_letter(s[0]) && (forall|j: int| 1 <= j < k ==> is_scheme_char(
        #[trigger] s[j],
    )) && #[trigger] s[k] == ':'
}

/// Some character of `s` is a control character, a space, `<` or `>`: what
/// `URL_UNSAFE` finds.
pub open spec fn has_url_unsafe(s: Seq<char>) -> bool {
    exists|i: int| 0 <= i < s.len() && ((#[trigger] s[i]) <= ' ' || s[i] == '<' || s[i] == '>' || s[i] == '\x7f')
}

/// Whether a code node is written as indented code: fences are off, it has a
/// value and no language, some character other than space and line endings, and
/// its value neither starts nor ends with a blank line.
pub open spec fn code_indented_spec(c: Code, o: crate::types::Options) -> bool {
    &&& !o.fences
    &&& c.value@.len() > 0
    &&& c.lang is None
    &&& exists|i: int| 0 <= i < c.value@.len() && #[trigger] c.value@[i] != ' ' && c.value@[i] != '\r' && c.value@[i] != '\n'
    &&& !first_line_blank(c.value@)
    &&& !last_line_blank(c.value@)
}

/// Check whether a code node should be formatted as indented code.
pub fn format_code_as_indented(node: &Code, state: &State) -> (r: bool)
    ensures
        r == code_indented_spec(*node, state.options),
{
    if state.options.fences {
        return false;
    }
    let value = node.value.as_str();
    if value.unicode_len() == 0 {
        return false;
    }
    if node.lang.is_some() {
        return false;
    }
    let v = chars_of(value);
    let mut has_non_whitespace = false;
    let mut i: usize = 0;
    while i < v.len()
        invariant
            v@ == value@,
            i <= v.len(),
            has_non_whitespace == exists|j: int| 0 <= j < i && #[trigger] v@[j] != ' ' && v@[j] != '\r' && v@[j] != '\n',
        decreases v.len() - i,
    {
        if v[i] != ' ' && v[i] != '\r' && v[i] != '\n' {
            has_non_whitespace = true;
        }
        i += 1;
    }
    if !has_non_whitespace {
        return false;
    }
    if regex_is_match(BLANK_FIRST_LINE, value) || regex_is_match(BLANK_LAST_LINE, value) {
        return false;
    }
    true
}

/// Whether a link is written as an autolink.
pub open spec fn link_autolink_spec(l: Link, o: crate::types::Options) -> bool {
    let raw = text_content(Node::Link(l));
    &&& !o.resource_link
    &&& l.url@.len() > 0
    &&& l.title is None
    &&& l.children@.len() == 1
    &&& l.children@[0] is Text
    &&& (raw == l.url@ || "mailto:"@ + raw == l.url@)
    &&& has_scheme(l.url@)
    &&& !has_url_unsafe(l.url@)
}

/// Check whether a link can be formatted as an autolink.
pub fn format_link_as_autolink(node: &Link, state: &State) -> (r: bool)
    ensures
        r == link_autolink_spec(*node, state.options),
{
    let ghost whole = Node::Link(*node);
    assert(all_children(whole) == node.children@);
    if state.options.resource_link || node.url.as_str().unicode_len() == 0 || node.title.is_some()
        || node.children.len() != 1 {
        return false;
    }
    let raw = match &node.children[0] {
        Node::Text(t) => owned(t.value.as_str()),
        _ => {
            return false;
        },
    };
    proof {
        reveal_with_fuel(text_of_children, 2);
        assert(text_content(node.children@[0]) == raw@);
        assert(text_of_children(whole, 0) == Seq::<char>::empty());
        assert(text_content(whole) =~= raw@);
    }
    let mailto = concat("mailto:", raw.as_str());
    let url = node.url.as_str();
    (str_eq(raw.as_str(), url) || str_eq(mailto.as_str(), url))
        && regex_is_match(URL_SCHEME, url)
        && !regex_is_match(URL_UNSAFE, url)
}

/// Whether a node is a phrasing (inline) node.
pub open spec fn is_phrasing_spec(n: Node) -> bool {
    n is Break || n is Delete || n is Emphasis || n is FootnoteReference || n is Html || n is Image
        || n is ImageReference || n is InlineCode || n is InlineMath || n is Link
        || n is LinkReference || n is Strong || n is Text
}

/// Check if a node is a phrasing node (inline content).
pub fn is_phrasing(node: &Node) -> (r: bool)
    ensures
        r == is_phrasing_spec(*node),
{
    match node {
        Node::Break(_) | Node::Delete(_) | Node::Emphasis(_) | Node::FootnoteReference(_)
        | Node::Html(_) | Node::Image(_) | Node::ImageReference(_) | Node::InlineCode(_)
        | Node::InlineMath(_) | Node::Link(_) | Node::LinkReference(_) | Node::Strong(_)
        | Node::Text(_) => true,
        _ => false,
    }
}

/// The number of copies of `c` that end the first `n` characters of `s`.
pub open spec fn run_ending(s: Seq<char>, c: char, n: int) -> nat
    decreases n,
{
    if n <= 0 || n > s.len() {
        0
    } else if s[n - 1] == c {
        run_ending(s, c, n - 1) + 1
    } else {
        0
    }
}

/// The longest run of `c` in the first `n` characters of `s`.
pub open spec fn longest_run(s: Seq<char>, c: char, n: int) -> nat
    decreases n,
{
    if n <= 0 || n > s.len() {
        0
    } else {
        let prev = longest_run(s, c, n - 1);
        let here = run_ending(s, c, n);
        if here > prev { here } else { prev }
    }
}

proof fn lemma_run_bounded(s: Seq<char>, c: char, n: int)
    requires
        0 <= n <= s.len(),
    ensures
        run_ending(s, c, n) <= n,
        longest_run(s, c, n) <= n,
    decreases n,
{
    if n > 0 {
        lemma_run_bounded(s, c, n - 1);
    }
}

/// Find the longest streak of `character` in `value`.
pub fn longest_streak(value: &str, character: char) -> (r: usize)
    ensures
        r == longest_run(value@, character, value@.len() as int),
{
    let v = chars_of(value);
    let mut count: usize = 0;
    let mut max: usize = 0;
    let mut i: usize = 0;
    while i < v.len()
        invariant
            v@ == value@,
            i <= v.len(),
            count == run_ending(v@, character, i as int),
            max == longest_run(v@, character, i as int),
        decreases v.len() - i,
    {
        proof {
            lemma_run_bounded(v@, character, i as int);
        }
        if v[i] == character {
            count += 1;
            if count > max {
                max = count;
            }
        } else {
            count = 0;
        }
        i += 1;
    }
    max
}

/// The characters with the Unicode `White_Space` property.
pub open spec fn is_white_space_spec(c: char) -> bool {
    ('\u{0009}' <= c && c <= '\u{000D}') || c == ' ' || c == '\u{0085}' || c == '\u{00A0}'
        || c == '\u{1680}' || ('\u{2000}' <= c && c <= '\u{200A}') || c == '\u{2028}'
        || c == '\u{2029}' || c == '\u{202F}' || c == '\u{205F}' || c == '\u{3000}'
}

/// Whether a character has the Unicode `White_Space` property, as
/// `char::is_whitespace` tells.
pub(crate) fn char_is_whitespace(c: char) -> (r: bool)
    ensures
        r == is_white_space_spec(c),
{
    ('\u{0009}' <= c && c <= '\u{000D}') || c == ' ' || c == '\u{0085}' || c == '\u{00A0}' || c == '\u{1680}'
        || ('\u{2000}' <= c && c <= '\u{200A}') || c == '\u{2028}' || c == '\u{2029}' || c == '\u{202F}' || c
        == '\u{205F}' || c == '\u{3000}'
}

/// Classification of a character next to an attention marker.
#[derive(Debug, PartialEq, Eq, Structural)]
pub enum CharacterKind {
    Whitespace,
    Punctuation,
    Other,
}

/// Unicode punctuation categories.
#[derive(Debug, PartialEq, Eq, Structural)]
enum UnicodeCategory {
    Pc,
    Pd,
    Pe,
    Pf,
    Pi,
    Po,
    Ps,
    Other,
}

/// The characters classified as connector punctuation (Pc).
pub open spec fn is_connector_spec(c: char) -> bool {
        c == '_'
}

fn is_connector(c: char) -> (r: bool)
    ensures
        r == is_connector_spec(c),
{
        c == '_'
}

/// The characters classified as dash punctuation (Pd).
pub open spec fn is_dash_spec(c: char) -> bool {
        c == '-' || ('\u{2010}' <= c && c <= '\u{2015}') || c == '\u{2E17}' || c == '\u{2E1A}'
        || ('\u{2E3A}' <= c && c <= '\u{2E3B}') || c == '\u{301C}' || c == '\u{3030}'
        || c == '\u{30A0}' || ('\u{FE31}' <= c && c <= '\u{FE32}') || c == '\u{FE58}'
        || c == '\u{FE63}' || c == '\u{FF0D}'
}

fn is_dash(c: char) -> (r: bool)
    ensures
        r == is_dash_spec(c),
{
        c == '-' || ('\u{2010}' <= c && c <= '\u{2015}') || c == '\u{2E17}' || c == '\u{2E1A}'
        || ('\u{2E3A}' <= c && c <= '\u{2E3B}') || c == '\u{301C}' || c == '\u{3030}'
        || c == '\u{30A0}' || ('\u{FE31}' <= c && c <= '\u{FE32}') || c == '\u{FE58}'
        || c == '\u{FE63}' || c == '\u{FF0D}'
}

/// The characters classified as close punctuation (Pe).
pub open spec fn is_close_spec(c: char) -> bool {
        c == ')' || c == ']' || c == '}' || c == '\u{0F3B}' || c == '\u{0F3D}'
        || c == '\u{169C}' || c == '\u{2046}' || c == '\u{207E}' || c == '\u{208E}'
        || c == '\u{2309}' || c == '\u{230B}' || c == '\u{232A}' || c == '\u{2769}'
        || c == '\u{276B}' || c == '\u{276D}' || c == '\u{276F}' || c == '\u{2771}'
        || c == '\u{2773}' || c == '\u{2775}' || c == '\u{27C6}' || c == '\u{27E7}'
        || c == '\u{27E9}' || c == '\u{27EB}' || c == '\u{27ED}' || c == '\u{27EF}'
        || c == '\u{2984}' || c == '\u{2986}' || c == '\u{2988}' || c == '\u{298A}'
        || c == '\u{298C}' || c == '\u{298E}' || c == '\u{2990}' || c == '\u{2992}'
        || c == '\u{2994}' || c == '\u{2996}' || c == '\u{2998}' || c == '\u{29D9}'
        || c == '\u{29DB}' || c == '\u{29FD}' || c == '\u{2E23}' || c == '\u{2E25}'
        || c == '\u{2E27}' || c == '\u{2E29}' || c == '\u{3009}' || c == '\u{300B}'
        || c == '\u{300D}' || c == '\u{300F}' || c == '\u{3011}' || c == '\u{3015}'
        || c == '\u{3017}' || c == '\u{3019}' || c == '\u{301B}'
        || ('\u{301E}' <= c && c <= '\u{301F}') || c == '\u{FD3E}' || c == '\u{FE18}'
        || c == '\u{FE36}' || c == '\u{FE38}' || c == '\u{FE3A}' || c == '\u{FE3C}'
        || c == '\u{FE3E}' || c == '\u{FE40}' || c == '\u{FE42}' || c == '\u{FE44}'
        || c == '\u{FE48}' || c == '\u{FE5A}' || c == '\u{FE5C}' || c == '\u{FE5E}'
        || c == '\u{FF09}' || c == '\u{FF3D}' || c == '\u{FF5D}' || c == '\u{FF60}'
        || c == '\u{FF63}'
}

fn is_close(c: char) -> (r: bool)
    ensures
        r == is_close_spec(c),
{
        c == ')' || c == ']' || c == '}' || c == '\u{0F3B}' || c == '\u{0F3D}'
        || c == '\u{169C}' || c == '\u{2046}' || c == '\u{207E}' || c == '\u{208E}'
        || c == '\u{2309}' || c == '\u{230B}' || c == '\u{232A}' || c == '\u{2769}'
        || c == '\u{276B}' || c == '\u{276D}' || c == '\u{276F}' || c == '\u{2771}'
        || c == '\u{2773}' || c == '\u{2775}' || c == '\u{27C6}' || c == '\u{27E7}'
        || c == '\u{27E9}' || c == '\u{27EB}' || c == '\u{27ED}' || c == '\u{27EF}'
        || c == '\u{2984}' || c == '\u{2986}' || c == '\u{2988}' || c == '\u{298A}'
        || c == '\u{298C}' || c == '\u{298E}' || c == '\u{2990}' || c == '\u{2992}'
        || c == '\u{2994}' || c == '\u{2996}' || c == '\u{2998}' || c == '\u{29D9}'
        || c == '\u{29DB}' || c == '\u{29FD}' || c == '\u{2E23}' || c == '\u{2E25}'
        || c == '\u{2E27}' || c == '\u{2E29}' || c == '\u{3009}' || c == '\u{300B}'
        || c == '\u{300D}' || c == '\u{300F}' || c == '\u{3011}' || c == '\u{3015}'
        || c == '\u{3017}' || c == '\u{3019}' || c == '\u{301B}'
        || ('\u{301E}' <= c && c <= '\u{301F}') || c == '\u{FD3E}' || c == '\u{FE18}'
        || c == '\u{FE36}' || c == '\u{FE38}' || c == '\u{FE3A}' || c == '\u{FE3C}'
        || c == '\u{FE3E}' || c == '\u{FE40}' || c == '\u{FE42}' || c == '\u{FE44}'
        || c == '\u{FE48}' || c == '\u{FE5A}' || c == '\u{FE5C}' || c == '\u{FE5E}'
        || c == '\u{FF09}' || c == '\u{FF3D}' || c == '\u{FF5D}' || c == '\u{FF60}'
        || c == '\u{FF63}'
}

/// The characters classified as final quote punctuation (Pf).
pub open spec fn is_final_quote_spec(c: char) -> bool {
        c == '\u{00BB}' || c == '\u{2019}' || c == '\u{201D}' || c == '\u{203A}'
        || c == '\u{2E03}' || c == '\u{2E05}' || c == '\u{2E0A}' || c == '\u{2E0D}'
        || c == '\u{2E1D}' || c == '\u{2E21}'
}

fn is_final_quote(c: char) -> (r: bool)
    ensures
        r == is_final_quote_spec(c),
{
        c == '\u{00BB}' || c == '\u{2019}' || c == '\u{201D}' || c == '\u{203A}'
        || c == '\u{2E03}' || c == '\u{2E05}' || c == '\u{2E0A}' || c == '\u{2E0D}'
        || c == '\u{2E1D}' || c == '\u{2E21}'
}

/// The characters classified as initial quote punctuation (Pi).
pub open spec fn is_initial_quote_spec(c: char) -> bool {
        c == '\u{00AB}' || c == '\u{2018}' || ('\u{201B}' <= c && c <= '\u{201C}')
        || c == '\u{201F}' || c == '\u{2039}' || c == '\u{2E02}' || c == '\u{2E04}'
        || c == '\u{2E09}' || c == '\u{2E0C}' || c == '\u{2E1C}' || c == '\u{2E20}'
}

fn is_initial_quote(c: char) -> (r: bool)
    ensures
        r == is_initial_quote_spec(c),
{
        c == '\u{00AB}' || c == '\u{2018}' || ('\u{201B}' <= c && c <= '\u{201C}')
        || c == '\u{201F}' || c == '\u{2039}' || c == '\u{2E02}' || c == '\u{2E04}'
        || c == '\u{2E09}' || c == '\u{2E0C}' || c == '\u{2E1C}' || c == '\u{2E20}'
}

/// The characters classified as open punctuation (Ps).
pub open spec fn is_open_spec(c: char) -> bool {
        c == '(' || c == '[' || c == '{' || c == '\u{0F3A}' || c == '\u{0F3C}'
        || c == '\u{169B}' || c == '\u{2045}' || c == '\u{207D}' || c == '\u{208D}'
        || c == '\u{2308}' || c == '\u{230A}' || c == '\u{2329}' || c == '\u{2768}'
        || c == '\u{276A}' || c == '\u{276C}' || c == '\u{276E}' || c == '\u{2770}'
        || c == '\u{2772}' || c == '\u{2774}' || c == '\u{27C5}' || c == '\u{27E6}'
        || c == '\u{27E8}' || c == '\u{27EA}' || c == '\u{27EC}' || c == '\u{27EE}'
        || c == '\u{2983}' || c == '\u{2985}' || c == '\u{2987}' || c == '\u{2989}'
        || c == '\u{298B}' || c == '\u{298D}' || c == '\u{298F}' || c == '\u{2991}'
        || c == '\u{2993}' || c == '\u{2995}' || c == '\u{2997}' || c == '\u{29D8}'
        || c == '\u{29DA}' || c == '\u{29FC}' || c == '\u{2E22}' || c == '\u{2E24}'
        || c == '\u{2E26}' || c == '\u{2E28}' || c == '\u{3008}' || c == '\u{300A}'
        || c == '\u{300C}' || c == '\u{300E}' || c == '\u{3010}' || c == '\u{3014}'
        || c == '\u{3016}' || c == '\u{3018}' || c == '\u{301A}' || c == '\u{301D}'
        || c == '\u{FD3F}' || c == '\u{FE17}' || c == '\u{FE35}' || c == '\u{FE37}'
        || c == '\u{FE39}' || c == '\u{FE3B}' || c == '\u{FE3D}' || c == '\u{FE3F}'
        || c == '\u{FE41}' || c == '\u{FE43}' || c == '\u{FE47}' || c == '\u{FE59}'
        || c == '\u{FE5B}' || c == '\u{FE5D}' || c == '\u{FF08}' || c == '\u{FF3B}'
        || c == '\u{FF5B}' || c == '\u{FF5F}' || c == '\u{FF62}'
}

fn is_open(c: char) -> (r: bool)
    ensures
        r == is_open_spec(c),
{
        c == '(' || c == '[' || c == '{' || c == '\u{0F3A}' || c == '\u{0F3C}'
        || c == '\u{169B}' || c == '\u{2045}' || c == '\u{207D}' || c == '\u{208D}'
        || c == '\u{2308}' || c == '\u{230A}' || c == '\u{2329}' || c == '\u{2768}'
        || c == '\u{276A}' || c == '\u{276C}' || c == '\u{276E}' || c == '\u{2770}'
        || c == '\u{2772}' || c == '\u{2774}' || c == '\u{27C5}' || c == '\u{27E6}'
        || c == '\u{27E8}' || c == '\u{27EA}' || c == '\u{27EC}' || c == '\u{27EE}'
        || c == '\u{2983}' || c == '\u{2985}' || c == '\u{2987}' || c == '\u{2989}'
        || c == '\u{298B}' || c == '\u{298D}' || c == '\u{298F}' || c == '\u{2991}'
        || c == '\u{2993}' || c == '\u{2995}' || c == '\u{2997}' || c == '\u{29D8}'
        || c == '\u{29DA}' || c == '\u{29FC}' || c == '\u{2E22}' || c == '\u{2E24}'
        || c == '\u{2E26}' || c == '\u{2E28}' || c == '\u{3008}' || c == '\u{300A}'
        || c == '\u{300C}' || c == '\u{300E}' || c == '\u{3010}' || c == '\u{3014}'
        || c == '\u{3016}' || c == '\u{3018}' || c == '\u{301A}' || c == '\u{301D}'
        || c == '\u{FD3F}' || c == '\u{FE17}' || c == '\u{FE35}' || c == '\u{FE37}'
        || c == '\u{FE39}' || c == '\u{FE3B}' || c == '\u{FE3D}' || c == '\u{FE3F}'
        || c == '\u{FE41}' || c == '\u{FE43}' || c == '\u{FE47}' || c == '\u{FE59}'
        || c == '\u{FE5B}' || c == '\u{FE5D}' || c == '\u{FF08}' || c == '\u{FF3B}'
        || c == '\u{FF5B}' || c == '\u{FF5F}' || c == '\u{FF62}'
}

/// The characters classified as other punctuation (Po).
pub open spec fn is_other_punct_spec(c: char) -> bool {
        c == '!' || c == '"' || c == '#' || c == '%' || c == '&' || c == '\'' || c == '*'
        || c == ',' || c == '.' || c == '/' || c == ':' || c == ';' || c == '?' || c == '@'
        || c == '\\' || c == '\u{00A1}' || c == '\u{00A7}' || c == '\u{00B6}' || c == '\u{00B7}'
        || c == '\u{00BF}' || c == '\u{037E}' || c == '\u{0387}'
        || ('\u{055A}' <= c && c <= '\u{055F}') || c == '\u{0589}' || c == '\u{05C0}'
        || c == '\u{05C3}' || c == '\u{05C6}' || ('\u{05F3}' <= c && c <= '\u{05F4}')
        || ('\u{0609}' <= c && c <= '\u{060A}') || ('\u{060C}' <= c && c <= '\u{060D}')
        || c == '\u{061B}' || ('\u{061E}' <= c && c <= '\u{061F}')
        || ('\u{066A}' <= c && c <= '\u{066D}') || c == '\u{06D4}'
}

fn is_other_punct(c: char) -> (r: bool)
    ensures
        r == is_other_punct_spec(c),
{
        c == '!' || c == '"' || c == '#' || c == '%' || c == '&' || c == '\'' || c == '*'
        || c == ',' || c == '.' || c == '/' || c == ':' || c == ';' || c == '?' || c == '@'
        || c == '\\' || c == '\u{00A1}' || c == '\u{00A7}' || c == '\u{00B6}' || c == '\u{00B7}'
        || c == '\u{00BF}' || c == '\u{037E}' || c == '\u{0387}'
        || ('\u{055A}' <= c && c <= '\u{055F}') || c == '\u{0589}' || c == '\u{05C0}'
        || c == '\u{05C3}' || c == '\u{05C6}' || ('\u{05F3}' <= c && c <= '\u{05F4}')
        || ('\u{0609}' <= c && c <= '\u{060A}') || ('\u{060C}' <= c && c <= '\u{060D}')
        || c == '\u{061B}' || ('\u{061E}' <= c && c <= '\u{061F}')
        || ('\u{066A}' <= c && c <= '\u{066D}') || c == '\u{06D4}'
}

/// The punctuation category of a character, if it has one.
spec fn unicode_category_spec(c: char) -> UnicodeCategory {
    if is_connector_spec(c) {
        UnicodeCategory::Pc
    } else if is_dash_spec(c) {
        UnicodeCategory::Pd
    } else if is_close_spec(c) {
        UnicodeCategory::Pe
    } else if is_final_quote_spec(c) {
        UnicodeCategory::Pf
    } else if is_initial_quote_spec(c) {
        UnicodeCategory::Pi
    } else if is_open_spec(c) {
        UnicodeCategory::Ps
    } else if is_other_punct_spec(c) {
        UnicodeCategory::Po
    } else {
        UnicodeCategory::Other
    }
}

fn unicode_category(ch: char) -> (r: UnicodeCategory)
    ensures
        r == unicode_category_spec(ch),
{
    if is_connector(ch) {
        UnicodeCategory::Pc
    } else if is_dash(ch) {
        UnicodeCategory::Pd
    } else if is_close(ch) {
        UnicodeCategory::Pe
    } else if is_final_quote(ch) {
        UnicodeCategory::Pf
    } else if is_initial_quote(ch) {
        UnicodeCategory::Pi
    } else if is_open(ch) {
        UnicodeCategory::Ps
    } else if is_other_punct(ch) {
        UnicodeCategory::Po
    } else {
        UnicodeCategory::Other
    }
}

/// Unicode punctuation: one of the punctuation categories.
pub open spec fn unicode_punctuation_spec(c: char) -> bool {
    is_connector_spec(c) || is_dash_spec(c) || is_close_spec(c) || is_final_quote_spec(c)
        || is_initial_quote_spec(c) || is_open_spec(c) || is_other_punct_spec(c)
}

/// Check if a character is Unicode punctuation.
fn unicode_punctuation(ch: char) -> (r: bool)
    ensures
        r == unicode_punctuation_spec(ch),
{
    let cat = unicode_category(ch);
    match cat {
        UnicodeCategory::Other => false,
        _ => true,
    }
}

/// The class of a character: whitespace, punctuation, or other.
pub open spec fn classify_spec(c: char) -> CharacterKind {
    if is_white_space_spec(c) {
        CharacterKind::Whitespace
    } else if is_ascii_punct_spec(c) || unicode_punctuation_spec(c) {
        CharacterKind::Punctuation
    } else {
        CharacterKind::Other
    }
}

/// Classify a character as whitespace, punctuation, or other.
pub fn classify_character(ch: char) -> (r: CharacterKind)
    ensures
        r == classify_spec(ch),
{
    if char_is_whitespace(ch) || ch == '\t' || ch == '\n' || ch == '\r' || ch == ' ' {
        CharacterKind::Whitespace
    } else if is_ascii_punct(ch) || unicode_punctuation(ch) {
        CharacterKind::Punctuation
    } else {
        CharacterKind::Other
    }
}

/// Whether to encode (as a character reference) the characters surrounding an
/// attention run.
#[derive(Debug, Clone, Copy, PartialEq, Eq)]
pub struct EncodeInfoResult {
    pub inside: bool,
    pub outside: bool,
}

/// 0 for a letter (or nothing), 1 for whitespace, 2 for punctuation.
pub open spec fn attention_class(c: Option<char>) -> int {
    match c {
        None => 0,
        Some(ch) => match classify_spec(ch) {
            CharacterKind::Other => 0,
            CharacterKind::Whitespace => 1,
            CharacterKind::Punctuation => 2,
        },
    }
}

/// The encoding decision for an attention run given the classes of the
/// characters outside and inside it and the marker.
pub open spec fn encode_info_spec(outside: Option<char>, inside: Option<char>, marker: char) -> EncodeInfoResult {
    let o = attention_class(outside);
    let i = attention_class(inside);
    if o == 0 {
        if i == 0 {
            if marker == '_' {
                EncodeInfoResult { inside: true, outside: true }
            } else {
                EncodeInfoResult { inside: false, outside: false }
            }
        } else if i == 1 {
            EncodeInfoResult { inside: true, outside: true }
        } else {
            EncodeInfoResult { inside: false, outside: true }
        }
    } else if o == 1 {
        if i == 1 {
            EncodeInfoResult { inside: true, outside: true }
        } else {
            EncodeInfoResult { inside: false, outside: false }
        }
    } else {
        if i == 1 {
            EncodeInfoResult { inside: true, outside: false }
        } else {
            EncodeInfoResult { inside: false, outside: false }
        }
    }
}

fn attention_class_of(c: Option<char>) -> (r: u8)
    ensures
        r as int == attention_class(c),
{
    match c {
        None => 0,
        Some(ch) => match classify_character(ch) {
            CharacterKind::Other => 0,
            CharacterKind::Whitespace => 1,
            CharacterKind::Punctuation => 2,
        },
    }
}

/// Check whether to encode (as a character reference) the characters
/// surrounding an attention run.
pub fn encode_info(outside: Option<char>, inside: Option<char>, marker: char) -> (r: EncodeInfoResult)
    ensures
        r == encode_info_spec(outside, inside, marker),
{
    let ok = attention_class_of(outside);
    let ik = attention_class_of(inside);
    if ok == 0 {
        if ik == 0 {
            if marker == '_' {
                EncodeInfoResult { inside: true, outside: true }
            } else {
                EncodeInfoResult { inside: false, outside: false }
            }
        } else if ik == 1 {
            EncodeInfoResult { inside: true, outside: true }
        } else {
            EncodeInfoResult { inside: false, outside: true }
        }
    } else if ok == 1 {
        if ik == 1 {
            EncodeInfoResult { inside: true, outside: true }
        } else {
            EncodeInfoResult { inside: false, outside: false }
        }
    } else {
        if ik == 1 {
            EncodeInfoResult { inside: true, outside: false }
        } else {
            EncodeInfoResult { inside: false, outside: false }
        }
    }
}

/// Get the list item indent style (`tab`, `one` or `mixed`).
pub fn check_list_item_indent(state: &State) -> (r: &str)
    requires
        valid_list_item_indent(state.options.list_item_indent@),
    ensures
        r@ == state.options.list_item_indent@,
{
    state.options.list_item_indent.as_str()
}

}
