//! Configuration and context types shared by the serializer.

use vstd::prelude::*;
use crate::text::{owned, str_eq};

verus! {

/// Construct names for context tracking: what we are currently serializing within.
#[derive(Debug, Clone, PartialEq, Eq, Hash)]
pub enum ConstructName {
    Autolink,
    Blockquote,
    CodeIndented,
    CodeFenced,
    CodeFencedLangGraveAccent,
    CodeFencedLangTilde,
    CodeFencedMetaGraveAccent,
    CodeFencedMetaTilde,
    Definition,
    DestinationLiteral,
    DestinationRaw,
    Emphasis,
    HeadingAtx,
    HeadingSetext,
    Image,
    ImageReference,
    Label,
    Link,
    LinkReference,
    List,
    ListItem,
    Paragraph,
    Phrasing,
    Reference,
    Strong,
    TitleApostrophe,
    TitleQuote,
    Table,
    TableCell,
    TableRow,
    Strikethrough,
    /// Custom construct name for extensions.
    Custom(String),
}

/// Two construct names denote the same construct (custom names by their text).
pub open spec fn same_construct(a: ConstructName, b: ConstructName) -> bool {
    match (a, b) {
        (ConstructName::Custom(x), ConstructName::Custom(y)) => x@ == y@,
        (ConstructName::Custom(_), _) => false,
        (_, ConstructName::Custom(_)) => false,
        _ => a == b,
    }
}

/// Whether two construct names denote the same construct.
pub fn construct_eq(a: &ConstructName, b: &ConstructName) -> (r: bool)
    ensures
        r == same_construct(*a, *b),
{
    match (a, b) {
        (ConstructName::Custom(x), ConstructName::Custom(y)) => str_eq(x.as_str(), y.as_str()),
        (ConstructName::Custom(_), _) => false,
        (_, ConstructName::Custom(_)) => false,
        (ConstructName::Autolink, ConstructName::Autolink) => true,
        (ConstructName::Blockquote, ConstructName::Blockquote) => true,
        (ConstructName::CodeIndented, ConstructName::CodeIndented) => true,
        (ConstructName::CodeFenced, ConstructName::CodeFenced) => true,
        (ConstructName::CodeFencedLangGraveAccent, ConstructName::CodeFencedLangGraveAccent) => true,
        (ConstructName::CodeFencedLangTilde, ConstructName::CodeFencedLangTilde) => true,
        (ConstructName::CodeFencedMetaGraveAccent, ConstructName::CodeFencedMetaGraveAccent) => true,
        (ConstructName::CodeFencedMetaTilde, ConstructName::CodeFencedMetaTilde) => true,
        (ConstructName::Definition, ConstructName::Definition) => true,
        (ConstructName::DestinationLiteral, ConstructName::DestinationLiteral) => true,
        (ConstructName::DestinationRaw, ConstructName::DestinationRaw) => true,
        (ConstructName::Emphasis, ConstructName::Emphasis) => true,
        (ConstructName::HeadingAtx, ConstructName::HeadingAtx) => true,
        (ConstructName::HeadingSetext, ConstructName::HeadingSetext) => true,
        (ConstructName::Image, ConstructName::Image) => true,
        (ConstructName::ImageReference, ConstructName::ImageReference) => true,
        (ConstructName::Label, ConstructName::Label) => true,
        (ConstructName::Link, ConstructName::Link) => true,
        (ConstructName::LinkReference, ConstructName::LinkReference) => true,
        (ConstructName::List, ConstructName::List) => true,
        (ConstructName::ListItem, ConstructName::ListItem) => true,
        (ConstructName::Paragraph, ConstructName::Paragraph) => true,
        (ConstructName::Phrasing, ConstructName::Phrasing) => true,
        (ConstructName::Reference, ConstructName::Reference) => true,
        (ConstructName::Strong, ConstructName::Strong) => true,
        (ConstructName::TitleApostrophe, ConstructName::TitleApostrophe) => true,
        (ConstructName::TitleQuote, ConstructName::TitleQuote) => true,
        (ConstructName::Table, ConstructName::Table) => true,
        (ConstructName::TableCell, ConstructName::TableCell) => true,
        (ConstructName::TableRow, ConstructName::TableRow) => true,
        (ConstructName::Strikethrough, ConstructName::Strikethrough) => true,
        _ => false,
    }
}

/// A copy of a construct name.
pub fn copy_construct(a: &ConstructName) -> (r: ConstructName)
    ensures
        r == *a,
{
    match a {
        ConstructName::Custom(x) => ConstructName::Custom(x.clone()),
        ConstructName::Autolink => ConstructName::Autolink,
        ConstructName::Blockquote => ConstructName::Blockquote,
        ConstructName::CodeIndented => ConstructName::CodeIndented,
        ConstructName::CodeFenced => ConstructName::CodeFenced,
        ConstructName::CodeFencedLangGraveAccent => ConstructName::CodeFencedLangGraveAccent,
        ConstructName::CodeFencedLangTilde => ConstructName::CodeFencedLangTilde,
        ConstructName::CodeFencedMetaGraveAccent => ConstructName::CodeFencedMetaGraveAccent,
        ConstructName::CodeFencedMetaTilde => ConstructName::CodeFencedMetaTilde,
        ConstructName::Definition => ConstructName::Definition,
        ConstructName::DestinationLiteral => ConstructName::DestinationLiteral,
        ConstructName::DestinationRaw => ConstructName::DestinationRaw,
        ConstructName::Emphasis => ConstructName::Emphasis,
        ConstructName::HeadingAtx => ConstructName::HeadingAtx,
        ConstructName::HeadingSetext => ConstructName::HeadingSetext,
        ConstructName::Image => ConstructName::Image,
        ConstructName::ImageReference => ConstructName::ImageReference,
        ConstructName::Label => ConstructName::Label,
        ConstructName::Link => ConstructName::Link,
        ConstructName::LinkReference => ConstructName::LinkReference,
        ConstructName::List => ConstructName::List,
        ConstructName::ListItem => ConstructName::ListItem,
        ConstructName::Paragraph => ConstructName::Paragraph,
        ConstructName::Phrasing => ConstructName::Phrasing,
        ConstructName::Reference => ConstructName::Reference,
        ConstructName::Strong => ConstructName::Strong,
        ConstructName::TitleApostrophe => ConstructName::TitleApostrophe,
        ConstructName::TitleQuote => ConstructName::TitleQuote,
        ConstructName::Table => ConstructName::Table,
        ConstructName::TableCell => ConstructName::TableCell,
        ConstructName::TableRow => ConstructName::TableRow,
        ConstructName::Strikethrough => ConstructName::Strikethrough,
    }
}


/// The construct a camelCase construct name denotes, if it is a built-in one.
pub open spec fn builtin_construct(s: Seq<char>) -> Option<ConstructName> {
    if s == "autolink"@ {
        Some(ConstructName::Autolink)
    } else if s == "blockquote"@ {
        Some(ConstructName::Blockquote)
    } else if s == "codeIndented"@ {
        Some(ConstructName::CodeIndented)
    } else if s == "codeFenced"@ {
        Some(ConstructName::CodeFenced)
    } else if s == "codeFencedLangGraveAccent"@ {
        Some(ConstructName::CodeFencedLangGraveAccent)
    } else if s == "codeFencedLangTilde"@ {
        Some(ConstructName::CodeFencedLangTilde)
    } else if s == "codeFencedMetaGraveAccent"@ {
        Some(ConstructName::CodeFencedMetaGraveAccent)
    } else if s == "codeFencedMetaTilde"@ {
        Some(ConstructName::CodeFencedMetaTilde)
    } else if s == "definition"@ {
        Some(ConstructName::Definition)
    } else if s == "destinationLiteral"@ {
        Some(ConstructName::DestinationLiteral)
    } else if s == "destinationRaw"@ {
        Some(ConstructName::DestinationRaw)
    } else if s == "emphasis"@ {
        Some(ConstructName::Emphasis)
    } else if s == "headingAtx"@ {
        Some(ConstructName::HeadingAtx)
    } else if s == "headingSetext"@ {
        Some(ConstructName::HeadingSetext)
    } else if s == "image"@ {
        Some(ConstructName::Image)
    } else if s == "imageReference"@ {
        Some(ConstructName::ImageReference)
    } else if s == "label"@ {
        Some(ConstructName::Label)
    } else if s == "link"@ {
        Some(ConstructName::Link)
    } else if s == "linkReference"@ {
        Some(ConstructName::LinkReference)
    } else if s == "list"@ {
        Some(ConstructName::List)
    } else if s == "listItem"@ {
        Some(ConstructName::ListItem)
    } else if s == "paragraph"@ {
        Some(ConstructName::Paragraph)
    } else if s == "phrasing"@ {
        Some(ConstructName::Phrasing)
    } else if s == "reference"@ {
        Some(ConstructName::Reference)
    } else if s == "strong"@ {
        Some(ConstructName::Strong)
    } else if s == "titleApostrophe"@ {
        Some(ConstructName::TitleApostrophe)
    } else if s == "titleQuote"@ {
        Some(ConstructName::TitleQuote)
    } else if s == "table"@ {
        Some(ConstructName::Table)
    } else if s == "tableCell"@ {
        Some(ConstructName::TableCell)
    } else if s == "tableRow"@ {
        Some(ConstructName::TableRow)
    } else if s == "strikethrough"@ {
        Some(ConstructName::Strikethrough)
    } else {
        None
    }
}

impl ConstructName {
    /// The construct of a camelCase construct name.
    pub fn parse(s: &str) -> (r: Self)
        ensures
            builtin_construct(s@) matches Some(c) ==> r == c,
            builtin_construct(s@) is None ==> (r matches ConstructName::Custom(x) && x@ == s@),
    {
        if str_eq(s, "autolink") {
            Self::Autolink
        } else if str_eq(s, "blockquote") {
            Self::Blockquote
        } else if str_eq(s, "codeIndented") {
            Self::CodeIndented
        } else if str_eq(s, "codeFenced") {
            Self::CodeFenced
        } else if str_eq(s, "codeFencedLangGraveAccent") {
            Self::CodeFencedLangGraveAccent
        } else if str_eq(s, "codeFencedLangTilde") {
            Self::CodeFencedLangTilde
        } else if str_eq(s, "codeFencedMetaGraveAccent") {
            Self::CodeFencedMetaGraveAccent
        } else if str_eq(s, "codeFencedMetaTilde") {
            Self::CodeFencedMetaTilde
        } else if str_eq(s, "definition") {
            Self::Definition
        } else if str_eq(s, "destinationLiteral") {
            Self::DestinationLiteral
        } else if str_eq(s, "destinationRaw") {
            Self::DestinationRaw
        } else if str_eq(s, "emphasis") {
            Self::Emphasis
        } else if str_eq(s, "headingAtx") {
            Self::HeadingAtx
        } else if str_eq(s, "headingSetext") {
            Self::HeadingSetext
        } else if str_eq(s, "image") {
            Self::Image
        } else if str_eq(s, "imageReference") {
            Self::ImageReference
        } else if str_eq(s, "label") {
            Self::Label
        } else if str_eq(s, "link") {
            Self::Link
        } else if str_eq(s, "linkReference") {
            Self::LinkReference
        } else if str_eq(s, "list") {
            Self::List
        } else if str_eq(s, "listItem") {
            Self::ListItem
        } else if str_eq(s, "paragraph") {
            Self::Paragraph
        } else if str_eq(s, "phrasing") {
            Self::Phrasing
        } else if str_eq(s, "reference") {
            Self::Reference
        } else if str_eq(s, "strong") {
            Self::Strong
        } else if str_eq(s, "titleApostrophe") {
            Self::TitleApostrophe
        } else if str_eq(s, "titleQuote") {
            Self::TitleQuote
        } else if str_eq(s, "table") {
            Self::Table
        } else if str_eq(s, "tableCell") {
            Self::TableCell
        } else if str_eq(s, "tableRow") {
            Self::TableRow
        } else if str_eq(s, "strikethrough") {
            Self::Strikethrough
        } else {
            Self::Custom(owned(s))
        }
    }
}


/// Schema that defines when a character cannot occur.
#[derive(Debug, Clone)]
pub struct UnsafePattern {
    /// Single unsafe character.
    pub character: char,
    /// Regex pattern: `character` is bad when this is before it.
    pub before: Option<String>,
    /// Regex pattern: `character` is bad when this is after it.
    pub after: Option<String>,
    /// `character` is bad at a line break (start of line).
    pub at_break: bool,
    /// Constructs where this pattern is active.
    pub in_construct: Vec<ConstructName>,
    /// Constructs where this pattern is inactive (overrides `in_construct`).
    pub not_in_construct: Vec<ConstructName>,
}

/// Configuration options for `to_markdown()`.
#[derive(Debug, Clone)]
pub struct Options {
    /// Marker for unordered list bullets (default: `'*'`).
    pub bullet: char,
    /// Alternative bullet marker when `bullet` can't be used (default: none, meaning `'-'` or `'*'`).
    pub bullet_other: Option<char>,
    /// Marker for ordered list bullets (default: `'.'`).
    pub bullet_ordered: char,
    /// Whether to add closing `#` signs to ATX headings (default: `false`).
    pub close_atx: bool,
    /// Marker for emphasis (default: `'*'`).
    pub emphasis: char,
    /// Marker for fenced code (default: `` '`' ``).
    pub fence: char,
    /// Whether to always use fenced code (default: `true`).
    pub fences: bool,
    /// Whether to increment ordered list item counters (default: `true`).
    pub increment_list_marker: bool,
    /// How to indent list item content: `"one"`, `"tab"`, or `"mixed"` (default: `"one"`).
    pub list_item_indent: String,
    /// Marker for titles in links/images/definitions (default: `'"'`).
    pub quote: char,
    /// Whether to always use resource links (default: `false`).
    pub resource_link: bool,
    /// Marker for thematic breaks (default: `'*'`).
    pub rule: char,
    /// Number of markers for thematic breaks (default: `3`).
    pub rule_repetition: usize,
    /// Whether to add spaces between thematic break markers (default: `false`).
    pub rule_spaces: bool,
    /// Whether to use setext headings when possible (default: `false`).
    pub setext: bool,
    /// Marker for strong (default: `'*'`).
    pub strong: char,
    /// Whether to join definitions without a blank line (default: `false`).
    pub tight_definitions: bool,
    /// Whether to include GFM extensions (tables, strikethrough, task lists).
    pub gfm: bool,
}

/// The documented default options.
pub open spec fn default_options_spec(o: Options) -> bool {
    &&& o.bullet == '*'
    &&& o.bullet_other is None
    &&& o.bullet_ordered == '.'
    &&& !o.close_atx
    &&& o.emphasis == '*'
    &&& o.fence == '`'
    &&& o.fences
    &&& o.increment_list_marker
    &&& o.list_item_indent@ == "one"@
    &&& o.quote == '"'
    &&& !o.resource_link
    &&& o.rule == '*'
    &&& o.rule_repetition == 3
    &&& !o.rule_spaces
    &&& !o.setext
    &&& o.strong == '*'
    &&& !o.tight_definitions
    &&& o.gfm
}

impl Default for Options {
    fn default() -> (o: Self)
        ensures
            default_options_spec(o),
    {
        Self {
            bullet: '*',
            bullet_other: None,
            bullet_ordered: '.',
            close_atx: false,
            emphasis: '*',
            fence: '`',
            fences: true,
            increment_list_marker: true,
            list_item_indent: owned("one"),
            quote: '"',
            resource_link: false,
            rule: '*',
            rule_repetition: 3,
            rule_spaces: false,
            setext: false,
            strong: '*',
            tight_definitions: false,
            gfm: true,
        }
    }
}

/// A copy of a set of options.
pub fn copy_options(o: &Options) -> (r: Options)
    ensures
        r == *o,
{
    Options {
        bullet: o.bullet,
        bullet_other: o.bullet_other,
        bullet_ordered: o.bullet_ordered,
        close_atx: o.close_atx,
        emphasis: o.emphasis,
        fence: o.fence,
        fences: o.fences,
        increment_list_marker: o.increment_list_marker,
        list_item_indent: o.list_item_indent.clone(),
        quote: o.quote,
        resource_link: o.resource_link,
        rule: o.rule,
        rule_repetition: o.rule_repetition,
        rule_spaces: o.rule_spaces,
        setext: o.setext,
        strong: o.strong,
        tight_definitions: o.tight_definitions,
        gfm: o.gfm,
    }
}

/// Info on the surrounding of the node being serialized.
#[derive(Debug, Clone)]
pub struct Info {
    /// Characters before this (guaranteed to be one, can be more).
    pub before: String,
    /// Characters after this (guaranteed to be one, can be more).
    pub after: String,
    /// Current line number (1-indexed).
    pub line: usize,
    /// Current column number (1-indexed).
    pub column: usize,
    /// Number of columns each line will be shifted by wrapping nodes.
    pub line_shift: usize,
}

impl Default for Info {
    fn default() -> (i: Self)
        ensures
            i.before@.len() == 0,
            i.after@.len() == 0,
            i.line == 1,
            i.column == 1,
            i.line_shift == 0,
    {
        Self { before: String::new(), after: String::new(), line: 1, column: 1, line_shift: 0 }
    }
}

/// Configuration for the `safe()` function.
pub struct SafeConfig {
    /// Characters before this.
    pub before: String,
    /// Characters after this.
    pub after: String,
    /// Extra characters that must be encoded as character references
    /// instead of escaped with backslash.
    pub encode: Vec<char>,
}

/// Whether to encode things around attention markers.
#[derive(Debug, Clone, Copy, Default, PartialEq, Eq)]
pub struct EncodeSurrounding {
    /// Whether to encode before.
    pub before: bool,
    /// Whether to encode after.
    pub after: bool,
}

/// Positional tracking fields.
#[derive(Debug, Clone, Copy, PartialEq, Eq)]
pub struct TrackFields {
    /// Current line (1-indexed).
    pub line: usize,
    /// Current column (1-indexed).
    pub column: usize,
    /// Number of columns each line will be shifted.
    pub line_shift: usize,
}

impl Default for TrackFields {
    fn default() -> (t: Self)
        ensures
            t.line == 1,
            t.column == 1,
            t.line_shift == 0,
    {
        Self { line: 1, column: 1, line_shift: 0 }
    }
}

/// The handlers that serialize a node to markdown.
///
/// A handler is chosen by the node type name it is registered under.
#[derive(Debug, Clone, Copy, PartialEq, Eq)]
pub enum HandlerFn {
    Root,
    Text,
    Paragraph,
    Heading,
    Emphasis,
    Strong,
    InlineCode,
    Code,
    Link,
    Image,
    List,
    ListItem,
    Blockquote,
    Break,
    ThematicBreak,
    Html,
    Definition,
    LinkReference,
    ImageReference,
    Table,
    TableRow,
    TableCell,
    Delete,
    /// Inline code that escapes pipes inside table cells (GFM table).
    InlineCodeWithTable,
    /// List item that writes a task checkbox (GFM task list item).
    ListItemWithTask,
}

/// Functions that tell the first character a handler would produce.
#[derive(Debug, Clone, Copy, PartialEq, Eq)]
pub enum PeekFn {
    Emphasis,
    Strong,
    InlineCode,
    Link,
    Image,
    Html,
    LinkReference,
    ImageReference,
    Delete,
}

/// Functions that decide the spacing between adjacent flow children.
///
/// Each returns `Some(n)` with `n >= 0` for `n` blank lines, `Some(-1)` when the
/// nodes cannot be adjacent, or `None` for no opinion.
#[derive(Debug, Clone, Copy, PartialEq, Eq)]
pub enum JoinFn {
    /// The default rules (indented code after lists, spread of lists and items).
    Defaults,
    /// Adjacent definitions are joined without a blank line.
    Definition,
}

/// A registry keyed by node type name, where later registrations win.
#[derive(Debug, Clone)]
pub struct Registry<V> {
    pub entries: Vec<(String, V)>,
}

/// The value most recently registered under `key`.
pub open spec fn lookup_in<V>(entries: Seq<(Seq<char>, V)>, key: Seq<char>) -> Option<V>
    decreases entries.len(),
{
    if entries.len() == 0 {
        None
    } else if entries.last().0 == key {
        Some(entries.last().1)
    } else {
        lookup_in(entries.drop_last(), key)
    }
}

impl<V> View for Registry<V> {
    type V = Seq<(Seq<char>, V)>;

    /// The registrations, in order, with keys as character sequences.
    open spec fn view(&self) -> Seq<(Seq<char>, V)> {
        self.entries@.map_values(|e: (String, V)| (e.0@, e.1))
    }
}

impl<V: Copy> Registry<V> {
    /// The value most recently registered under `key`.
    pub open spec fn lookup(&self, key: Seq<char>) -> Option<V> {
        lookup_in(self@, key)
    }

    /// The lookup as a function of the key.
    pub open spec fn lookup_fn(&self) -> spec_fn(Seq<char>) -> Option<V> {
        |key: Seq<char>| lookup_in(self@, key)
    }

    /// An empty registry.
    pub fn new() -> (r: Self)
        ensures
            r@.len() == 0,
            forall|k: Seq<char>| r.lookup(k) is None,
    {
        let r = Registry { entries: Vec::new() };
        assert(r@ =~= Seq::<(Seq<char>, V)>::empty());
        r
    }

    /// Register `value` under `key`, replacing what was registered there.
    pub fn insert(&mut self, key: String, value: V)
        ensures
            final(self)@ == old(self)@.push((key@, value)),
            final(self).lookup(key@) == Some(value),
            forall|k: Seq<char>| k != key@ ==> final(self).lookup(k) == old(self).lookup(k),
    {
        let ghost k0 = key@;
        self.entries.push((key, value));
        assert(self@ =~= old(self)@.push((k0, value)));
        assert(self@.drop_last() =~= old(self)@);
    }

    /// The value registered under `key`.
    pub fn get(&self, key: &str) -> (r: Option<V>)
        ensures
            r == self.lookup(key@),
    {
        let mut i = self.entries.len();
        assert(self@.take(i as int) =~= self@);
        while i > 0
            invariant
                i <= self.entries.len(),
                self@.len() == self.entries@.len(),
                self.lookup(key@) == lookup_in(self@.take(i as int), key@),
            decreases i,
        {
            let entry = &self.entries[i - 1];
            assert(self@.take(i as int).last() == (entry.0@, entry.1));
            if str_eq(entry.0.as_str(), key) {
                return Some(entry.1);
            }
            assert(self@.take(i as int).drop_last() =~= self@.take(i - 1));
            i -= 1;
        }
        None
    }

    /// Register everything in `other`, in order (later registrations win).
    pub fn extend(&mut self, other: Registry<V>)
        ensures
            final(self)@ == old(self)@ + other@,
            forall|k: Seq<char>|
                #[trigger] final(self).lookup(k) == (match other.lookup(k) {
                    Some(v) => Some(v),
                    None => old(self).lookup(k),
                }),
    {
        let ghost a = self@;
        let ghost b = other@;
        let mut other = other;
        self.entries.append(&mut other.entries);
        proof {
            assert(self@ =~= a + b);
            lemma_lookup_append(a, b);
        }
    }
}

/// Looking up in a concatenation prefers the later entries.
pub proof fn lemma_lookup_append<V>(a: Seq<(Seq<char>, V)>, b: Seq<(Seq<char>, V)>)
    ensures
        forall|k: Seq<char>|
            #[trigger] lookup_in(a + b, k) == (match lookup_in(b, k) {
                Some(v) => Some(v),
                None => lookup_in(a, k),
            }),
    decreases b.len(),
{
    assert forall|k: Seq<char>|
        #[trigger] lookup_in(a + b, k) == (match lookup_in(b, k) {
            Some(v) => Some(v),
            None => lookup_in(a, k),
        }) by {
        if b.len() == 0 {
            assert(a + b =~= a);
        } else {
            lemma_lookup_append(a, b.drop_last());
            assert((a + b).drop_last() =~= a + b.drop_last());
            assert((a + b).last() == b.last());
            assert((a + b).len() > 0);
            if b.last().0 == k {
                assert(lookup_in(a + b, k) == Some(b.last().1));
            } else {
                assert(lookup_in(a + b, k) == lookup_in((a + b).drop_last(), k));
                assert(lookup_in(b, k) == lookup_in(b.drop_last(), k));
            }
        }
    }
}

/// The handler registry.
pub type HandlerMap = Registry<HandlerFn>;

/// The peek registry.
pub type PeekMap = Registry<PeekFn>;

/// Extension for customizing markdown serialization.
///
/// Merging: `handlers` last-wins, `unsafe_patterns` and `join` accumulate.
pub struct Extension {
    pub handlers: HandlerMap,
    pub unsafe_patterns: Vec<UnsafePattern>,
    pub join: Vec<JoinFn>,
}

}
