//! The characters that cannot occur as themselves, and where.

use vstd::prelude::*;
use crate::text::owned;
use crate::types::{ConstructName, UnsafePattern};

verus! {

/// The optional texts of a pattern, as character sequences.
pub open spec fn opt_view(o: Option<String>) -> Option<Seq<char>> {
    match o {
        Some(s) => Some(s@),
        None => None,
    }
}

/// A pattern with the given fields.
pub open spec fn pattern_is(
    p: UnsafePattern,
    c: char,
    before: Option<Seq<char>>,
    after: Option<Seq<char>>,
    at_break: bool,
    in_construct: Seq<ConstructName>,
    not_in_construct: Seq<ConstructName>,
) -> bool {
    &&& p.character == c
    &&& opt_view(p.before) == before
    &&& opt_view(p.after) == after
    &&& p.at_break == at_break
    &&& p.in_construct@ =~= in_construct
    &&& p.not_in_construct@ =~= not_in_construct
}

/// Build a pattern.
pub fn make_pattern(
    character: char,
    before: Option<&str>,
    after: Option<&str>,
    at_break: bool,
    in_construct: Vec<ConstructName>,
    not_in_construct: Vec<ConstructName>,
) -> (p: UnsafePattern)
    ensures
        pattern_is(
            p,
            character,
            match before {
                Some(b) => Some(b@),
                None => None,
            },
            match after {
                Some(a) => Some(a@),
                None => None,
            },
            at_break,
            in_construct@,
            not_in_construct@,
        ),
{
    UnsafePattern {
        character,
        before: match before {
            Some(b) => Some(owned(b)),
            None => None,
        },
        after: match after {
            Some(a) => Some(owned(a)),
            None => None,
        },
        at_break,
        in_construct,
        not_in_construct,
    }
}

/// Constructs that occur in phrasing (paragraphs, headings) but cannot contain
/// attention, images or links.
pub open spec fn full_phrasing_spans_spec() -> Seq<ConstructName> {
    seq![
        ConstructName::Autolink,
        ConstructName::DestinationLiteral,
        ConstructName::DestinationRaw,
        ConstructName::Reference,
        ConstructName::TitleQuote,
        ConstructName::TitleApostrophe,
    ]
}

/// List of constructs that occur in phrasing but cannot contain things like
/// attention, images, or links.
fn full_phrasing_spans() -> (r: Vec<ConstructName>)
    ensures
        r@ == full_phrasing_spans_spec(),
{
    vec![
        ConstructName::Autolink,
        ConstructName::DestinationLiteral,
        ConstructName::DestinationRaw,
        ConstructName::Reference,
        ConstructName::TitleQuote,
        ConstructName::TitleApostrophe,
    ]
}

/// The default unsafe patterns, one by one.
pub open spec fn default_patterns_spec(ps: Seq<UnsafePattern>) -> bool {
    &&& ps.len() == 40
    &&& pattern_is(
        ps[0],
        '\t',
        None,
        Some("[\\r\\n]"@),
        false,
        seq![ConstructName::Phrasing],
        seq![],
    )
    &&& pattern_is(
        ps[1],
        '\t',
        Some("[\\r\\n]"@),
        None,
        false,
        seq![ConstructName::Phrasing],
        seq![],
    )
    &&& pattern_is(
        ps[2],
        '\t',
        None,
        None,
        false,
        seq![ConstructName::CodeFencedLangGraveAccent, ConstructName::CodeFencedLangTilde],
        seq![],
    )
    &&& pattern_is(
        ps[3],
        '\r',
        None,
        None,
        false,
        seq![ConstructName::CodeFencedLangGraveAccent, ConstructName::CodeFencedLangTilde, ConstructName::CodeFencedMetaGraveAccent, ConstructName::CodeFencedMetaTilde, ConstructName::DestinationLiteral, ConstructName::HeadingAtx],
        seq![],
    )
    &&& pattern_is(
        ps[4],
        '\n',
        None,
        None,
        false,
        seq![ConstructName::CodeFencedLangGraveAccent, ConstructName::CodeFencedLangTilde, ConstructName::CodeFencedMetaGraveAccent, ConstructName::CodeFencedMetaTilde, ConstructName::DestinationLiteral, ConstructName::HeadingAtx],
        seq![],
    )
    &&& pattern_is(
        ps[5],
        ' ',
        None,
        Some("[\\r\\n]"@),
        false,
        seq![ConstructName::Phrasing],
        seq![],
    )
    &&& pattern_is(
        ps[6],
        ' ',
        Some("[\\r\\n]"@),
        None,
        false,
        seq![ConstructName::Phrasing],
        seq![],
    )
    &&& pattern_is(
        ps[7],
        ' ',
        None,
        None,
        false,
        seq![ConstructName::CodeFencedLangGraveAccent, ConstructName::CodeFencedLangTilde],
        seq![],
    )
    &&& pattern_is(
        ps[8],
        '!',
        None,
        Some("\\["@),
        false,
        seq![ConstructName::Phrasing],
        full_phrasing_spans_spec(),
    )
    &&& pattern_is(
        ps[9],
        '"',
        None,
        None,
        false,
        seq![ConstructName::TitleQuote],
        seq![],
    )
    &&& pattern_is(
        ps[10],
        '#',
        None,
        None,
        true,
        seq![],
        seq![],
    )
    &&& pattern_is(
        ps[11],
        '#',
        None,
        Some("(?:[\\r\\n]|$)"@),
        false,
        seq![ConstructName::HeadingAtx],
        seq![],
    )
    &&& pattern_is(
        ps[12],
        '&',
        None,
        Some("[#A-Za-z]"@),
        false,
        seq![ConstructName::Phrasing],
        seq![],
    )
    &&& pattern_is(
        ps[13],
        '\'',
        None,
        None,
        false,
        seq![ConstructName::TitleApostrophe],
        seq![],
    )
    &&& pattern_is(
        ps[14],
        '(',
        None,
        None,
        false,
        seq![ConstructName::DestinationRaw],
        seq![],
    )
    &&& pattern_is(
        ps[15],
        '(',
        Some("\\]"@),
        None,
        false,
        seq![ConstructName::Phrasing],
        full_phrasing_spans_spec(),
    )
    &&& pattern_is(
        ps[16],
        ')',
        Some("\\d+"@),
        None,
        true,
        seq![],
        seq![],
    )
    &&& pattern_is(
        ps[17],
        ')',
        None,
        None,
        false,
        seq![ConstructName::DestinationRaw],
        seq![],
    )
    &&& pattern_is(
        ps[18],
        '*',
        None,
        Some("(?:[ \\t\\r\\n*])"@),
        true,
        seq![],
        seq![],
    )
    &&& pattern_is(
        ps[19],
        '*',
        None,
        None,
        false,
        seq![ConstructName::Phrasing],
        full_phrasing_spans_spec(),
    )
    &&& pattern_is(
        ps[20],
        '+',
        None,
        Some("(?:[ \\t\\r\\n])"@),
        true,
        seq![],
        seq![],
    )
    &&& pattern_is(
        ps[21],
        '-',
        None,
        Some("(?:[ \\t\\r\\n-])"@),
        true,
        seq![],
        seq![],
    )
    &&& pattern_is(
        ps[22],
        '.',
        Some("\\d+"@),
        Some("(?:[ \\t\\r\\n]|$)"@),
        true,
        seq![],
        seq![],
    )
    &&& pattern_is(
        ps[23],
        '<',
        None,
        Some("[!/?A-Za-z]"@),
        true,
        seq![],
        seq![],
    )
    &&& pattern_is(
        ps[24],
        '<',
        None,
        Some("[!/?A-Za-z]"@),
        false,
        seq![ConstructName::Phrasing],
        full_phrasing_spans_spec(),
    )
    &&& pattern_is(
        ps[25],
        '<',
        None,
        None,
        false,
        seq![ConstructName::DestinationLiteral],
        seq![],
    )
    &&& pattern_is(
        ps[26],
        '=',
        None,
        None,
        true,
        seq![],
        seq![],
    )
    &&& pattern_is(
        ps[27],
        '>',
        None,
        None,
        true,
        seq![],
        seq![],
    )
    &&& pattern_is(
        ps[28],
        '>',
        None,
        None,
        false,
        seq![ConstructName::DestinationLiteral],
        seq![],
    )
    &&& pattern_is(
        ps[29],
        '[',
        None,
        None,
        true,
        seq![],
        seq![],
    )
    &&& pattern_is(
        ps[30],
        '[',
        None,
        None,
        false,
        seq![ConstructName::Phrasing],
        full_phrasing_spans_spec(),
    )
    &&& pattern_is(
        ps[31],
        '[',
        None,
        None,
        false,
        seq![ConstructName::Label, ConstructName::Reference],
        seq![],
    )
    &&& pattern_is(
        ps[32],
        '\\',
        None,
        Some("[\\r\\n]"@),
        false,
        seq![ConstructName::Phrasing],
        seq![],
    )
    &&& pattern_is(
        ps[33],
        ']',
        None,
        None,
        false,
        seq![ConstructName::Label, ConstructName::Reference],
        seq![],
    )
    &&& pattern_is(
        ps[34],
        '_',
        None,
        None,
        true,
        seq![],
        seq![],
    )
    &&& pattern_is(
        ps[35],
        '_',
        None,
        None,
        false,
        seq![ConstructName::Phrasing],
        full_phrasing_spans_spec(),
    )
    &&& pattern_is(
        ps[36],
        '`',
        None,
        None,
        true,
        seq![],
        seq![],
    )
    &&& pattern_is(
        ps[37],
        '`',
        None,
        None,
        false,
        seq![ConstructName::CodeFencedLangGraveAccent, ConstructName::CodeFencedMetaGraveAccent],
        seq![],
    )
    &&& pattern_is(
        ps[38],
        '`',
        None,
        None,
        false,
        seq![ConstructName::Phrasing],
        full_phrasing_spans_spec(),
    )
    &&& pattern_is(
        ps[39],
        '~',
        None,
        None,
        true,
        seq![],
        seq![],
    )
}

/// Default unsafe patterns: the characters that need escaping in certain
/// markdown contexts.
#[verifier::rlimit(50)]
pub fn default_unsafe_patterns() -> (r: Vec<UnsafePattern>)
    ensures
        default_patterns_spec(r@),
{
    vec![
        make_pattern('\t', None, Some("[\\r\\n]"), false, vec![ConstructName::Phrasing], vec![]),
        make_pattern('\t', Some("[\\r\\n]"), None, false, vec![ConstructName::Phrasing], vec![]),
        make_pattern('\t', None, None, false, vec![ConstructName::CodeFencedLangGraveAccent, ConstructName::CodeFencedLangTilde], vec![]),
        make_pattern('\r', None, None, false, vec![ConstructName::CodeFencedLangGraveAccent, ConstructName::CodeFencedLangTilde, ConstructName::CodeFencedMetaGraveAccent, ConstructName::CodeFencedMetaTilde, ConstructName::DestinationLiteral, ConstructName::HeadingAtx], vec![]),
        make_pattern('\n', None, None, false, vec![ConstructName::CodeFencedLangGraveAccent, ConstructName::CodeFencedLangTilde, ConstructName::CodeFencedMetaGraveAccent, ConstructName::CodeFencedMetaTilde, ConstructName::DestinationLiteral, ConstructName::HeadingAtx], vec![]),
        make_pattern(' ', None, Some("[\\r\\n]"), false, vec![ConstructName::Phrasing], vec![]),
        make_pattern(' ', Some("[\\r\\n]"), None, false, vec![ConstructName::Phrasing], vec![]),
        make_pattern(' ', None, None, false, vec![ConstructName::CodeFencedLangGraveAccent, ConstructName::CodeFencedLangTilde], vec![]),
        make_pattern('!', None, Some("\\["), false, vec![ConstructName::Phrasing], full_phrasing_spans()),
        make_pattern('"', None, None, false, vec![ConstructName::TitleQuote], vec![]),
        make_pattern('#', None, None, true, vec![], vec![]),
        make_pattern('#', None, Some("(?:[\\r\\n]|$)"), false, vec![ConstructName::HeadingAtx], vec![]),
        make_pattern('&', None, Some("[#A-Za-z]"), false, vec![ConstructName::Phrasing], vec![]),
        make_pattern('\'', None, None, false, vec![ConstructName::TitleApostrophe], vec![]),
        make_pattern('(', None, None, false, vec![ConstructName::DestinationRaw], vec![]),
        make_pattern('(', Some("\\]"), None, false, vec![ConstructName::Phrasing], full_phrasing_spans()),
        make_pattern(')', Some("\\d+"), None, true, vec![], vec![]),
        make_pattern(')', None, None, false, vec![ConstructName::DestinationRaw], vec![]),
        make_pattern('*', None, Some("(?:[ \\t\\r\\n*])"), true, vec![], vec![]),
        make_pattern('*', None, None, false, vec![ConstructName::Phrasing], full_phrasing_spans()),
        make_pattern('+', None, Some("(?:[ \\t\\r\\n])"), true, vec![], vec![]),
        make_pattern('-', None, Some("(?:[ \\t\\r\\n-])"), true, vec![], vec![]),
        make_pattern('.', Some("\\d+"), Some("(?:[ \\t\\r\\n]|$)"), true, vec![], vec![]),
        make_pattern('<', None, Some("[!/?A-Za-z]"), true, vec![], vec![]),
        make_pattern('<', None, Some("[!/?A-Za-z]"), false, vec![ConstructName::Phrasing], full_phrasing_spans()),
        make_pattern('<', None, None, false, vec![ConstructName::DestinationLiteral], vec![]),
        make_pattern('=', None, None, true, vec![], vec![]),
        make_pattern('>', None, None, true, vec![], vec![]),
        make_pattern('>', None, None, false, vec![ConstructName::DestinationLiteral], vec![]),
        make_pattern('[', None, None, true, vec![], vec![]),
        make_pattern('[', None, None, false, vec![ConstructName::Phrasing], full_phrasing_spans()),
        make_pattern('[', None, None, false, vec![ConstructName::Label, ConstructName::Reference], vec![]),
        make_pattern('\\', None, Some("[\\r\\n]"), false, vec![ConstructName::Phrasing], vec![]),
        make_pattern(']', None, None, false, vec![ConstructName::Label, ConstructName::Reference], vec![]),
        make_pattern('_', None, None, true, vec![], vec![]),
        make_pattern('_', None, None, false, vec![ConstructName::Phrasing], full_phrasing_spans()),
        make_pattern('`', None, None, true, vec![], vec![]),
        make_pattern('`', None, None, false, vec![ConstructName::CodeFencedLangGraveAccent, ConstructName::CodeFencedMetaGraveAccent], vec![]),
        make_pattern('`', None, None, false, vec![ConstructName::Phrasing], full_phrasing_spans()),
        make_pattern('~', None, None, true, vec![], vec![]),
    ]
}

}
