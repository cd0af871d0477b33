//! Block properties.

use vstd::prelude::*;
use crate::text::{owned, str_eq};

verus! {

/// Block properties. Known props have typed fields; other props are kept as
/// key/value pairs in `other`.
#[derive(Debug, Clone, PartialEq)]
pub struct Props {
    /// Background color of the block.
    pub background_color: Option<String>,
    /// Text color of the block.
    pub text_color: Option<String>,
    /// Text alignment: `left`, `center`, `right` or `justify`.
    pub text_alignment: Option<String>,
    /// Heading level (1-6).
    pub level: Option<u8>,
    /// Whether the heading is toggleable (collapsible).
    pub is_toggleable: Option<bool>,
    /// Whether the check list item is checked.
    pub checked: Option<bool>,
    /// Start number for ordered lists.
    pub start: Option<usize>,
    /// Programming language of a code block.
    pub language: Option<String>,
    /// Media name / filename.
    pub name: Option<String>,
    /// Media URL.
    pub url: Option<String>,
    /// Caption text.
    pub caption: Option<String>,
    /// Whether to show the media preview.
    pub show_preview: Option<bool>,
    /// Preview width in pixels.
    pub preview_width: Option<u32>,
    /// Any other props, as key/value pairs.
    pub other: Vec<(String, String)>,
}

/// The value most recently given to `key` among `entries`.
pub open spec fn other_lookup(entries: Seq<(String, String)>, key: Seq<char>) -> Option<Seq<char>>
    decreases entries.len(),
{
    if entries.len() == 0 {
        None
    } else if entries.last().0@ == key {
        Some(entries.last().1@)
    } else {
        other_lookup(entries.drop_last(), key)
    }
}

/// No key occurs twice among the entries: each other prop has one value.
pub open spec fn keys_distinct(entries: Seq<(String, String)>) -> bool {
    forall|i: int, j: int| 0 <= i < j < entries.len() ==> (#[trigger] entries[i]).0@ != (#[trigger] entries[j]).0@
}

/// Props with no value set.
pub open spec fn props_empty(p: Props) -> bool {
    &&& p.background_color is None
    &&& p.text_color is None
    &&& p.text_alignment is None
    &&& p.level is None
    &&& p.is_toggleable is None
    &&& p.checked is None
    &&& p.start is None
    &&& p.language is None
    &&& p.name is None
    &&& p.url is None
    &&& p.caption is None
    &&& p.show_preview is None
    &&& p.preview_width is None
    &&& p.other@.len() == 0
}

impl Default for Props {
    fn default() -> (p: Self)
        ensures
            props_empty(p),
    {
        Props {
            background_color: None,
            text_color: None,
            text_alignment: None,
            level: None,
            is_toggleable: None,
            checked: None,
            start: None,
            language: None,
            name: None,
            url: None,
            caption: None,
            show_preview: None,
            preview_width: None,
            other: Vec::new(),
        }
    }
}

/// A set value of `o`, else `d`.
pub open spec fn or_default<T>(o: Option<T>, d: Option<T>) -> Option<T> {
    match o {
        Some(x) => Some(x),
        None => d,
    }
}

/// The default text props (`default` colors, `left` alignment) filled in where
/// they are not set.
pub open spec fn text_defaults_view(p: Props) -> (Option<Seq<char>>, Option<Seq<char>>, Option<Seq<char>>) {
    (
        match p.text_color {
            Some(s) => Some(s@),
            None => Some("default"@),
        },
        match p.background_color {
            Some(s) => Some(s@),
            None => Some("default"@),
        },
        match p.text_alignment {
            Some(s) => Some(s@),
            None => Some("left"@),
        },
    )
}

/// The option's text, if set.
pub open spec fn opt_text(o: Option<String>) -> Option<Seq<char>> {
    match o {
        Some(s) => Some(s@),
        None => None,
    }
}

/// All fields but the text props are the same.
pub open spec fn same_but_text(a: Props, b: Props) -> bool {
    &&& a.level == b.level
    &&& a.is_toggleable == b.is_toggleable
    &&& a.checked == b.checked
    &&& a.start == b.start
    &&& a.language == b.language
    &&& a.name == b.name
    &&& a.url == b.url
    &&& a.caption == b.caption
    &&& a.show_preview == b.show_preview
    &&& a.preview_width == b.preview_width
    &&& a.other == b.other
}

/// Props that `merge_from` makes of `a` and `b`: each value of `b` that is set
/// replaces that of `a`, and each other prop of `b` is added (replacing `a`'s
/// value for the same key).
pub open spec fn merged(a: Props, b: Props, r: Props) -> bool {
    &&& r.background_color == or_default(b.background_color, a.background_color)
    &&& r.text_color == or_default(b.text_color, a.text_color)
    &&& r.text_alignment == or_default(b.text_alignment, a.text_alignment)
    &&& r.level == or_default(b.level, a.level)
    &&& r.is_toggleable == or_default(b.is_toggleable, a.is_toggleable)
    &&& r.checked == or_default(b.checked, a.checked)
    &&& r.start == or_default(b.start, a.start)
    &&& r.language == or_default(b.language, a.language)
    &&& r.name == or_default(b.name, a.name)
    &&& r.url == or_default(b.url, a.url)
    &&& r.caption == or_default(b.caption, a.caption)
    &&& r.show_preview == or_default(b.show_preview, a.show_preview)
    &&& r.preview_width == or_default(b.preview_width, a.preview_width)
    &&& forall|k: Seq<char>| #[trigger] other_lookup(r.other@, k) == match other_lookup(b.other@, k) {
        Some(v) => Some(v),
        None => other_lookup(a.other@, k),
    }
}

fn merge_opt_string(dst: &mut Option<String>, src: &Option<String>)
    ensures
        *final(dst) == or_default(*src, *old(dst)),
{
    match src {
        Some(s) => {
            *dst = Some(s.clone());
        },
        None => {},
    }
}

/// Set `key` to `value` among `entries`, replacing its last occurrence.
fn set_other(entries: &mut Vec<(String, String)>, key: String, value: String)
    ensures
        other_lookup(final(entries)@, key@) == Some(value@),
        forall|k: Seq<char>| k != key@ ==> #[trigger] other_lookup(final(entries)@, k) == other_lookup(old(entries)@, k),
        final(entries)@.len() <= old(entries)@.len() + 1,
        old(entries)@.len() == 0 ==> final(entries)@.len() == 1,
        keys_distinct(old(entries)@) ==> keys_distinct(final(entries)@),
{
    let mut i = entries.len();
    while i > 0
        invariant
            i <= entries.len(),
            entries@ == old(entries)@,
            forall|j: int| i <= j < entries@.len() ==> #[trigger] entries@[j].0@ != key@,
        decreases i,
    {
        if str_eq(entries[i - 1].0.as_str(), key.as_str()) {
            let ghost k0 = key@;
            let ghost v0 = value@;
            entries.set(i - 1, (key, value));
            proof {
                lemma_other_lookup_update(old(entries)@, (i - 1) as int, entries@[i - 1], k0, v0);
                assert forall|a: int| 0 <= a < entries@.len() implies (#[trigger] entries@[a]).0@ == old(entries)@[a].0@ by {}
            }
            return;
        }
        i -= 1;
    }
    let ghost k0 = key@;
    let ghost v0 = value@;
    entries.push((key, value));
    proof {
        assert(entries@.drop_last() =~= old(entries)@);
        if keys_distinct(old(entries)@) {
            assert forall|a: int, b: int| 0 <= a < b < entries@.len() implies (#[trigger] entries@[a]).0@ != (#[trigger] entries@[b]).0@ by {
                if b < old(entries)@.len() {
                    assert(entries@[a] == old(entries)@[a] && entries@[b] == old(entries)@[b]);
                } else {
                    assert(entries@[a] == old(entries)@[a]);
                }
            }
        }
    }
}

/// Add each entry of `src` to `dst`, in order (a later entry of a key wins).
fn merge_other(dst: &mut Vec<(String, String)>, src: &Vec<(String, String)>)
    ensures
        forall|k: Seq<char>| #[trigger] other_lookup(final(dst)@, k) == match other_lookup(src@, k) {
            Some(v) => Some(v),
            None => other_lookup(old(dst)@, k),
        },
        keys_distinct(old(dst)@) ==> keys_distinct(final(dst)@),
{
    let mut i: usize = 0;
    while i < src.len()
        invariant
            i <= src.len(),
            keys_distinct(old(dst)@) ==> keys_distinct(dst@),
            forall|k: Seq<char>| #[trigger] other_lookup(dst@, k) == match other_lookup(src@.take(i as int), k) {
                Some(v) => Some(v),
                None => other_lookup(old(dst)@, k),
            },
        decreases src.len() - i,
    {
        let key = src[i].0.clone();
        let value = src[i].1.clone();
        let ghost prev = dst@;
        let ghost kk = key@;
        set_other(dst, key, value);
        proof {
            let t = src@.take(i + 1);
            assert(t.drop_last() =~= src@.take(i as int));
            assert forall|k: Seq<char>| #[trigger] other_lookup(dst@, k) == match other_lookup(t, k) {
                Some(v) => Some(v),
                None => other_lookup(old(dst)@, k),
            } by {
                if k == kk {
                } else {
                    assert(other_lookup(dst@, k) == other_lookup(prev, k));
                }
            }
        }
        i += 1;
    }
    proof {
        assert(src@.take(src@.len() as int) =~= src@);
    }
}

/// Replacing the last entry of a key keeps the other keys and gives the new value.
proof fn lemma_other_lookup_update(
    s: Seq<(String, String)>,
    i: int,
    e: (String, String),
    k0: Seq<char>,
    v0: Seq<char>,
)
    requires
        0 <= i < s.len(),
        s[i].0@ == k0,
        e.0@ == k0,
        e.1@ == v0,
        forall|j: int| i < j < s.len() ==> #[trigger] s[j].0@ != k0,
    ensures
        other_lookup(s.update(i, e), k0) == Some(v0),
        forall|k: Seq<char>| k != k0 ==> #[trigger] other_lookup(s.update(i, e), k) == other_lookup(s, k),
    decreases s.len(),
{
    let t = s.update(i, e);
    if i == s.len() - 1 {
        assert(t.drop_last() =~= s.drop_last());
        assert forall|k: Seq<char>| k != k0 implies #[trigger] other_lookup(t, k) == other_lookup(s, k) by {
            assert(t.last().0@ == k0);
            assert(s.last().0@ == k0);
        }
    } else {
        assert(t.drop_last() =~= s.drop_last().update(i, e));
        lemma_other_lookup_update(s.drop_last(), i, e, k0, v0);
        assert(t.last() == s.last());
        assert forall|k: Seq<char>| k != k0 implies #[trigger] other_lookup(t, k) == other_lookup(s, k) by {
            if s.last().0@ != k {
                assert(other_lookup(t.drop_last(), k) == other_lookup(s.drop_last(), k));
            }
        }
    }
}

impl Props {
    /// Insert default text props (textColor, backgroundColor, textAlignment)
    /// where they are not set.
    pub fn insert_text_defaults(&mut self)
        ensures
            text_defaults_view(*old(self)) == (
                opt_text(final(self).text_color),
                opt_text(final(self).background_color),
                opt_text(final(self).text_alignment),
            ),
            same_but_text(*old(self), *final(self)),
    {
        if self.text_color.is_none() {
            self.text_color = Some(owned("default"));
        }
        if self.background_color.is_none() {
            self.background_color = Some(owned("default"));
        }
        if self.text_alignment.is_none() {
            self.text_alignment = Some(owned("left"));
        }
    }

    /// Merge another Props into self (other's values take precedence).
    pub fn merge_from(&mut self, other: &Props)
        ensures
            merged(*old(self), *other, *final(self)),
            keys_distinct(old(self).other@) ==> keys_distinct(final(self).other@),
    {
        merge_opt_string(&mut self.background_color, &other.background_color);
        merge_opt_string(&mut self.text_color, &other.text_color);
        merge_opt_string(&mut self.text_alignment, &other.text_alignment);
        if other.level.is_some() {
            self.level = other.level;
        }
        if other.is_toggleable.is_some() {
            self.is_toggleable = other.is_toggleable;
        }
        if other.checked.is_some() {
            self.checked = other.checked;
        }
        if other.start.is_some() {
            self.start = other.start;
        }
        merge_opt_string(&mut self.language, &other.language);
        merge_opt_string(&mut self.name, &other.name);
        merge_opt_string(&mut self.url, &other.url);
        merge_opt_string(&mut self.caption, &other.caption);
        if other.show_preview.is_some() {
            self.show_preview = other.show_preview;
        }
        if other.preview_width.is_some() {
            self.preview_width = other.preview_width;
        }
        merge_other(&mut self.other, &other.other);
    }

    /// The value of another prop, if set.
    pub fn get_other(&self, key: &str) -> (r: Option<String>)
        ensures
            opt_text(r) == other_lookup(self.other@, key@),
    {
        let mut i = self.other.len();
        assert(self.other@.take(i as int) =~= self.other@);
        while i > 0
            invariant
                i <= self.other.len(),
                other_lookup(self.other@, key@) == other_lookup(self.other@.take(i as int), key@),
            decreases i,
        {
            if str_eq(self.other[i - 1].0.as_str(), key) {
                return Some(self.other[i - 1].1.clone());
            }
            assert(self.other@.take(i as int).drop_last() =~= self.other@.take(i - 1));
            i -= 1;
        }
        None
    }

    /// Set another prop.
    pub fn set_other(&mut self, key: String, value: String)
        ensures
            other_lookup(final(self).other@, key@) == Some(value@),
            forall|k: Seq<char>| k != key@ ==> #[trigger] other_lookup(final(self).other@, k) == other_lookup(old(self).other@, k),
            final(self).other@.len() <= old(self).other@.len() + 1,
            old(self).other@.len() == 0 ==> final(self).other@.len() == 1,
            *final(self) == (Props { other: final(self).other, ..*old(self) }),
            keys_distinct(old(self).other@) ==> keys_distinct(final(self).other@),
    {
        set_other(&mut self.other, key, value);
    }
}

}
