//! A reader for JSON text in the compact form that JSON writers produce:
//! no whitespace between tokens, and integer numbers.
//!
//! The grammar is stated as spec functions over the characters of the text;
//! the reader is proved to follow it exactly.

use vstd::prelude::*;
use crate::blocknote::numbers::is_digit;
use crate::text::{chars_of, push_char};

verus! {

/// A JSON value as a mathematical value. A number keeps its text; an object
/// keeps its members in order.
pub enum JsonValue {
    Null,
    Bool(bool),
    Number(Seq<char>),
    Str(Seq<char>),
    Array(Seq<JsonValue>),
    Object(Seq<(Seq<char>, JsonValue)>),
}

/// A member of a JSON object.
#[derive(Debug)]
pub struct Member {
    pub key: String,
    pub value: Json,
}

/// A JSON value.
#[derive(Debug)]
pub enum Json {
    Null,
    Bool(bool),
    /// The text of an integer: an optional `-`, then digits.
    Number(String),
    Str(String),
    Array(Vec<Json>),
    Object(Vec<Member>),
}

/// The value a JSON value stands for.
pub open spec fn json_view(j: Json) -> JsonValue
    decreases j,
{
    match j {
        Json::Null => JsonValue::Null,
        Json::Bool(b) => JsonValue::Bool(b),
        Json::Number(t) => JsonValue::Number(t@),
        Json::Str(t) => JsonValue::Str(t@),
        Json::Array(items) => JsonValue::Array(json_views(items@)),
        Json::Object(ms) => JsonValue::Object(member_views(ms@)),
    }
}

/// The values of a sequence of JSON values.
pub open spec fn json_views(s: Seq<Json>) -> Seq<JsonValue>
    decreases s,
{
    if s.len() == 0 {
        Seq::empty()
    } else {
        json_views(s.drop_last()).push(json_view(s.last()))
    }
}

/// The keys and values of a sequence of members.
pub open spec fn member_views(s: Seq<Member>) -> Seq<(Seq<char>, JsonValue)>
    decreases s,
{
    if s.len() == 0 {
        Seq::empty()
    } else {
        member_views(s.drop_last()).push((s.last().key@, json_view(s.last().value)))
    }
}

/// The view of a sequence of values is taken item by item.
pub proof fn lemma_json_views(s: Seq<Json>)
    ensures
        json_views(s).len() == s.len(),
        forall|k: int| 0 <= k < s.len() ==> #[trigger] json_views(s)[k] == json_view(s[k]),
    decreases s.len(),
{
    if s.len() > 0 {
        lemma_json_views(s.drop_last());
    }
}

/// The view of a sequence of members is taken member by member.
pub proof fn lemma_member_views(s: Seq<Member>)
    ensures
        member_views(s).len() == s.len(),
        forall|k: int| 0 <= k < s.len() ==> #[trigger] member_views(s)[k] == (s[k].key@, json_view(s[k].value)),
    decreases s.len(),
{
    if s.len() > 0 {
        lemma_member_views(s.drop_last());
    }
}

// ── The grammar ─────────────────────────────────────────────

/// The value of a hexadecimal digit.
pub open spec fn hex_val(c: char) -> Option<nat> {
    if '0' <= c && c <= '9' {
        Some((c as nat - 48) as nat)
    } else if 'a' <= c && c <= 'f' {
        Some((c as nat - 87) as nat)
    } else if 'A' <= c && c <= 'F' {
        Some((c as nat - 55) as nat)
    } else {
        None
    }
}

/// The number written by the four hexadecimal digits at `i`.
pub open spec fn hex4_at(s: Seq<char>, i: int) -> Option<nat> {
    if 0 <= i && i + 4 <= s.len() {
        match (hex_val(s[i]), hex_val(s[i + 1]), hex_val(s[i + 2]), hex_val(s[i + 3])) {
            (Some(a), Some(b), Some(c), Some(d)) => Some(4096 * a + 256 * b + 16 * c + d),
            _ => None,
        }
    } else {
        None
    }
}

/// Whether a number is the code of a character (not a surrogate).
pub open spec fn is_scalar(n: nat) -> bool {
    n < 0xD800 || (0xE000 <= n && n <= 0x10FFFF)
}

/// The character a one-character escape (after `\`) stands for.
pub open spec fn escape_char(e: char) -> Option<char> {
    if e == '"' || e == '\\' || e == '/' {
        Some(e)
    } else if e == 'b' {
        Some('\u{8}')
    } else if e == 'f' {
        Some('\u{c}')
    } else if e == 'n' {
        Some('\n')
    } else if e == 'r' {
        Some('\r')
    } else if e == 't' {
        Some('\t')
    } else {
        None
    }
}

/// The rest of a string whose opening quote ends before `i`, after the
/// characters `acc` read so far: its characters and the position after the
/// closing quote. An escape `\u` takes four hexadecimal digits that give a
/// character (a surrogate is refused).
pub open spec fn string_at(s: Seq<char>, i: int, acc: Seq<char>) -> Option<(Seq<char>, int)>
    decreases s.len() - i,
{
    if i < 0 || i >= s.len() {
        None
    } else if s[i] == '"' {
        Some((acc, i + 1))
    } else if s[i] == '\\' {
        if i + 1 >= s.len() {
            None
        } else if s[i + 1] == 'u' {
            match hex4_at(s, i + 2) {
                Some(n) => if is_scalar(n) {
                    string_at(s, i + 6, acc.push(n as char))
                } else {
                    None
                },
                None => None,
            }
        } else {
            match escape_char(s[i + 1]) {
                Some(c) => string_at(s, i + 2, acc.push(c)),
                None => None,
            }
        }
    } else {
        string_at(s, i + 1, acc.push(s[i]))
    }
}

/// The end of the run of digits that starts at `i`.
pub open spec fn digits_end(s: Seq<char>, i: int) -> int
    decreases s.len() - i,
{
    if 0 <= i && i < s.len() && is_digit(s[i]) {
        digits_end(s, i + 1)
    } else {
        i
    }
}

/// The integer at `i`: an optional `-`, then one or more digits.
pub open spec fn number_at(s: Seq<char>, i: int) -> Option<(JsonValue, int)> {
    let start = if 0 <= i && i < s.len() && s[i] == '-' { i + 1 } else { i };
    let end = digits_end(s, start);
    if 0 <= i && end > start {
        Some((JsonValue::Number(s.subrange(i, end)), end))
    } else {
        None
    }
}

/// The value that starts at `i`, and the position after it.
pub open spec fn value_at(s: Seq<char>, i: int) -> Option<(JsonValue, int)>
    decreases s.len() - i, 0int,
{
    if i < 0 || i >= s.len() {
        None
    } else {
        let c = s[i];
        if c == 'n' {
            if i + 4 <= s.len() && s[i + 1] == 'u' && s[i + 2] == 'l' && s[i + 3] == 'l' {
                Some((JsonValue::Null, i + 4))
            } else {
                None
            }
        } else if c == 't' {
            if i + 4 <= s.len() && s[i + 1] == 'r' && s[i + 2] == 'u' && s[i + 3] == 'e' {
                Some((JsonValue::Bool(true), i + 4))
            } else {
                None
            }
        } else if c == 'f' {
            if i + 5 <= s.len() && s[i + 1] == 'a' && s[i + 2] == 'l' && s[i + 3] == 's' && s[i + 4] == 'e' {
                Some((JsonValue::Bool(false), i + 5))
            } else {
                None
            }
        } else if c == '"' {
            match string_at(s, i + 1, Seq::empty()) {
                Some((t, j)) => Some((JsonValue::Str(t), j)),
                None => None,
            }
        } else if c == '-' || is_digit(c) {
            number_at(s, i)
        } else if c == '[' {
            if i + 1 < s.len() && s[i + 1] == ']' {
                Some((JsonValue::Array(Seq::empty()), i + 2))
            } else {
                match items_at(s, i + 1, Seq::empty()) {
                    Some((vs, j)) => Some((JsonValue::Array(vs), j)),
                    None => None,
                }
            }
        } else if c == '{' {
            if i + 1 < s.len() && s[i + 1] == '}' {
                Some((JsonValue::Object(Seq::empty()), i + 2))
            } else {
                match members_at(s, i + 1, Seq::empty()) {
                    Some((ms, j)) => Some((JsonValue::Object(ms), j)),
                    None => None,
                }
            }
        } else {
            None
        }
    }
}

/// The rest of an array after the items `acc` read so far: a value, then
/// `,` and more, or `]`. (A value always ends after it starts; the
/// comparison `i < j` says so where the recursion needs it.)
pub open spec fn items_at(s: Seq<char>, i: int, acc: Seq<JsonValue>) -> Option<(Seq<JsonValue>, int)>
    decreases s.len() - i, 1int,
{
    if i < 0 || i >= s.len() {
        None
    } else {
        match value_at(s, i) {
            Some((v, j)) => if i < j && j < s.len() {
                if s[j] == ',' {
                    items_at(s, j + 1, acc.push(v))
                } else if s[j] == ']' {
                    Some((acc.push(v), j + 1))
                } else {
                    None
                }
            } else {
                None
            },
            None => None,
        }
    }
}

/// The rest of an object after the members `acc` read so far: a string key,
/// `:`, a value, then `,` and more, or `}`.
pub open spec fn members_at(s: Seq<char>, i: int, acc: Seq<(Seq<char>, JsonValue)>) -> Option<(Seq<(Seq<char>, JsonValue)>, int)>
    decreases s.len() - i, 1int,
{
    if i < 0 || i >= s.len() || s[i] != '"' {
        None
    } else {
        match string_at(s, i + 1, Seq::empty()) {
            Some((k, j)) => if i < j && j + 1 < s.len() && s[j] == ':' {
                match value_at(s, j + 1) {
                    Some((v, e)) => if j + 1 < e && e < s.len() {
                        if s[e] == ',' {
                            members_at(s, e + 1, acc.push((k, v)))
                        } else if s[e] == '}' {
                            Some((acc.push((k, v)), e + 1))
                        } else {
                            None
                        }
                    } else {
                        None
                    },
                    None => None,
                }
            } else {
                None
            },
            None => None,
        }
    }
}

/// The value a whole JSON text holds, with nothing after it.
pub open spec fn json_text(s: Seq<char>) -> Option<JsonValue> {
    match value_at(s, 0) {
        Some((v, j)) => if j == s.len() { Some(v) } else { None },
        None => None,
    }
}

// ── The reader ──────────────────────────────────────────────

/// What a reader of a value gives back, against the grammar.
pub open spec fn value_read(r: Option<(Json, usize)>, g: Option<(JsonValue, int)>) -> bool {
    match r {
        Some((v, j)) => g == Some((json_view(v), j as int)),
        None => g is None,
    }
}

/// The character with a given code (std `char::from_u32`).
/// Trusted: `None` exactly for a surrogate or a number past the last
/// character, else the character with that code.
#[verifier::external_body]
fn char_from_code(n: u32) -> (r: Option<char>)
    ensures
        r == (if is_scalar(n as nat) { Some((n as nat) as char) } else { None }),
{
    char::from_u32(n)
}

/// The value of a hexadecimal digit.
fn hex_digit(c: char) -> (r: Option<u32>)
    ensures
        match r {
            Some(v) => hex_val(c) == Some(v as nat),
            None => hex_val(c) is None,
        },
{
    if '0' <= c && c <= '9' {
        Some(c as u32 - 48)
    } else if 'a' <= c && c <= 'f' {
        Some(c as u32 - 87)
    } else if 'A' <= c && c <= 'F' {
        Some(c as u32 - 55)
    } else {
        None
    }
}

/// The number written by the four hexadecimal digits at `i`.
fn read_hex4(s: &Vec<char>, i: usize) -> (r: Option<u32>)
    ensures
        match r {
            Some(v) => hex4_at(s@, i as int) == Some(v as nat),
            None => hex4_at(s@, i as int) is None,
        },
{
    if i > s.len() || s.len() - i < 4 {
        return None;
    }
    let a = hex_digit(s[i]);
    let b = hex_digit(s[i + 1]);
    let c = hex_digit(s[i + 2]);
    let d = hex_digit(s[i + 3]);
    match (a, b, c, d) {
        (Some(a), Some(b), Some(c), Some(d)) => Some(4096 * a + 256 * b + 16 * c + d),
        _ => None,
    }
}

/// Read a string whose opening quote ends before `i`.
pub fn read_string(s: &Vec<char>, i: usize) -> (r: Option<(String, usize)>)
    ensures
        match r {
            Some((t, j)) => string_at(s@, i as int, Seq::empty()) == Some((t@, j as int)),
            None => string_at(s@, i as int, Seq::empty()) is None,
        },
{
    let mut acc = String::new();
    let mut k = i;
    loop
        invariant
            string_at(s@, i as int, Seq::empty()) == string_at(s@, k as int, acc@),
        decreases s@.len() - k,
    {
        if k >= s.len() {
            return None;
        }
        let c = s[k];
        if c == '"' {
            return Some((acc, k + 1));
        }
        if c == '\\' {
            if k + 1 >= s.len() {
                return None;
            }
            let e = s[k + 1];
            if e == 'u' {
                match read_hex4(s, k + 2) {
                    Some(n) => match char_from_code(n) {
                        Some(ch) => {
                            push_char(&mut acc, ch);
                            k = k + 6;
                        },
                        None => {
                            return None;
                        },
                    },
                    None => {
                        return None;
                    },
                }
            } else {
                let esc = if e == '"' || e == '\\' || e == '/' {
                    Some(e)
                } else if e == 'b' {
                    Some('\u{8}')
                } else if e == 'f' {
                    Some('\u{c}')
                } else if e == 'n' {
                    Some('\n')
                } else if e == 'r' {
                    Some('\r')
                } else if e == 't' {
                    Some('\t')
                } else {
                    None
                };
                match esc {
                    Some(ch) => {
                        push_char(&mut acc, ch);
                        k = k + 2;
                    },
                    None => {
                        return None;
                    },
                }
            }
        } else {
            push_char(&mut acc, c);
            k = k + 1;
        }
    }
}

/// Read the integer at `i`.
fn read_number(s: &Vec<char>, i: usize) -> (r: Option<(Json, usize)>)
    requires
        i < s.len(),
    ensures
        value_read(r, number_at(s@, i as int)),
{
    let start = if i < s.len() && s[i] == '-' { i + 1 } else { i };
    let mut text = String::new();
    if start > i {
        push_char(&mut text, '-');
    }
    let mut e = start;
    proof {
        assert(text@ =~= s@.subrange(i as int, start as int));
    }
    while e < s.len()
        invariant
            i <= start <= e <= s.len(),
            start == (if i < s.len() && s@[i as int] == '-' { i + 1 } else { i as int }),
            digits_end(s@, start as int) == digits_end(s@, e as int),
            text@ == s@.subrange(i as int, e as int),
        ensures
            i <= start <= e <= s.len(),
            digits_end(s@, start as int) == digits_end(s@, e as int),
            text@ == s@.subrange(i as int, e as int),
            e == s.len() || !is_digit(s@[e as int]),
        decreases s.len() - e,
    {
        let c = s[e];
        if !('0' <= c && c <= '9') {
            break;
        }
        push_char(&mut text, c);
        proof {
            assert(text@ =~= s@.subrange(i as int, e + 1));
        }
        e = e + 1;
    }
    if e == start {
        None
    } else {
        Some((Json::Number(text), e))
    }
}

/// Read the value that starts at `i`.
pub fn read_value(s: &Vec<char>, i: usize) -> (r: Option<(Json, usize)>)
    ensures
        value_read(r, value_at(s@, i as int)),
    decreases s@.len() - i, 0int,
{
    if i >= s.len() {
        return None;
    }
    let c = s[i];
    if c == 'n' {
        if s.len() - i >= 4 && s[i + 1] == 'u' && s[i + 2] == 'l' && s[i + 3] == 'l' {
            Some((Json::Null, i + 4))
        } else {
            None
        }
    } else if c == 't' {
        if s.len() - i >= 4 && s[i + 1] == 'r' && s[i + 2] == 'u' && s[i + 3] == 'e' {
            Some((Json::Bool(true), i + 4))
        } else {
            None
        }
    } else if c == 'f' {
        if s.len() - i >= 5 && s[i + 1] == 'a' && s[i + 2] == 'l' && s[i + 3] == 's' && s[i + 4] == 'e' {
            Some((Json::Bool(false), i + 5))
        } else {
            None
        }
    } else if c == '"' {
        match read_string(s, i + 1) {
            Some((t, j)) => Some((Json::Str(t), j)),
            None => None,
        }
    } else if c == '-' || ('0' <= c && c <= '9') {
        read_number(s, i)
    } else if c == '[' {
        if i + 1 < s.len() && s[i + 1] == ']' {
            proof {
                assert(json_views(Seq::<Json>::empty()) =~= Seq::<JsonValue>::empty());
            }
            Some((Json::Array(Vec::new()), i + 2))
        } else {
            match read_items(s, i + 1) {
                Some((vs, j)) => Some((Json::Array(vs), j)),
                None => None,
            }
        }
    } else if c == '{' {
        if i + 1 < s.len() && s[i + 1] == '}' {
            proof {
                assert(member_views(Seq::<Member>::empty()) =~= Seq::<(Seq<char>, JsonValue)>::empty());
            }
            Some((Json::Object(Vec::new()), i + 2))
        } else {
            match read_members(s, i + 1) {
                Some((ms, j)) => Some((Json::Object(ms), j)),
                None => None,
            }
        }
    } else {
        None
    }
}

/// Read the items of an array after its opening bracket.
fn read_items(s: &Vec<char>, i: usize) -> (r: Option<(Vec<Json>, usize)>)
    ensures
        match r {
            Some((vs, j)) => items_at(s@, i as int, Seq::empty()) == Some((json_views(vs@), j as int)),
            None => items_at(s@, i as int, Seq::empty()) is None,
        },
    decreases s@.len() - i, 1int,
{
    let mut acc: Vec<Json> = Vec::new();
    let mut k = i;
    proof {
        assert(json_views(acc@) =~= Seq::<JsonValue>::empty());
    }
    loop
        invariant
            i <= k,
            items_at(s@, i as int, Seq::empty()) == items_at(s@, k as int, json_views(acc@)),
        decreases s@.len() - k,
    {
        if k >= s.len() {
            return None;
        }
        let ghost before = acc@;
        match read_value(s, k) {
            Some((v, j)) => {
                if !(k < j && j < s.len()) {
                    return None;
                }
                let ghost vv = json_view(v);
                acc.push(v);
                proof {
                    assert(acc@.drop_last() =~= before);
                    assert(json_views(acc@) == json_views(before).push(vv));
                }
                if s[j] == ',' {
                    k = j + 1;
                } else if s[j] == ']' {
                    return Some((acc, j + 1));
                } else {
                    return None;
                }
            },
            None => {
                return None;
            },
        }
    }
}

/// Read the members of an object after its opening brace.
fn read_members(s: &Vec<char>, i: usize) -> (r: Option<(Vec<Member>, usize)>)
    ensures
        match r {
            Some((ms, j)) => members_at(s@, i as int, Seq::empty()) == Some((member_views(ms@), j as int)),
            None => members_at(s@, i as int, Seq::empty()) is None,
        },
    decreases s@.len() - i, 1int,
{
    let mut acc: Vec<Member> = Vec::new();
    let mut k = i;
    proof {
        assert(member_views(acc@) =~= Seq::<(Seq<char>, JsonValue)>::empty());
    }
    loop
        invariant
            i <= k,
            members_at(s@, i as int, Seq::empty()) == members_at(s@, k as int, member_views(acc@)),
        decreases s@.len() - k,
    {
        if k >= s.len() || s[k] != '"' {
            return None;
        }
        let (key, j) = match read_string(s, k + 1) {
            Some(p) => p,
            None => {
                return None;
            },
        };
        if !(k < j && j < s.len() && j + 1 < s.len() && s[j] == ':') {
            return None;
        }
        let ghost before = acc@;
        match read_value(s, j + 1) {
            Some((v, e)) => {
                if !(j + 1 < e && e < s.len()) {
                    return None;
                }
                let ghost kv = (key@, json_view(v));
                acc.push(Member { key, value: v });
                proof {
                    assert(acc@.drop_last() =~= before);
                    assert(member_views(acc@) == member_views(before).push(kv));
                }
                if s[e] == ',' {
                    k = e + 1;
                } else if s[e] == '}' {
                    return Some((acc, e + 1));
                } else {
                    return None;
                }
            },
            None => {
                return None;
            },
        }
    }
}

/// Read a whole JSON text.
pub fn parse_json(text: &str) -> (r: Option<Json>)
    ensures
        match r {
            Some(v) => json_text(text@) == Some(json_view(v)),
            None => json_text(text@) is None,
        },
{
    let s = chars_of(text);
    match read_value(&s, 0) {
        Some((v, j)) => if j == s.len() {
            Some(v)
        } else {
            None
        },
        None => None,
    }
}

}
