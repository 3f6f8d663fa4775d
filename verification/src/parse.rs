//! Low-level JSON parsing: whitespace, string literals, and generic values.
//!
//! Each executable parser returns exactly what its spec-level counterpart
//! computes, so the decoder's behaviour is a mathematical function of the
//! input text.  Parsers take a position and return the parsed value with the
//! position just past it; `None` means the text does not match.

use vstd::prelude::*;
use crate::hex::{hex_val, is_hex_digit};
use crate::strutil::matches_at;

verus! {

/// JSON whitespace.
pub open spec fn is_ws(c: char) -> bool {
    c == ' ' || c == '\t' || c == '\n' || c == '\r'
}

/// The first position at or after `i` holding no whitespace.
pub open spec fn ws_end(s: Seq<char>, i: int) -> int
    decreases s.len() - i,
{
    if 0 <= i < s.len() && is_ws(s[i]) {
        ws_end(s, i + 1)
    } else {
        i
    }
}

/// Skip whitespace starting at `i`.
pub fn ws_end_exec(s: &str, i: usize) -> (r: usize)
    requires
        i <= s@.len(),
    ensures
        r == ws_end(s@, i as int),
        i <= r <= s@.len(),
{
    let n = s.unicode_len();
    let mut j = i;
    while j < n
        invariant
            n == s@.len(),
            i <= j <= n,
            ws_end(s@, i as int) == ws_end(s@, j as int),
        decreases n - j,
    {
        let c = s.get_char(j);
        if c == ' ' || c == '\t' || c == '\n' || c == '\r' {
            j = j + 1;
        } else {
            return j;
        }
    }
    j
}

/// Relies on `char::from_u32`: the character with the given code, or `None`
/// for a surrogate code or one past the last code point.
pub assume_specification [ char::from_u32 ](v: u32) -> (r: Option<char>)
    ensures
        r == (if v < 0xD800 || (0xE000 <= v && v <= 0x10FFFF) {
            Some(v as char)
        } else {
            None::<char>
        }),
;

/// Four hex digits stand at position `i`.
pub open spec fn is_hex4(s: Seq<char>, i: int) -> bool {
    &&& i >= 0
    &&& i + 4 <= s.len()
    &&& is_hex_digit(s[i])
    &&& is_hex_digit(s[i + 1])
    &&& is_hex_digit(s[i + 2])
    &&& is_hex_digit(s[i + 3])
}

/// The value of the four hex digits at position `i`.
pub open spec fn hex4_val(s: Seq<char>, i: int) -> int {
    hex_val(s[i]) * 0x1000 + hex_val(s[i + 1]) * 0x100 + hex_val(s[i + 2]) * 16 + hex_val(
        s[i + 3],
    )
}

/// The character an escape sequence `\c` stands for, if `c` is a recognized
/// escape.
pub open spec fn unescape_char(c: char) -> Option<char> {
    if c == '"' {
        Some('"')
    } else if c == '\\' {
        Some('\\')
    } else if c == '/' {
        Some('/')
    } else if c == 'n' {
        Some('\n')
    } else if c == 'r' {
        Some('\r')
    } else if c == 't' {
        Some('\t')
    } else if c == 'b' {
        Some('\u{0008}')
    } else if c == 'f' {
        Some('\u{000C}')
    } else {
        None
    }
}

/// Parse a unicode escape's payload, the position standing on its first hex
/// digit: four hex digits, or — for a high surrogate — a second `\u` escape
/// holding the low half.  Returns the named character and the position past
/// the digits.
#[verifier::opaque]
pub open spec fn parse_unicode_escape(s: Seq<char>, i: int) -> Option<(char, int)> {
    if is_hex4(s, i) {
        let code = hex4_val(s, i);
        if 0xD800 <= code < 0xDC00 {
            // a high surrogate: its low half must follow
            if i + 4 < s.len() && s[i + 4] == '\\' && i + 5 < s.len() && s[i + 5] == 'u'
                && is_hex4(s, i + 6) {
                let lo = hex4_val(s, i + 6);
                if 0xDC00 <= lo < 0xE000 {
                    Some(
                        (
                            ((0x10000 + (code - 0xD800) * 0x400 + (lo - 0xDC00)) as u32) as char,
                            i + 10,
                        ),
                    )
                } else {
                    None
                }
            } else {
                None
            }
        } else if 0xDC00 <= code < 0xE000 {
            // a lone low surrogate names no character
            None
        } else {
            Some(((code as u32) as char, i + 4))
        }
    } else {
        None
    }
}

/// Parse the body of a JSON string, starting just after the opening quote;
/// returns the unescaped content and the position after the closing quote.
pub open spec fn parse_str_body(s: Seq<char>, i: int) -> Option<(Seq<char>, int)>
    decreases s.len() - i,
{
    if !(0 <= i < s.len()) {
        None
    } else if s[i] == '"' {
        Some((Seq::empty(), i + 1))
    } else if s[i] == '\\' {
        if i + 1 < s.len() {
            if s[i + 1] == 'u' {
                match parse_unicode_escape(s, i + 2) {
                    Some((c, j2)) => {
                        if i + 1 < j2 <= s.len() {
                            match parse_str_body(s, j2) {
                                Some((t, j)) => Some((seq![c] + t, j)),
                                None => None,
                            }
                        } else {
                            None
                        }
                    },
                    None => None,
                }
            } else {
                match unescape_char(s[i + 1]) {
                    Some(c) => match parse_str_body(s, i + 2) {
                        Some((t, j)) => Some((seq![c] + t, j)),
                        None => None,
                    },
                    None => None,
                }
            }
        } else {
            None
        }
    } else {
        match parse_str_body(s, i + 1) {
            Some((t, j)) => Some((seq![s[i]] + t, j)),
            None => None,
        }
    }
}

/// Read four hex digits at position `i`.
fn hex4_exec(s: &str, i: usize) -> (r: Option<u32>)
    requires
        i <= s@.len(),
    ensures
        r matches Some(v) ==> is_hex4(s@, i as int) && v as int == hex4_val(s@, i as int) && v
            < 0x10000,
        r is None ==> !is_hex4(s@, i as int),
{
    let n = s.unicode_len();
    if n - i < 4 {
        return None;
    }
    let d0 = match crate::hex::hex_digit_val(s.get_char(i)) {
        Some(v) => v,
        None => { return None; },
    };
    let d1 = match crate::hex::hex_digit_val(s.get_char(i + 1)) {
        Some(v) => v,
        None => { return None; },
    };
    let d2 = match crate::hex::hex_digit_val(s.get_char(i + 2)) {
        Some(v) => v,
        None => { return None; },
    };
    let d3 = match crate::hex::hex_digit_val(s.get_char(i + 3)) {
        Some(v) => v,
        None => { return None; },
    };
    Some((d0 as u32) * 0x1000 + (d1 as u32) * 0x100 + (d2 as u32) * 16 + (d3 as u32))
}

/// Parse a JSON string body starting just after the opening quote.
pub fn parse_str_body_exec(s: &str, i: usize) -> (r: Option<(String, usize)>)
    requires
        i <= s@.len(),
    ensures
        r matches Some((t, j)) ==> parse_str_body(s@, i as int) == Some((t@, j as int)) && i < j
            <= s@.len(),
        r is None ==> parse_str_body(s@, i as int) is None,
    decreases s@.len() - i,
{
    let n = s.unicode_len();
    if i >= n {
        return None;
    }
    let c = s.get_char(i);
    if c == '"' {
        return Some((String::new(), i + 1));
    }
    if c == '\\' {
        if i + 1 >= n {
            return None;
        }
        let e = s.get_char(i + 1);
        if e == 'u' {
            proof {
                reveal(parse_unicode_escape);
            }
            let code = match hex4_exec(s, i + 2) {
                Some(v) => v,
                None => { return None; },
            };
            if 0xD800 <= code && code < 0xDC00 {
                // a high surrogate: its low half must follow
                if i + 6 < n && s.get_char(i + 6) == '\\' && i + 7 < n && s.get_char(i + 7)
                    == 'u' {
                    let lo = match hex4_exec(s, i + 8) {
                        Some(v) => v,
                        None => { return None; },
                    };
                    if 0xDC00 <= lo && lo < 0xE000 {
                        let combined: u32 = 0x10000 + (code - 0xD800) * 0x400 + (lo - 0xDC00);
                        let uc = match char::from_u32(combined) {
                            Some(ch) => ch,
                            None => {
                                assert(false);
                                return None;
                            },
                        };
                        match parse_str_body_exec(s, i + 12) {
                            Some((t, j)) => {
                                let mut out = String::new();
                                out.push(uc);
                                out.append(t.as_str());
                                assert(out@ =~= seq![uc] + t@);
                                return Some((out, j));
                            },
                            None => { return None; },
                        }
                    } else {
                        return None;
                    }
                } else {
                    return None;
                }
            } else if 0xDC00 <= code && code < 0xE000 {
                return None;
            } else {
                let uc = match char::from_u32(code) {
                    Some(ch) => ch,
                    None => {
                        assert(false);
                        return None;
                    },
                };
                match parse_str_body_exec(s, i + 6) {
                    Some((t, j)) => {
                        let mut out = String::new();
                        out.push(uc);
                        out.append(t.as_str());
                        assert(out@ =~= seq![uc] + t@);
                        return Some((out, j));
                    },
                    None => { return None; },
                }
            }
        }
        let u = if e == '"' {
            Some('"')
        } else if e == '\\' {
            Some('\\')
        } else if e == '/' {
            Some('/')
        } else if e == 'n' {
            Some('\n')
        } else if e == 'r' {
            Some('\r')
        } else if e == 't' {
            Some('\t')
        } else if e == 'b' {
            Some('\u{0008}')
        } else if e == 'f' {
            Some('\u{000C}')
        } else {
            None
        };
        assert(u == unescape_char(s@[i + 1]));
        match u {
            Some(uc) => {
                match parse_str_body_exec(s, i + 2) {
                    Some((t, j)) => {
                        let mut out = String::new();
                        out.push(uc);
                        out.append(t.as_str());
                        assert(out@ =~= seq![uc] + t@);
                        Some((out, j))
                    },
                    None => None,
                }
            },
            None => None,
        }
    } else {
        match parse_str_body_exec(s, i + 1) {
            Some((t, j)) => {
                let mut out = String::new();
                out.push(c);
                out.append(t.as_str());
                assert(out@ =~= seq![c] + t@);
                Some((out, j))
            },
            None => None,
        }
    }
}

/// A scalar JSON value as the tolerant decoder classifies it: a string, a
/// boolean, `null`, or anything else.
pub enum JVal {
    S(String),
    B(bool),
    Null,
    Other,
}

/// Spec-level counterpart of [`JVal`].
pub enum JValV {
    S(Seq<char>),
    B(bool),
    Null,
    Other,
}

impl View for JVal {
    type V = JValV;

    open spec fn view(&self) -> JValV {
        match self {
            JVal::S(t) => JValV::S(t@),
            JVal::B(b) => JValV::B(*b),
            JVal::Null => JValV::Null,
            JVal::Other => JValV::Other,
        }
    }
}

/// A character that may appear in a (loosely scanned) JSON number.
pub open spec fn is_num_char(c: char) -> bool {
    c == '-' || c == '+' || c == '.' || c == 'e' || c == 'E' || ('0' <= c && c <= '9')
}

/// The end of a run of number characters.
pub open spec fn num_end(s: Seq<char>, i: int) -> int
    decreases s.len() - i,
{
    if 0 <= i < s.len() && is_num_char(s[i]) {
        num_end(s, i + 1)
    } else {
        i
    }
}

/// `num_end` moves forward and never past the end.
pub proof fn lemma_num_end(s: Seq<char>, i: int)
    requires
        0 <= i <= s.len(),
    ensures
        i <= num_end(s, i) <= s.len(),
    decreases s.len() - i,
{
    if i < s.len() && is_num_char(s[i]) {
        lemma_num_end(s, i + 1);
    }
}

/// Scan past a run of number characters.
pub fn num_end_exec(s: &str, i: usize) -> (r: usize)
    requires
        i <= s@.len(),
    ensures
        r == num_end(s@, i as int),
        i <= r <= s@.len(),
{
    let n = s.unicode_len();
    let mut j = i;
    while j < n
        invariant
            n == s@.len(),
            i <= j <= n,
            num_end(s@, i as int) == num_end(s@, j as int),
        decreases n - j,
    {
        let c = s.get_char(j);
        if c == '-' || c == '+' || c == '.' || c == 'e' || c == 'E' || ('0' <= c && c <= '9') {
            j = j + 1;
        } else {
            return j;
        }
    }
    j
}

/// Parse one JSON value, classified as string, boolean, `null` or other;
/// nested structure is consumed but not retained.
pub open spec fn parse_jval(s: Seq<char>, i: int) -> Option<(JValV, int)>
    decreases s.len() - i, 0int,
{
    let w = ws_end(s, i);
    if w < i || w >= s.len() {
        None
    } else if s[w] == '"' {
        match parse_str_body(s, w + 1) {
            Some((t, j)) => Some((JValV::S(t), j)),
            None => None,
        }
    } else if s[w] == '{' {
        match skip_object_rest(s, w + 1) {
            Some(j) => Some((JValV::Other, j)),
            None => None,
        }
    } else if s[w] == '[' {
        match skip_array_rest(s, w + 1) {
            Some(j) => Some((JValV::Other, j)),
            None => None,
        }
    } else if matches_at(s, "true"@, w) {
        Some((JValV::B(true), w + 4))
    } else if matches_at(s, "false"@, w) {
        Some((JValV::B(false), w + 5))
    } else if matches_at(s, "null"@, w) {
        Some((JValV::Null, w + 4))
    } else if is_num_char(s[w]) {
        Some((JValV::Other, num_end(s, w)))
    } else {
        None
    }
}

/// Consume the members of an object after its opening brace, up to and
/// including the closing brace.
pub open spec fn skip_object_rest(s: Seq<char>, i: int) -> Option<int>
    decreases s.len() - i, 1int,
{
    let w = ws_end(s, i);
    if w < i || w >= s.len() {
        None
    } else if s[w] == '}' {
        Some(w + 1)
    } else if s[w] == '"' {
        match parse_str_body(s, w + 1) {
            Some((_k, j)) => {
                let w2 = ws_end(s, j);
                if 0 <= w2 < s.len() && s[w2] == ':' && w2 + 1 > i {
                    match parse_jval(s, w2 + 1) {
                        Some((_v, j2)) => {
                            let w3 = ws_end(s, j2);
                            if 0 <= w3 < s.len() && s[w3] == ',' && w3 + 1 > i {
                                skip_object_rest(s, w3 + 1)
                            } else if 0 <= w3 < s.len() && s[w3] == '}' {
                                Some(w3 + 1)
                            } else {
                                None
                            }
                        },
                        None => None,
                    }
                } else {
                    None
                }
            },
            None => None,
        }
    } else {
        None
    }
}

/// Consume the elements of an array after its opening bracket, up to and
/// including the closing bracket.
pub open spec fn skip_array_rest(s: Seq<char>, i: int) -> Option<int>
    decreases s.len() - i, 1int,
{
    let w = ws_end(s, i);
    if w < i || w >= s.len() {
        None
    } else if s[w] == ']' {
        Some(w + 1)
    } else {
        match parse_jval(s, w) {
            Some((_v, j)) => {
                let w2 = ws_end(s, j);
                if 0 <= w2 < s.len() && s[w2] == ',' && w2 + 1 > i {
                    skip_array_rest(s, w2 + 1)
                } else if 0 <= w2 < s.len() && s[w2] == ']' {
                    Some(w2 + 1)
                } else {
                    None
                }
            },
            None => None,
        }
    }
}

/// Parse one JSON value.
pub fn parse_jval_exec(s: &str, i: usize) -> (r: Option<(JVal, usize)>)
    requires
        i <= s@.len(),
    ensures
        r matches Some((v, j)) ==> parse_jval(s@, i as int) == Some((v@, j as int)) && i < j
            <= s@.len(),
        r is None ==> parse_jval(s@, i as int) is None,
    decreases s@.len() - i, 0int,
{
    let n = s.unicode_len();
    proof {
        reveal_strlit("true");
        reveal_strlit("false");
        reveal_strlit("null");
    }
    let w = ws_end_exec(s, i);
    if w >= n {
        return None;
    }
    let c = s.get_char(w);
    if c == '"' {
        match parse_str_body_exec(s, w + 1) {
            Some((t, j)) => Some((JVal::S(t), j)),
            None => None,
        }
    } else if c == '{' {
        match skip_object_rest_exec(s, w + 1) {
            Some(j) => Some((JVal::Other, j)),
            None => None,
        }
    } else if c == '[' {
        match skip_array_rest_exec(s, w + 1) {
            Some(j) => Some((JVal::Other, j)),
            None => None,
        }
    } else if n - w >= 4 && crate::strutil::matches_at_exec(s, "true", w) {
        Some((JVal::B(true), w + 4))
    } else if n - w >= 5 && crate::strutil::matches_at_exec(s, "false", w) {
        Some((JVal::B(false), w + 5))
    } else if n - w >= 4 && crate::strutil::matches_at_exec(s, "null", w) {
        Some((JVal::Null, w + 4))
    } else if c == '-' || c == '+' || c == '.' || c == 'e' || c == 'E' || ('0' <= c && c <= '9') {
        let j = num_end_exec(s, w);
        proof {
            assert(num_end(s@, w as int) == num_end(s@, w + 1));
            lemma_num_end(s@, w + 1);
        }
        Some((JVal::Other, j))
    } else {
        None
    }
}

/// Consume object members after the opening brace.
pub fn skip_object_rest_exec(s: &str, i: usize) -> (r: Option<usize>)
    requires
        i <= s@.len(),
    ensures
        r matches Some(j) ==> skip_object_rest(s@, i as int) == Some(j as int) && i < j
            <= s@.len(),
        r is None ==> skip_object_rest(s@, i as int) is None,
    decreases s@.len() - i, 1int,
{
    let n = s.unicode_len();
    let w = ws_end_exec(s, i);
    if w >= n {
        return None;
    }
    let c = s.get_char(w);
    if c == '}' {
        return Some(w + 1);
    }
    if c != '"' {
        return None;
    }
    match parse_str_body_exec(s, w + 1) {
        Some((_k, j)) => {
            let w2 = ws_end_exec(s, j);
            if w2 < n && s.get_char(w2) == ':' {
                match parse_jval_exec(s, w2 + 1) {
                    Some((_v, j2)) => {
                        let w3 = ws_end_exec(s, j2);
                        if w3 < n && s.get_char(w3) == ',' {
                            skip_object_rest_exec(s, w3 + 1)
                        } else if w3 < n && s.get_char(w3) == '}' {
                            Some(w3 + 1)
                        } else {
                            None
                        }
                    },
                    None => None,
                }
            } else {
                None
            }
        },
        None => None,
    }
}

/// Consume array elements after the opening bracket.
pub fn skip_array_rest_exec(s: &str, i: usize) -> (r: Option<usize>)
    requires
        i <= s@.len(),
    ensures
        r matches Some(j) ==> skip_array_rest(s@, i as int) == Some(j as int) && i < j
            <= s@.len(),
        r is None ==> skip_array_rest(s@, i as int) is None,
    decreases s@.len() - i, 1int,
{
    let n = s.unicode_len();
    let w = ws_end_exec(s, i);
    if w >= n {
        return None;
    }
    let c = s.get_char(w);
    if c == ']' {
        return Some(w + 1);
    }
    match parse_jval_exec(s, w) {
        Some((_v, j)) => {
            let w2 = ws_end_exec(s, j);
            if w2 < n && s.get_char(w2) == ',' {
                skip_array_rest_exec(s, w2 + 1)
            } else if w2 < n && s.get_char(w2) == ']' {
                Some(w2 + 1)
            } else {
                None
            }
        },
        None => None,
    }
}

} // verus!
