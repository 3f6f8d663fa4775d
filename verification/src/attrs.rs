//! Reading `key = "value"` pairs out of attribute strings, tolerating the
//! spacing variants a tokenizer produces.

use vstd::prelude::*;
use crate::schema::opt_view;
use crate::strutil::find_from;

verus! {

/// The value extracted with one concrete pattern: the text between the end
/// of the pattern's first occurrence and the next quote.
pub open spec fn extract_with(s: Seq<char>, pat: Seq<char>) -> Option<Seq<char>> {
    let st = find_from(s, pat, 0);
    if st < 0 {
        None
    } else {
        let vs = st + pat.len();
        let e = find_from(s, seq!['"'], vs);
        if e < 0 {
            None
        } else {
            Some(s.subrange(vs, e))
        }
    }
}

/// The value of `key = "value"` in an attribute string: the spacing variants
/// around the equals sign are tried in a fixed order.
pub open spec fn extract_attr_spec(s: Seq<char>, key: Seq<char>) -> Option<Seq<char>> {
    if extract_with(s, key + " = \""@) is Some {
        extract_with(s, key + " = \""@)
    } else if extract_with(s, key + " =\n\""@) is Some {
        extract_with(s, key + " =\n\""@)
    } else if extract_with(s, key + "= \""@) is Some {
        extract_with(s, key + "= \""@)
    } else if extract_with(s, key + "=\n\""@) is Some {
        extract_with(s, key + "=\n\""@)
    } else if extract_with(s, key + " =\""@) is Some {
        extract_with(s, key + " =\""@)
    } else if extract_with(s, key + "=\""@) is Some {
        extract_with(s, key + "=\""@)
    } else {
        None
    }
}

/// Try one concrete pattern.
fn try_pattern(attr_str: &str, pattern: &String) -> (r: Option<String>)
    ensures
        opt_view(r) == extract_with(attr_str@, pattern@),
{
    proof {
        reveal_strlit("\"");
        assert("\""@ =~= seq!['"']);
    }
    let n = attr_str.unicode_len();
    match crate::strutil::str_find_from(attr_str, pattern.as_str(), 0) {
        Some(st) => {
            let np = pattern.as_str().unicode_len();
            let vs = st + np;
            match crate::strutil::str_find_from(attr_str, "\"", vs) {
                Some(e) => {
                    let v = attr_str.substring_char(vs, e);
                    Some(String::from_str(v))
                },
                None => None,
            }
        },
        None => None,
    }
}

/// Extract the value of `key = "value"` from an attribute string, whatever
/// spacing stands around the equals sign.
pub fn extract_attr_value(attr_str: &str, key: &str) -> (r: Option<String>)
    ensures
        opt_view(r) == extract_attr_spec(attr_str@, key@),
{
    let mut p1 = String::from_str(key);
    p1.append(" = \"");
    if let Some(v) = try_pattern(attr_str, &p1) {
        return Some(v);
    }
    let mut p2 = String::from_str(key);
    p2.append(" =\n\"");
    if let Some(v) = try_pattern(attr_str, &p2) {
        return Some(v);
    }
    let mut p3 = String::from_str(key);
    p3.append("= \"");
    if let Some(v) = try_pattern(attr_str, &p3) {
        return Some(v);
    }
    let mut p4 = String::from_str(key);
    p4.append("=\n\"");
    if let Some(v) = try_pattern(attr_str, &p4) {
        return Some(v);
    }
    let mut p5 = String::from_str(key);
    p5.append(" =\"");
    if let Some(v) = try_pattern(attr_str, &p5) {
        return Some(v);
    }
    let mut p6 = String::from_str(key);
    p6.append("=\"");
    if let Some(v) = try_pattern(attr_str, &p6) {
        return Some(v);
    }
    None
}

} // verus!
