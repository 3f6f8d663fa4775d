//! The schema-document grammar: a tolerant parser for both wire shapes.
//!
//! Either encoding decodes into [`crate::client::ParsedSchema`].  Unknown
//! object members are skipped; a known member whose value has the wrong type
//! is an error where the document structure demands it (names, tool lists,
//! required keys) and a silently absent field where the accessors tolerate it
//! (flags inside a verbose parameter object).  A field set twice, under any
//! of its accepted keys, is an error.

use vstd::prelude::*;
use crate::client::{
    ParamDetail, ParamDetailV, ParamValue, ParamValueV, ParsedSchema, ParsedSchemaV, ParsedTool,
    ParsedToolV,
};
use crate::parse::{
    JVal, JValV, parse_jval, parse_jval_exec, parse_str_body, parse_str_body_exec, ws_end,
    ws_end_exec,
};
use crate::strutil::str_eq;

verus! {

/// One member of a verbose parameter object, folded into the detail record:
/// the last occurrence of a known key wins, and a known key with a value of
/// the wrong type clears the field.
pub open spec fn detail_update(d: ParamDetailV, k: Seq<char>, v: JValV) -> ParamDetailV {
    if k == "type"@ {
        ParamDetailV {
            ty: match v {
                JValV::S(t) => Some(t),
                _ => None,
            },
            ..d
        }
    } else if k == "signer"@ {
        ParamDetailV {
            signer: match v {
                JValV::B(b) => Some(b),
                _ => None,
            },
            ..d
        }
    } else if k == "writable"@ {
        ParamDetailV {
            writable: match v {
                JValV::B(b) => Some(b),
                _ => None,
            },
            ..d
        }
    } else if k == "description"@ {
        ParamDetailV {
            description: match v {
                JValV::S(t) => Some(t),
                _ => None,
            },
            ..d
        }
    } else {
        d
    }
}

/// Parse the members of a verbose parameter object after its opening brace.
pub open spec fn parse_detail_rest(s: Seq<char>, i: int, acc: ParamDetailV) -> Option<
    (ParamDetailV, int),
>
    decreases s.len() - i,
{
    let w = ws_end(s, i);
    if w < i || w >= s.len() {
        None
    } else if s[w] == '}' {
        Some((acc, w + 1))
    } else if s[w] == '"' {
        match parse_str_body(s, w + 1) {
            Some((k, j)) => {
                let w2 = ws_end(s, j);
                if 0 <= w2 < s.len() && s[w2] == ':' {
                    match parse_jval(s, w2 + 1) {
                        Some((v, j2)) => {
                            let acc2 = detail_update(acc, k, v);
                            let w3 = ws_end(s, j2);
                            if 0 <= w3 < s.len() && s[w3] == ',' && w3 + 1 > i {
                                parse_detail_rest(s, w3 + 1, acc2)
                            } else if 0 <= w3 < s.len() && s[w3] == '}' {
                                Some((acc2, w3 + 1))
                            } else {
                                None
                            }
                        },
                        None => None,
                    }
                } else {
                    None
                }
            },
            None => None,
        }
    } else {
        None
    }
}

/// The empty detail record.
pub open spec fn empty_detail() -> ParamDetailV {
    ParamDetailV { ty: None, signer: None, writable: None, description: None }
}

/// Parse one raw parameter value: a bare string is a compact type name, an
/// object is a verbose detail record, anything else is kept opaque.
pub open spec fn parse_param_value(s: Seq<char>, i: int) -> Option<(ParamValueV, int)> {
    let w = ws_end(s, i);
    if w < i || w >= s.len() {
        None
    } else if s[w] == '"' {
        match parse_str_body(s, w + 1) {
            Some((t, j)) => Some((ParamValueV::TypeName(t), j)),
            None => None,
        }
    } else if s[w] == '{' {
        match parse_detail_rest(s, w + 1, empty_detail()) {
            Some((d, j)) => Some((ParamValueV::Detail(d), j)),
            None => None,
        }
    } else {
        match parse_jval(s, i) {
            Some((_v, j)) => Some((ParamValueV::Other, j)),
            None => None,
        }
    }
}

/// The first index holding key `k`, or -1.
pub open spec fn find_key(acc: Seq<(Seq<char>, ParamValueV)>, k: Seq<char>) -> int
    decreases acc.len(),
{
    if acc.len() == 0 {
        -1
    } else if acc[0].0 == k {
        0
    } else {
        let r = find_key(acc.skip(1), k);
        if r < 0 {
            -1
        } else {
            r + 1
        }
    }
}

/// `find_key` returns the first matching index, or -1 when no key matches.
pub proof fn lemma_find_key(acc: Seq<(Seq<char>, ParamValueV)>, k: Seq<char>)
    ensures
        find_key(acc, k) == -1 ==> forall|m: int|
            0 <= m < acc.len() ==> (#[trigger] acc[m]).0 != k,
        find_key(acc, k) != -1 ==> {
            &&& 0 <= find_key(acc, k) < acc.len()
            &&& acc[find_key(acc, k)].0 == k
            &&& forall|m: int| 0 <= m < find_key(acc, k) ==> (#[trigger] acc[m]).0 != k
        },
    decreases acc.len(),
{
    if acc.len() > 0 && acc[0].0 != k {
        lemma_find_key(acc.skip(1), k);
        assert(forall|m: int| 1 <= m < acc.len() ==> acc[m] == acc.skip(1)[m - 1]);
    }
}

/// Insert or replace: a repeated key keeps its first position and takes the
/// later value, so the map stays insertion-ordered.
pub open spec fn upsert(
    acc: Seq<(Seq<char>, ParamValueV)>,
    k: Seq<char>,
    v: ParamValueV,
) -> Seq<(Seq<char>, ParamValueV)> {
    let idx = find_key(acc, k);
    if idx < 0 {
        acc.push((k, v))
    } else {
        acc.update(idx, (k, v))
    }
}

/// Parse the members of a parameter map after its opening brace.
pub open spec fn parse_params_rest(
    s: Seq<char>,
    i: int,
    acc: Seq<(Seq<char>, ParamValueV)>,
) -> Option<(Seq<(Seq<char>, ParamValueV)>, int)>
    decreases s.len() - i,
{
    let w = ws_end(s, i);
    if w < i || w >= s.len() {
        None
    } else if s[w] == '}' {
        Some((acc, w + 1))
    } else if s[w] == '"' {
        match parse_str_body(s, w + 1) {
            Some((k, j)) => {
                let w2 = ws_end(s, j);
                if 0 <= w2 < s.len() && s[w2] == ':' {
                    match parse_param_value(s, w2 + 1) {
                        Some((v, j2)) => {
                            let acc2 = upsert(acc, k, v);
                            let w3 = ws_end(s, j2);
                            if 0 <= w3 < s.len() && s[w3] == ',' && w3 + 1 > i {
                                parse_params_rest(s, w3 + 1, acc2)
                            } else if 0 <= w3 < s.len() && s[w3] == '}' {
                                Some((acc2, w3 + 1))
                            } else {
                                None
                            }
                        },
                        None => None,
                    }
                } else {
                    None
                }
            },
            None => None,
        }
    } else {
        None
    }
}

/// Parse the elements of a required-keys array after its opening bracket;
/// every element must be a string.
pub open spec fn parse_req_rest(s: Seq<char>, i: int, acc: Seq<Seq<char>>) -> Option<
    (Seq<Seq<char>>, int),
>
    decreases s.len() - i,
{
    let w = ws_end(s, i);
    if w < i || w >= s.len() {
        None
    } else if s[w] == ']' {
        Some((acc, w + 1))
    } else if s[w] == '"' {
        match parse_str_body(s, w + 1) {
            Some((t, j)) => {
                let acc2 = acc.push(t);
                let w2 = ws_end(s, j);
                if 0 <= w2 < s.len() && s[w2] == ',' && w2 + 1 > i {
                    parse_req_rest(s, w2 + 1, acc2)
                } else if 0 <= w2 < s.len() && s[w2] == ']' {
                    Some((acc2, w2 + 1))
                } else {
                    None
                }
            },
            None => None,
        }
    } else {
        None
    }
}

/// Accumulated fields of a tool object; the outer `Option` records whether
/// the field was seen, so a duplicate can be refused.
pub struct ToolFieldsV {
    pub name: Option<Seq<char>>,
    pub description: Option<Option<Seq<char>>>,
    pub discriminator: Option<Seq<char>>,
    pub params: Option<Seq<(Seq<char>, ParamValueV)>>,
    pub required: Option<Seq<Seq<char>>>,
}

/// The empty tool accumulator.
pub open spec fn empty_tool_fields() -> ToolFieldsV {
    ToolFieldsV { name: None, description: None, discriminator: None, params: None, required: None }
}

/// A finished tool: `name` and `discriminator` are owed; the map, the
/// required list and the description default to empty or absent.
pub open spec fn finish_tool(acc: ToolFieldsV) -> Option<ParsedToolV> {
    match (acc.name, acc.discriminator) {
        (Some(n), Some(d)) => Some(
            ParsedToolV {
                name: n,
                description: match acc.description {
                    Some(o) => o,
                    None => None,
                },
                discriminator: d,
                params: match acc.params {
                    Some(m) => m,
                    None => Seq::empty(),
                },
                required: match acc.required {
                    Some(r) => r,
                    None => Seq::empty(),
                },
            },
        ),
        _ => None,
    }
}

/// Parse one member of a tool object, the key already read and the position
/// just after the colon.  A key for a field already seen is an error; an
/// unknown key has its value skipped.
pub open spec fn parse_tool_member(s: Seq<char>, p: int, k: Seq<char>, acc: ToolFieldsV) -> Option<
    (ToolFieldsV, int),
> {
    if k == "name"@ || k == "n"@ {
        if acc.name is Some {
            None
        } else {
            match parse_jval(s, p) {
                Some((JValV::S(t), j)) => Some((ToolFieldsV { name: Some(t), ..acc }, j)),
                _ => None,
            }
        }
    } else if k == "description"@ || k == "i"@ {
        if acc.description is Some {
            None
        } else {
            match parse_jval(s, p) {
                Some((JValV::S(t), j)) => Some(
                    (ToolFieldsV { description: Some(Some(t)), ..acc }, j),
                ),
                Some((JValV::Null, j)) => Some((ToolFieldsV { description: Some(None), ..acc }, j)),
                _ => None,
            }
        }
    } else if k == "discriminator"@ || k == "d"@ {
        if acc.discriminator is Some {
            None
        } else {
            match parse_jval(s, p) {
                Some((JValV::S(t), j)) => Some((ToolFieldsV { discriminator: Some(t), ..acc }, j)),
                _ => None,
            }
        }
    } else if k == "params"@ || k == "p"@ || k == "parameters"@ {
        if acc.params is Some {
            None
        } else {
            let w = ws_end(s, p);
            if 0 <= w < s.len() && s[w] == '{' {
                match parse_params_rest(s, w + 1, Seq::empty()) {
                    Some((m, j)) => Some((ToolFieldsV { params: Some(m), ..acc }, j)),
                    None => None,
                }
            } else {
                None
            }
        }
    } else if k == "required"@ || k == "r"@ {
        if acc.required is Some {
            None
        } else {
            let w = ws_end(s, p);
            if 0 <= w < s.len() && s[w] == '[' {
                match parse_req_rest(s, w + 1, Seq::empty()) {
                    Some((r, j)) => Some((ToolFieldsV { required: Some(r), ..acc }, j)),
                    None => None,
                }
            } else {
                None
            }
        }
    } else {
        match parse_jval(s, p) {
            Some((_v, j)) => Some((acc, j)),
            None => None,
        }
    }
}

/// Parse the members of a tool object after its opening brace.
pub open spec fn parse_tool_rest(s: Seq<char>, i: int, acc: ToolFieldsV) -> Option<
    (ParsedToolV, int),
>
    decreases s.len() - i,
{
    let w = ws_end(s, i);
    if w < i || w >= s.len() {
        None
    } else if s[w] == '}' {
        match finish_tool(acc) {
            Some(t) => Some((t, w + 1)),
            None => None,
        }
    } else if s[w] == '"' {
        match parse_str_body(s, w + 1) {
            Some((k, j)) => {
                let w2 = ws_end(s, j);
                if 0 <= w2 < s.len() && s[w2] == ':' {
                    match parse_tool_member(s, w2 + 1, k, acc) {
                        Some((acc2, j2)) => {
                            let w3 = ws_end(s, j2);
                            if 0 <= w3 < s.len() && s[w3] == ',' && w3 + 1 > i {
                                parse_tool_rest(s, w3 + 1, acc2)
                            } else if 0 <= w3 < s.len() && s[w3] == '}' {
                                match finish_tool(acc2) {
                                    Some(t) => Some((t, w3 + 1)),
                                    None => None,
                                }
                            } else {
                                None
                            }
                        },
                        None => None,
                    }
                } else {
                    None
                }
            },
            None => None,
        }
    } else {
        None
    }
}

/// Parse the elements of the tools array after its opening bracket; every
/// element must be a tool object.
pub open spec fn parse_tools_rest(s: Seq<char>, i: int, acc: Seq<ParsedToolV>) -> Option<
    (Seq<ParsedToolV>, int),
>
    decreases s.len() - i,
{
    let w = ws_end(s, i);
    if w < i || w >= s.len() {
        None
    } else if s[w] == ']' {
        Some((acc, w + 1))
    } else if s[w] == '{' {
        match parse_tool_rest(s, w + 1, empty_tool_fields()) {
            Some((t, j)) => {
                let acc2 = acc.push(t);
                let w2 = ws_end(s, j);
                if 0 <= w2 < s.len() && s[w2] == ',' && w2 + 1 > i {
                    parse_tools_rest(s, w2 + 1, acc2)
                } else if 0 <= w2 < s.len() && s[w2] == ']' {
                    Some((acc2, w2 + 1))
                } else {
                    None
                }
            },
            None => None,
        }
    } else {
        None
    }
}

/// Accumulated fields of the schema object.
pub struct SchemaFieldsV {
    pub version: Option<Seq<char>>,
    pub name: Option<Seq<char>>,
    pub tools: Option<Seq<ParsedToolV>>,
    pub next_cursor: Option<Option<Seq<char>>>,
}

/// The empty schema accumulator.
pub open spec fn empty_schema_fields() -> SchemaFieldsV {
    SchemaFieldsV { version: None, name: None, tools: None, next_cursor: None }
}

/// A finished schema: `v`, `name` and `tools` are owed; the cursor defaults
/// to absent.
pub open spec fn finish_schema(acc: SchemaFieldsV) -> Option<ParsedSchemaV> {
    match (acc.version, acc.name, acc.tools) {
        (Some(v), Some(n), Some(t)) => Some(
            ParsedSchemaV {
                version: v,
                name: n,
                tools: t,
                next_cursor: match acc.next_cursor {
                    Some(o) => o,
                    None => None,
                },
            },
        ),
        _ => None,
    }
}

/// Parse one member of the schema object, the key already read and the
/// position just after the colon.
pub open spec fn parse_schema_member(
    s: Seq<char>,
    p: int,
    k: Seq<char>,
    acc: SchemaFieldsV,
) -> Option<(SchemaFieldsV, int)> {
    if k == "v"@ {
        if acc.version is Some {
            None
        } else {
            match parse_jval(s, p) {
                Some((JValV::S(t), j)) => Some((SchemaFieldsV { version: Some(t), ..acc }, j)),
                _ => None,
            }
        }
    } else if k == "name"@ {
        if acc.name is Some {
            None
        } else {
            match parse_jval(s, p) {
                Some((JValV::S(t), j)) => Some((SchemaFieldsV { name: Some(t), ..acc }, j)),
                _ => None,
            }
        }
    } else if k == "tools"@ {
        if acc.tools is Some {
            None
        } else {
            let w = ws_end(s, p);
            if 0 <= w < s.len() && s[w] == '[' {
                match parse_tools_rest(s, w + 1, Seq::empty()) {
                    Some((t, j)) => Some((SchemaFieldsV { tools: Some(t), ..acc }, j)),
                    None => None,
                }
            } else {
                None
            }
        }
    } else if k == "nextCursor"@ {
        if acc.next_cursor is Some {
            None
        } else {
            match parse_jval(s, p) {
                Some((JValV::S(t), j)) => Some(
                    (SchemaFieldsV { next_cursor: Some(Some(t)), ..acc }, j),
                ),
                Some((JValV::Null, j)) => Some(
                    (SchemaFieldsV { next_cursor: Some(None), ..acc }, j),
                ),
                _ => None,
            }
        }
    } else {
        match parse_jval(s, p) {
            Some((_v, j)) => Some((acc, j)),
            None => None,
        }
    }
}

/// Parse the members of the schema object after its opening brace.
pub open spec fn parse_schema_rest(s: Seq<char>, i: int, acc: SchemaFieldsV) -> Option<
    (ParsedSchemaV, int),
>
    decreases s.len() - i,
{
    let w = ws_end(s, i);
    if w < i || w >= s.len() {
        None
    } else if s[w] == '}' {
        match finish_schema(acc) {
            Some(v) => Some((v, w + 1)),
            None => None,
        }
    } else if s[w] == '"' {
        match parse_str_body(s, w + 1) {
            Some((k, j)) => {
                let w2 = ws_end(s, j);
                if 0 <= w2 < s.len() && s[w2] == ':' {
                    match parse_schema_member(s, w2 + 1, k, acc) {
                        Some((acc2, j2)) => {
                            let w3 = ws_end(s, j2);
                            if 0 <= w3 < s.len() && s[w3] == ',' && w3 + 1 > i {
                                parse_schema_rest(s, w3 + 1, acc2)
                            } else if 0 <= w3 < s.len() && s[w3] == '}' {
                                match finish_schema(acc2) {
                                    Some(v) => Some((v, w3 + 1)),
                                    None => None,
                                }
                            } else {
                                None
                            }
                        },
                        None => None,
                    }
                } else {
                    None
                }
            },
            None => None,
        }
    } else {
        None
    }
}

/// The parsed schema a whole document stands for: one schema object with
/// nothing but whitespace around it.
pub open spec fn parse_schema_doc(s: Seq<char>) -> Option<ParsedSchemaV> {
    let w = ws_end(s, 0);
    if 0 <= w < s.len() && s[w] == '{' {
        match parse_schema_rest(s, w + 1, empty_schema_fields()) {
            Some((v, j)) => {
                if ws_end(s, j) == s.len() {
                    Some(v)
                } else {
                    None
                }
            },
            None => None,
        }
    } else {
        None
    }
}

/// View of a parameter vector as a sequence of key/value pairs.
pub open spec fn params_view(v: Seq<(String, ParamValue)>) -> Seq<(Seq<char>, ParamValueV)> {
    Seq::new(v.len(), |i: int| (v[i].0@, v[i].1@))
}

/// View of a vector of strings as a sequence of character sequences.
pub open spec fn strings_view(v: Seq<String>) -> Seq<Seq<char>> {
    Seq::new(v.len(), |i: int| v[i]@)
}

/// View of a vector of parsed tools.
pub open spec fn tools_view(v: Seq<ParsedTool>) -> Seq<ParsedToolV> {
    Seq::new(v.len(), |i: int| v[i]@)
}

/// Fold one member into the detail record.
fn detail_update_exec(d: ParamDetail, k: &str, v: JVal) -> (r: ParamDetail)
    ensures
        r@ == detail_update(d@, k@, v@),
{
    if str_eq(k, "type") {
        ParamDetail {
            ty: match v {
                JVal::S(t) => Some(t),
                _ => None,
            },
            ..d
        }
    } else if str_eq(k, "signer") {
        ParamDetail {
            signer: match v {
                JVal::B(b) => Some(b),
                _ => None,
            },
            ..d
        }
    } else if str_eq(k, "writable") {
        ParamDetail {
            writable: match v {
                JVal::B(b) => Some(b),
                _ => None,
            },
            ..d
        }
    } else if str_eq(k, "description") {
        ParamDetail {
            description: match v {
                JVal::S(t) => Some(t),
                _ => None,
            },
            ..d
        }
    } else {
        d
    }
}

/// Parse the members of a verbose parameter object.
fn parse_detail_rest_exec(s: &str, i: usize, acc: ParamDetail) -> (r: Option<(ParamDetail, usize)>)
    requires
        i <= s@.len(),
    ensures
        r matches Some((d, j)) ==> parse_detail_rest(s@, i as int, acc@) == Some((d@, j as int))
            && i < j <= s@.len(),
        r is None ==> parse_detail_rest(s@, i as int, acc@) is None,
    decreases s@.len() - i,
{
    let n = s.unicode_len();
    let w = ws_end_exec(s, i);
    if w >= n {
        return None;
    }
    let c = s.get_char(w);
    if c == '}' {
        return Some((acc, w + 1));
    }
    if c != '"' {
        return None;
    }
    match parse_str_body_exec(s, w + 1) {
        Some((k, j)) => {
            let w2 = ws_end_exec(s, j);
            if w2 < n && s.get_char(w2) == ':' {
                match parse_jval_exec(s, w2 + 1) {
                    Some((v, j2)) => {
                        let acc2 = detail_update_exec(acc, k.as_str(), v);
                        let w3 = ws_end_exec(s, j2);
                        if w3 < n && s.get_char(w3) == ',' {
                            parse_detail_rest_exec(s, w3 + 1, acc2)
                        } else if w3 < n && s.get_char(w3) == '}' {
                            Some((acc2, w3 + 1))
                        } else {
                            None
                        }
                    },
                    None => None,
                }
            } else {
                None
            }
        },
        None => None,
    }
}

/// Parse one raw parameter value.
fn parse_param_value_exec(s: &str, i: usize) -> (r: Option<(ParamValue, usize)>)
    requires
        i <= s@.len(),
    ensures
        r matches Some((v, j)) ==> parse_param_value(s@, i as int) == Some((v@, j as int)) && i
            < j <= s@.len(),
        r is None ==> parse_param_value(s@, i as int) is None,
{
    let n = s.unicode_len();
    let w = ws_end_exec(s, i);
    if w >= n {
        return None;
    }
    let c = s.get_char(w);
    if c == '"' {
        match parse_str_body_exec(s, w + 1) {
            Some((t, j)) => Some((ParamValue::TypeName(t), j)),
            None => None,
        }
    } else if c == '{' {
        let d0 = ParamDetail { ty: None, signer: None, writable: None, description: None };
        assert(d0@ == empty_detail());
        match parse_detail_rest_exec(s, w + 1, d0) {
            Some((d, j)) => Some((ParamValue::Detail(d), j)),
            None => None,
        }
    } else {
        match parse_jval_exec(s, i) {
            Some((_v, j)) => Some((ParamValue::Other, j)),
            None => None,
        }
    }
}

/// Insert or replace a key in the parameter vector, keeping first positions.
fn upsert_exec(acc: Vec<(String, ParamValue)>, k: String, v: ParamValue) -> (r: Vec<
    (String, ParamValue),
>)
    ensures
        params_view(r@) == upsert(params_view(acc@), k@, v@),
{
    let ghost accv = params_view(acc@);
    let n = acc.len();
    let mut i: usize = 0;
    while i < n
        invariant
            n == acc@.len(),
            i <= n,
            accv == params_view(acc@),
            forall|m: int| 0 <= m < i ==> (#[trigger] accv[m]).0 != k@,
        decreases n - i,
    {
        if str_eq(acc[i].0.as_str(), k.as_str()) {
            proof {
                lemma_find_key(accv, k@);
                assert(accv[i as int].0 == k@);
                assert(find_key(accv, k@) == i);
            }
            let mut r = acc;
            let _old = r.remove(i);
            r.insert(i, (k, v));
            proof {
                assert(params_view(r@) =~= upsert(accv, k@, v@));
            }
            return r;
        }
        i = i + 1;
    }
    proof {
        lemma_find_key(accv, k@);
        assert(find_key(accv, k@) == -1);
    }
    let mut r = acc;
    r.push((k, v));
    proof {
        assert(params_view(r@) =~= upsert(accv, k@, v@));
    }
    r
}

/// Parse the members of a parameter map.
fn parse_params_rest_exec(s: &str, i: usize, acc: Vec<(String, ParamValue)>) -> (r: Option<
    (Vec<(String, ParamValue)>, usize),
>)
    requires
        i <= s@.len(),
    ensures
        r matches Some((m, j)) ==> parse_params_rest(s@, i as int, params_view(acc@)) == Some(
            (params_view(m@), j as int),
        ) && i < j <= s@.len(),
        r is None ==> parse_params_rest(s@, i as int, params_view(acc@)) is None,
    decreases s@.len() - i,
{
    let n = s.unicode_len();
    let w = ws_end_exec(s, i);
    if w >= n {
        return None;
    }
    let c = s.get_char(w);
    if c == '}' {
        return Some((acc, w + 1));
    }
    if c != '"' {
        return None;
    }
    match parse_str_body_exec(s, w + 1) {
        Some((k, j)) => {
            let w2 = ws_end_exec(s, j);
            if w2 < n && s.get_char(w2) == ':' {
                match parse_param_value_exec(s, w2 + 1) {
                    Some((v, j2)) => {
                        let acc2 = upsert_exec(acc, k, v);
                        let w3 = ws_end_exec(s, j2);
                        if w3 < n && s.get_char(w3) == ',' {
                            parse_params_rest_exec(s, w3 + 1, acc2)
                        } else if w3 < n && s.get_char(w3) == '}' {
                            Some((acc2, w3 + 1))
                        } else {
                            None
                        }
                    },
                    None => None,
                }
            } else {
                None
            }
        },
        None => None,
    }
}

/// Parse the elements of a required-keys array.
fn parse_req_rest_exec(s: &str, i: usize, acc: Vec<String>) -> (r: Option<(Vec<String>, usize)>)
    requires
        i <= s@.len(),
    ensures
        r matches Some((q, j)) ==> parse_req_rest(s@, i as int, strings_view(acc@)) == Some(
            (strings_view(q@), j as int),
        ) && i < j <= s@.len(),
        r is None ==> parse_req_rest(s@, i as int, strings_view(acc@)) is None,
    decreases s@.len() - i,
{
    let n = s.unicode_len();
    let w = ws_end_exec(s, i);
    if w >= n {
        return None;
    }
    let c = s.get_char(w);
    if c == ']' {
        return Some((acc, w + 1));
    }
    if c != '"' {
        return None;
    }
    match parse_str_body_exec(s, w + 1) {
        Some((t, j)) => {
            let mut acc2 = acc;
            acc2.push(t);
            proof {
                assert(strings_view(acc2@) =~= strings_view(acc@).push(t@));
            }
            let w2 = ws_end_exec(s, j);
            if w2 < n && s.get_char(w2) == ',' {
                parse_req_rest_exec(s, w2 + 1, acc2)
            } else if w2 < n && s.get_char(w2) == ']' {
                Some((acc2, w2 + 1))
            } else {
                None
            }
        },
        None => None,
    }
}

/// Accumulated fields of a tool object while parsing.
pub struct ToolFields {
    pub name: Option<String>,
    pub description: Option<Option<String>>,
    pub discriminator: Option<String>,
    pub params: Option<Vec<(String, ParamValue)>>,
    pub required: Option<Vec<String>>,
}

impl View for ToolFields {
    type V = ToolFieldsV;

    open spec fn view(&self) -> ToolFieldsV {
        ToolFieldsV {
            name: crate::schema::opt_view(self.name),
            description: match self.description {
                Some(o) => Some(crate::schema::opt_view(o)),
                None => None,
            },
            discriminator: crate::schema::opt_view(self.discriminator),
            params: match self.params {
                Some(m) => Some(params_view(m@)),
                None => None,
            },
            required: match self.required {
                Some(q) => Some(strings_view(q@)),
                None => None,
            },
        }
    }
}

/// Parse one member of a tool object.
fn parse_tool_member_exec(s: &str, p: usize, k: &str, acc: ToolFields) -> (r: Option<
    (ToolFields, usize),
>)
    requires
        p <= s@.len(),
    ensures
        r matches Some((a, j)) ==> parse_tool_member(s@, p as int, k@, acc@) == Some(
            (a@, j as int),
        ) && p < j <= s@.len(),
        r is None ==> parse_tool_member(s@, p as int, k@, acc@) is None,
{
    let n = s.unicode_len();
    if str_eq(k, "name") || str_eq(k, "n") {
        if acc.name.is_some() {
            return None;
        }
        match parse_jval_exec(s, p) {
            Some((JVal::S(t), j)) => Some((ToolFields { name: Some(t), ..acc }, j)),
            _ => None,
        }
    } else if str_eq(k, "description") || str_eq(k, "i") {
        if acc.description.is_some() {
            return None;
        }
        match parse_jval_exec(s, p) {
            Some((JVal::S(t), j)) => Some((ToolFields { description: Some(Some(t)), ..acc }, j)),
            Some((JVal::Null, j)) => Some((ToolFields { description: Some(None), ..acc }, j)),
            _ => None,
        }
    } else if str_eq(k, "discriminator") || str_eq(k, "d") {
        if acc.discriminator.is_some() {
            return None;
        }
        match parse_jval_exec(s, p) {
            Some((JVal::S(t), j)) => Some((ToolFields { discriminator: Some(t), ..acc }, j)),
            _ => None,
        }
    } else if str_eq(k, "params") || str_eq(k, "p") || str_eq(k, "parameters") {
        if acc.params.is_some() {
            return None;
        }
        let w = ws_end_exec(s, p);
        if w < n && s.get_char(w) == '{' {
            let m0: Vec<(String, ParamValue)> = Vec::new();
            proof {
                assert(params_view(m0@) =~= Seq::<(Seq<char>, ParamValueV)>::empty());
            }
            match parse_params_rest_exec(s, w + 1, m0) {
                Some((m, j)) => Some((ToolFields { params: Some(m), ..acc }, j)),
                None => None,
            }
        } else {
            None
        }
    } else if str_eq(k, "required") || str_eq(k, "r") {
        if acc.required.is_some() {
            return None;
        }
        let w = ws_end_exec(s, p);
        if w < n && s.get_char(w) == '[' {
            let q0: Vec<String> = Vec::new();
            proof {
                assert(strings_view(q0@) =~= Seq::<Seq<char>>::empty());
            }
            match parse_req_rest_exec(s, w + 1, q0) {
                Some((q, j)) => Some((ToolFields { required: Some(q), ..acc }, j)),
                None => None,
            }
        } else {
            None
        }
    } else {
        match parse_jval_exec(s, p) {
            Some((_v, j)) => Some((acc, j)),
            None => None,
        }
    }
}

/// Turn a finished accumulator into a tool, if its owed fields are present.
fn finish_tool_exec(acc: ToolFields) -> (r: Option<ParsedTool>)
    ensures
        r matches Some(t) ==> finish_tool(acc@) == Some(t@),
        r is None ==> finish_tool(acc@) is None,
{
    let ToolFields { name, description, discriminator, params, required } = acc;
    match (name, discriminator) {
        (Some(n), Some(d)) => {
            let t = ParsedTool {
                name: n,
                description: match description {
                    Some(o) => o,
                    None => None,
                },
                discriminator: d,
                params: match params {
                    Some(m) => m,
                    None => Vec::new(),
                },
                required: match required {
                    Some(q) => q,
                    None => Vec::new(),
                },
            };
            proof {
                assert(t@.params =~= match finish_tool(acc@) {
                    Some(ft) => ft.params,
                    None => Seq::empty(),
                });
                assert(t@.required =~= match finish_tool(acc@) {
                    Some(ft) => ft.required,
                    None => Seq::empty(),
                });
            }
            Some(t)
        },
        _ => None,
    }
}

/// Parse the members of a tool object.
fn parse_tool_rest_exec(s: &str, i: usize, acc: ToolFields) -> (r: Option<(ParsedTool, usize)>)
    requires
        i <= s@.len(),
    ensures
        r matches Some((t, j)) ==> parse_tool_rest(s@, i as int, acc@) == Some((t@, j as int))
            && i < j <= s@.len(),
        r is None ==> parse_tool_rest(s@, i as int, acc@) is None,
    decreases s@.len() - i,
{
    let n = s.unicode_len();
    let w = ws_end_exec(s, i);
    if w >= n {
        return None;
    }
    let c = s.get_char(w);
    if c == '}' {
        return match finish_tool_exec(acc) {
            Some(t) => Some((t, w + 1)),
            None => None,
        };
    }
    if c != '"' {
        return None;
    }
    match parse_str_body_exec(s, w + 1) {
        Some((k, j)) => {
            let w2 = ws_end_exec(s, j);
            if w2 < n && s.get_char(w2) == ':' {
                match parse_tool_member_exec(s, w2 + 1, k.as_str(), acc) {
                    Some((acc2, j2)) => {
                        let w3 = ws_end_exec(s, j2);
                        if w3 < n && s.get_char(w3) == ',' {
                            parse_tool_rest_exec(s, w3 + 1, acc2)
                        } else if w3 < n && s.get_char(w3) == '}' {
                            match finish_tool_exec(acc2) {
                                Some(t) => Some((t, w3 + 1)),
                                None => None,
                            }
                        } else {
                            None
                        }
                    },
                    None => None,
                }
            } else {
                None
            }
        },
        None => None,
    }
}

/// Parse the elements of the tools array.
fn parse_tools_rest_exec(s: &str, i: usize, acc: Vec<ParsedTool>) -> (r: Option<
    (Vec<ParsedTool>, usize),
>)
    requires
        i <= s@.len(),
    ensures
        r matches Some((t, j)) ==> parse_tools_rest(s@, i as int, tools_view(acc@)) == Some(
            (tools_view(t@), j as int),
        ) && i < j <= s@.len(),
        r is None ==> parse_tools_rest(s@, i as int, tools_view(acc@)) is None,
    decreases s@.len() - i,
{
    let n = s.unicode_len();
    let w = ws_end_exec(s, i);
    if w >= n {
        return None;
    }
    let c = s.get_char(w);
    if c == ']' {
        return Some((acc, w + 1));
    }
    if c != '{' {
        return None;
    }
    let f0 = ToolFields { name: None, description: None, discriminator: None, params: None, required: None };
    assert(f0@ == empty_tool_fields());
    match parse_tool_rest_exec(s, w + 1, f0) {
        Some((t, j)) => {
            let mut acc2 = acc;
            acc2.push(t);
            proof {
                assert(tools_view(acc2@) =~= tools_view(acc@).push(t@));
            }
            let w2 = ws_end_exec(s, j);
            if w2 < n && s.get_char(w2) == ',' {
                parse_tools_rest_exec(s, w2 + 1, acc2)
            } else if w2 < n && s.get_char(w2) == ']' {
                Some((acc2, w2 + 1))
            } else {
                None
            }
        },
        None => None,
    }
}

/// Accumulated fields of the schema object while parsing.
pub struct SchemaFields {
    pub version: Option<String>,
    pub name: Option<String>,
    pub tools: Option<Vec<ParsedTool>>,
    pub next_cursor: Option<Option<String>>,
}

impl View for SchemaFields {
    type V = SchemaFieldsV;

    open spec fn view(&self) -> SchemaFieldsV {
        SchemaFieldsV {
            version: crate::schema::opt_view(self.version),
            name: crate::schema::opt_view(self.name),
            tools: match self.tools {
                Some(t) => Some(tools_view(t@)),
                None => None,
            },
            next_cursor: match self.next_cursor {
                Some(o) => Some(crate::schema::opt_view(o)),
                None => None,
            },
        }
    }
}

/// Parse one member of the schema object.
fn parse_schema_member_exec(s: &str, p: usize, k: &str, acc: SchemaFields) -> (r: Option<
    (SchemaFields, usize),
>)
    requires
        p <= s@.len(),
    ensures
        r matches Some((a, j)) ==> parse_schema_member(s@, p as int, k@, acc@) == Some(
            (a@, j as int),
        ) && p < j <= s@.len(),
        r is None ==> parse_schema_member(s@, p as int, k@, acc@) is None,
{
    let n = s.unicode_len();
    if str_eq(k, "v") {
        if acc.version.is_some() {
            return None;
        }
        match parse_jval_exec(s, p) {
            Some((JVal::S(t), j)) => Some((SchemaFields { version: Some(t), ..acc }, j)),
            _ => None,
        }
    } else if str_eq(k, "name") {
        if acc.name.is_some() {
            return None;
        }
        match parse_jval_exec(s, p) {
            Some((JVal::S(t), j)) => Some((SchemaFields { name: Some(t), ..acc }, j)),
            _ => None,
        }
    } else if str_eq(k, "tools") {
        if acc.tools.is_some() {
            return None;
        }
        let w = ws_end_exec(s, p);
        if w < n && s.get_char(w) == '[' {
            let t0: Vec<ParsedTool> = Vec::new();
            proof {
                assert(tools_view(t0@) =~= Seq::<ParsedToolV>::empty());
            }
            match parse_tools_rest_exec(s, w + 1, t0) {
                Some((t, j)) => Some((SchemaFields { tools: Some(t), ..acc }, j)),
                None => None,
            }
        } else {
            None
        }
    } else if str_eq(k, "nextCursor") {
        if acc.next_cursor.is_some() {
            return None;
        }
        match parse_jval_exec(s, p) {
            Some((JVal::S(t), j)) => Some((SchemaFields { next_cursor: Some(Some(t)), ..acc }, j)),
            Some((JVal::Null, j)) => Some((SchemaFields { next_cursor: Some(None), ..acc }, j)),
            _ => None,
        }
    } else {
        match parse_jval_exec(s, p) {
            Some((_v, j)) => Some((acc, j)),
            None => None,
        }
    }
}

/// Turn a finished accumulator into a schema, if its owed fields are present.
fn finish_schema_exec(acc: SchemaFields) -> (r: Option<ParsedSchema>)
    ensures
        r matches Some(v) ==> finish_schema(acc@) == Some(v@),
        r is None ==> finish_schema(acc@) is None,
{
    let SchemaFields { version, name, tools, next_cursor } = acc;
    match (version, name, tools) {
        (Some(v), Some(nm), Some(t)) => {
            let out = ParsedSchema {
                version: v,
                name: nm,
                tools: t,
                next_cursor: match next_cursor {
                    Some(o) => o,
                    None => None,
                },
            };
            proof {
                assert(out@.tools =~= match finish_schema(acc@) {
                    Some(fs) => fs.tools,
                    None => Seq::empty(),
                });
            }
            Some(out)
        },
        _ => None,
    }
}

/// Parse the members of the schema object.
fn parse_schema_rest_exec(s: &str, i: usize, acc: SchemaFields) -> (r: Option<
    (ParsedSchema, usize),
>)
    requires
        i <= s@.len(),
    ensures
        r matches Some((v, j)) ==> parse_schema_rest(s@, i as int, acc@) == Some((v@, j as int))
            && i < j <= s@.len(),
        r is None ==> parse_schema_rest(s@, i as int, acc@) is None,
    decreases s@.len() - i,
{
    let n = s.unicode_len();
    let w = ws_end_exec(s, i);
    if w >= n {
        return None;
    }
    let c = s.get_char(w);
    if c == '}' {
        return match finish_schema_exec(acc) {
            Some(v) => Some((v, w + 1)),
            None => None,
        };
    }
    if c != '"' {
        return None;
    }
    match parse_str_body_exec(s, w + 1) {
        Some((k, j)) => {
            let w2 = ws_end_exec(s, j);
            if w2 < n && s.get_char(w2) == ':' {
                match parse_schema_member_exec(s, w2 + 1, k.as_str(), acc) {
                    Some((acc2, j2)) => {
                        let w3 = ws_end_exec(s, j2);
                        if w3 < n && s.get_char(w3) == ',' {
                            parse_schema_rest_exec(s, w3 + 1, acc2)
                        } else if w3 < n && s.get_char(w3) == '}' {
                            match finish_schema_exec(acc2) {
                                Some(v) => Some((v, w3 + 1)),
                                None => None,
                            }
                        } else {
                            None
                        }
                    },
                    None => None,
                }
            } else {
                None
            }
        },
        None => None,
    }
}

/// Parse a whole schema document.
pub fn parse_schema_doc_exec(s: &str) -> (r: Option<ParsedSchema>)
    ensures
        r matches Some(v) ==> parse_schema_doc(s@) == Some(v@),
        r is None ==> parse_schema_doc(s@) is None,
{
    let n = s.unicode_len();
    let w = ws_end_exec(s, 0);
    if w >= n || s.get_char(w) != '{' {
        return None;
    }
    let f0 = SchemaFields { version: None, name: None, tools: None, next_cursor: None };
    assert(f0@ == empty_schema_fields());
    match parse_schema_rest_exec(s, w + 1, f0) {
        Some((v, j)) => {
            let e = ws_end_exec(s, j);
            if e == n {
                Some(v)
            } else {
                None
            }
        },
        None => None,
    }
}

} // verus!
