//! Client-side view of a schema: parsed documents and the accessor contract
//! that reads a tool's raw parameter map in either wire shape.

use vstd::prelude::*;
use crate::schema::opt_view;
use crate::strutil::{has_suffix, str_ends_with, str_eq};

verus! {

/// Errors from decoding a schema or building a call.
#[derive(Debug)]
pub enum McpClientError {
    /// Transport failure, reported by the collaborator that carried the call
    Rpc(String),
    /// Malformed schema document
    ParseSchema(String),
    /// No tool of the requested name
    ToolNotFound(String),
    /// A required parameter was not supplied
    MissingParam(String),
    /// An account address did not parse
    InvalidPubkey(String),
    /// A scalar argument did not parse under its declared type
    InvalidArg(String),
    /// The collaborator returned no data
    NoReturnData,
}

impl McpClientError {
    /// A short description of the error, with the offending name.
    pub fn message(&self) -> (r: String) {
        let mut out = String::new();
        match self {
            McpClientError::Rpc(s) => {
                out.append("RPC error: ");
                out.append(s.as_str());
            },
            McpClientError::ParseSchema(s) => {
                out.append("Failed to parse schema: ");
                out.append(s.as_str());
            },
            McpClientError::ToolNotFound(s) => {
                out.append("Tool not found: ");
                out.append(s.as_str());
            },
            McpClientError::MissingParam(s) => {
                out.append("Missing required parameter: ");
                out.append(s.as_str());
            },
            McpClientError::InvalidPubkey(s) => {
                out.append("Invalid pubkey: ");
                out.append(s.as_str());
            },
            McpClientError::InvalidArg(s) => {
                out.append("Invalid argument value: ");
                out.append(s.as_str());
            },
            McpClientError::NoReturnData => {
                out.append("No return data from program");
            },
        }
        out
    }
}

/// Spec-level shape of a verbose parameter object: the fields the accessors
/// read, each present only when the document carried it with the right type.
pub struct ParamDetailV {
    pub ty: Option<Seq<char>>,
    pub signer: Option<bool>,
    pub writable: Option<bool>,
    pub description: Option<Seq<char>>,
}

/// A verbose parameter object: the fields the accessors read.
pub struct ParamDetail {
    /// The `type` field, when it is a string
    pub ty: Option<String>,
    /// The `signer` field, when it is a boolean
    pub signer: Option<bool>,
    /// The `writable` field, when it is a boolean
    pub writable: Option<bool>,
    /// The `description` field, when it is a string
    pub description: Option<String>,
}

impl View for ParamDetail {
    type V = ParamDetailV;

    open spec fn view(&self) -> ParamDetailV {
        ParamDetailV {
            ty: opt_view(self.ty),
            signer: self.signer,
            writable: self.writable,
            description: opt_view(self.description),
        }
    }
}

/// Spec-level raw parameter value.
pub enum ParamValueV {
    TypeName(Seq<char>),
    Detail(ParamDetailV),
    Other,
}

/// A raw parameter value: a compact type string, a verbose object, or any
/// other JSON value (kept opaque).
pub enum ParamValue {
    /// Compact form: the value is a bare type string
    TypeName(String),
    /// Verbose form: the value is an object
    Detail(ParamDetail),
    /// Any other JSON value
    Other,
}

impl View for ParamValue {
    type V = ParamValueV;

    open spec fn view(&self) -> ParamValueV {
        match self {
            ParamValue::TypeName(t) => ParamValueV::TypeName(t@),
            ParamValue::Detail(d) => ParamValueV::Detail(d@),
            ParamValue::Other => ParamValueV::Other,
        }
    }
}

/// Spec-level parsed tool.
pub struct ParsedToolV {
    pub name: Seq<char>,
    pub description: Option<Seq<char>>,
    pub discriminator: Seq<char>,
    pub params: Seq<(Seq<char>, ParamValueV)>,
    pub required: Seq<Seq<char>>,
}

/// A tool decoded from either wire shape.
pub struct ParsedTool {
    /// Tool name (`name` or `n`)
    pub name: String,
    /// Tool description (`description` or `i`)
    pub description: Option<String>,
    /// Discriminator hex string (`discriminator` or `d`)
    pub discriminator: String,
    /// Raw parameter map (`params`, `p` or `parameters`), insertion order
    /// preserved
    pub params: Vec<(String, ParamValue)>,
    /// Explicit required keys (`required` or `r`; compact form only)
    pub required: Vec<String>,
}

impl View for ParsedTool {
    type V = ParsedToolV;

    open spec fn view(&self) -> ParsedToolV {
        ParsedToolV {
            name: self.name@,
            description: opt_view(self.description),
            discriminator: self.discriminator@,
            params: Seq::new(
                self.params@.len(),
                |i: int| (self.params@[i].0@, self.params@[i].1@),
            ),
            required: Seq::new(self.required@.len(), |i: int| self.required@[i]@),
        }
    }
}

/// Spec-level parsed schema.
pub struct ParsedSchemaV {
    pub version: Seq<char>,
    pub name: Seq<char>,
    pub tools: Seq<ParsedToolV>,
    pub next_cursor: Option<Seq<char>>,
}

/// A schema document decoded from either wire shape.
pub struct ParsedSchema {
    /// Protocol version (`v`)
    pub version: String,
    /// Program name
    pub name: String,
    /// Decoded tools
    pub tools: Vec<ParsedTool>,
    /// Pagination cursor (`nextCursor`); absent on the last page and in the
    /// compact form
    pub next_cursor: Option<String>,
}

impl View for ParsedSchema {
    type V = ParsedSchemaV;

    open spec fn view(&self) -> ParsedSchemaV {
        ParsedSchemaV {
            version: self.version@,
            name: self.name@,
            tools: Seq::new(self.tools@.len(), |i: int| self.tools@[i]@),
            next_cursor: opt_view(self.next_cursor),
        }
    }
}

/// The value under a key in a raw parameter map: the first entry with that
/// key, as the decoder stores at most one entry per key.
pub open spec fn lookup(params: Seq<(Seq<char>, ParamValueV)>, name: Seq<char>) -> Option<
    ParamValueV,
> {
    let i = crate::decode::find_key(params, name);
    if i < 0 {
        None
    } else {
        Some(params[i].1)
    }
}

/// The parameter is an account: its raw value is the string `"pubkey"`, or
/// an object whose `type` is `"pubkey"`.
pub open spec fn is_account_spec(t: ParsedToolV, name: Seq<char>) -> bool {
    match lookup(t.params, name) {
        Some(ParamValueV::TypeName(s)) => s == "pubkey"@,
        Some(ParamValueV::Detail(d)) => d.ty == Some("pubkey"@),
        _ => false,
    }
}

/// The parameter is a signer: its key carries a `_s`/`_sw` suffix (compact
/// form), or its object has `signer: true` (verbose form).
pub open spec fn is_signer_spec(t: ParsedToolV, name: Seq<char>) -> bool {
    ||| has_suffix(name, "_s"@)
    ||| has_suffix(name, "_sw"@)
    ||| (match lookup(t.params, name) {
        Some(ParamValueV::Detail(d)) => d.signer == Some(true),
        _ => false,
    })
}

/// The parameter is writable: its key carries a `_w`/`_sw` suffix (compact
/// form), or its object has `writable: true` (verbose form).
pub open spec fn is_writable_spec(t: ParsedToolV, name: Seq<char>) -> bool {
    ||| has_suffix(name, "_w"@)
    ||| has_suffix(name, "_sw"@)
    ||| (match lookup(t.params, name) {
        Some(ParamValueV::Detail(d)) => d.writable == Some(true),
        _ => false,
    })
}

/// The declared type of a parameter: the raw string value (compact) or the
/// object's `type` field (verbose).
pub open spec fn param_type_spec(t: ParsedToolV, name: Seq<char>) -> Option<Seq<char>> {
    match lookup(t.params, name) {
        Some(ParamValueV::TypeName(s)) => Some(s),
        Some(ParamValueV::Detail(d)) => d.ty,
        _ => None,
    }
}

/// The description of a parameter (verbose form only).
pub open spec fn param_description_spec(t: ParsedToolV, name: Seq<char>) -> Option<Seq<char>> {
    match lookup(t.params, name) {
        Some(ParamValueV::Detail(d)) => d.description,
        _ => None,
    }
}

/// Strip every trailing copy of `p` from `s`.
pub open spec fn strip_all(s: Seq<char>, p: Seq<char>) -> Seq<char>
    decreases s.len(),
{
    if p.len() > 0 && has_suffix(s, p) {
        strip_all(s.take(s.len() - p.len()), p)
    } else {
        s
    }
}

/// The base name of a parameter key: trailing suffixes stripped, `_sw`
/// before `_s` and `_w` so the longest match wins.
pub open spec fn base_name_spec(s: Seq<char>) -> Seq<char> {
    strip_all(strip_all(strip_all(s, "_sw"@), "_s"@), "_w"@)
}

/// The required parameter keys of a tool: the explicit required array when
/// it is non-empty (compact form), else every key of the parameter map in
/// order (verbose form).
pub open spec fn required_params_spec(t: ParsedToolV) -> Seq<Seq<char>> {
    if t.required.len() > 0 {
        t.required
    } else {
        t.params.map_values(|p: (Seq<char>, ParamValueV)| p.0)
    }
}

/// Strip every trailing copy of `p` from `s`.
pub fn strip_suffix_all<'a>(s: &'a str, p: &str) -> (r: &'a str)
    ensures
        r@ == strip_all(s@, p@),
{
    let np = p.unicode_len();
    let mut t = s;
    loop
        invariant
            np == p@.len(),
            strip_all(s@, p@) == strip_all(t@, p@),
        decreases t@.len(),
    {
        let nt = t.unicode_len();
        if np > 0 && str_ends_with(t, p) && np <= nt {
            t = t.substring_char(0, nt - np);
        } else {
            return t;
        }
    }
}

impl ParsedTool {
    /// Get the raw value under a parameter key, if the map holds one.
    pub fn get_param(&self, name: &str) -> (r: Option<&ParamValue>)
        ensures
            r matches Some(v) ==> lookup(self@.params, name@) == Some(v@),
            r is None ==> lookup(self@.params, name@) is None,
    {
        let ghost pv = self@.params;
        let n = self.params.len();
        let mut i: usize = 0;
        while i < n
            invariant
                n == self.params@.len(),
                pv == self@.params,
                pv.len() == n,
                i <= n,
                forall|m: int| 0 <= m < i ==> (#[trigger] pv[m]).0 != name@,
            decreases n - i,
        {
            if str_eq(self.params[i].0.as_str(), name) {
                proof {
                    crate::decode::lemma_find_key(pv, name@);
                    assert(pv[i as int].0 == name@);
                    assert(crate::decode::find_key(pv, name@) == i);
                }
                return Some(&self.params[i].1);
            }
            i = i + 1;
        }
        proof {
            crate::decode::lemma_find_key(pv, name@);
        }
        None
    }

    /// Decode the discriminator hex string to its first 8 bytes.
    ///
    /// Fails exactly when the string is not hexadecimal or decodes to fewer
    /// than 8 bytes.
    pub fn discriminator_bytes(&self) -> (r: Result<[u8; 8], McpClientError>)
        ensures
            r is Ok <==> crate::hex::is_hex_string(self@.discriminator)
                && self@.discriminator.len() >= 16,
            r matches Ok(b) ==> b@ == crate::hex::hex_bytes(self@.discriminator).take(8),
            r matches Err(e) ==> e matches McpClientError::ParseSchema(_),
    {
        let decoded = match crate::hex::decode(self.discriminator.as_str()) {
            Ok(v) => v,
            Err(_) => {
                let mut m = String::from_str("invalid discriminator hex: ");
                m.append(self.discriminator.as_str());
                return Err(McpClientError::ParseSchema(m));
            },
        };
        if decoded.len() < 8 {
            let mut m = String::from_str("discriminator too short: ");
            m.append(self.discriminator.as_str());
            return Err(McpClientError::ParseSchema(m));
        }
        let bytes = [
            decoded[0],
            decoded[1],
            decoded[2],
            decoded[3],
            decoded[4],
            decoded[5],
            decoded[6],
            decoded[7],
        ];
        assert(bytes@ =~= crate::hex::hex_bytes(self@.discriminator).take(8));
        Ok(bytes)
    }

    /// Whether a parameter is an account (`pubkey` type) in either form.
    pub fn is_account(&self, name: &str) -> (r: bool)
        ensures
            r == is_account_spec(self@, name@),
    {
        match self.get_param(name) {
            Some(ParamValue::TypeName(t)) => str_eq(t.as_str(), "pubkey"),
            Some(ParamValue::Detail(d)) => match &d.ty {
                Some(t) => str_eq(t.as_str(), "pubkey"),
                None => false,
            },
            _ => false,
        }
    }

    /// Whether an account must sign, in either form.
    pub fn is_signer(&self, name: &str) -> (r: bool)
        ensures
            r == is_signer_spec(self@, name@),
    {
        if str_ends_with(name, "_s") || str_ends_with(name, "_sw") {
            return true;
        }
        match self.get_param(name) {
            Some(ParamValue::Detail(d)) => match d.signer {
                Some(b) => b,
                None => false,
            },
            _ => false,
        }
    }

    /// Whether an account is writable, in either form.
    pub fn is_writable(&self, name: &str) -> (r: bool)
        ensures
            r == is_writable_spec(self@, name@),
    {
        if str_ends_with(name, "_w") || str_ends_with(name, "_sw") {
            return true;
        }
        match self.get_param(name) {
            Some(ParamValue::Detail(d)) => match d.writable {
                Some(b) => b,
                None => false,
            },
            _ => false,
        }
    }

    /// The declared type string of a parameter, in either form.
    pub fn get_param_type(&self, name: &str) -> (r: Option<&str>)
        ensures
            r matches Some(t) ==> param_type_spec(self@, name@) == Some(t@),
            r is None ==> param_type_spec(self@, name@) is None,
    {
        match self.get_param(name) {
            Some(ParamValue::TypeName(t)) => Some(t.as_str()),
            Some(ParamValue::Detail(d)) => match &d.ty {
                Some(t) => Some(t.as_str()),
                None => None,
            },
            _ => None,
        }
    }

    /// The description of a parameter (verbose form only).
    pub fn get_param_description(&self, name: &str) -> (r: Option<&str>)
        ensures
            r matches Some(t) ==> param_description_spec(self@, name@) == Some(t@),
            r is None ==> param_description_spec(self@, name@) is None,
    {
        match self.get_param(name) {
            Some(ParamValue::Detail(d)) => match &d.description {
                Some(t) => Some(t.as_str()),
                None => None,
            },
            _ => None,
        }
    }

    /// Strip the compact-form suffixes from a parameter key, longest first.
    pub fn base_name<'a>(name: &'a str) -> (r: &'a str)
        ensures
            r@ == base_name_spec(name@),
    {
        let a = strip_suffix_all(name, "_sw");
        let b = strip_suffix_all(a, "_s");
        strip_suffix_all(b, "_w")
    }

    /// All parameter keys, in map order.
    pub fn param_names(&self) -> (r: Vec<&String>)
        ensures
            r@.len() == self@.params.len(),
            forall|i: int| 0 <= i < r@.len() ==> (#[trigger] r@[i])@ == self@.params[i].0,
    {
        let n = self.params.len();
        let mut out: Vec<&String> = Vec::new();
        let mut i: usize = 0;
        while i < n
            invariant
                n == self.params@.len(),
                i <= n,
                out@.len() == i,
                forall|m: int| 0 <= m < i ==> (#[trigger] out@[m])@ == self@.params[m].0,
            decreases n - i,
        {
            out.push(&self.params[i].0);
            i = i + 1;
        }
        out
    }

    /// The required parameter keys: the explicit array when present, else
    /// every key of the map, in order.
    pub fn required_params(&self) -> (r: Vec<&str>)
        ensures
            r@.len() == required_params_spec(self@).len(),
            forall|i: int| 0 <= i < r@.len() ==> (#[trigger] r@[i])@ == required_params_spec(
                self@,
            )[i],
    {
        let mut out: Vec<&str> = Vec::new();
        if self.required.len() > 0 {
            let n = self.required.len();
            let mut i: usize = 0;
            while i < n
                invariant
                    n == self.required@.len(),
                    i <= n,
                    out@.len() == i,
                    forall|m: int| 0 <= m < i ==> (#[trigger] out@[m])@ == self@.required[m],
                decreases n - i,
            {
                out.push(self.required[i].as_str());
                i = i + 1;
            }
            out
        } else {
            let n = self.params.len();
            let mut i: usize = 0;
            while i < n
                invariant
                    n == self.params@.len(),
                    i <= n,
                    out@.len() == i,
                    forall|m: int| 0 <= m < i ==> (#[trigger] out@[m])@ == self@.params[m].0,
                decreases n - i,
            {
                out.push(self.params[i].0.as_str());
                i = i + 1;
            }
            out
        }
    }
}

/// Decode a schema document in either wire shape.
///
/// Returns `Ok` exactly when the text parses under the schema grammar, and
/// then the parsed value it stands for; every failure is a `ParseSchema`
/// error.
pub fn parse_schema(text: &str) -> (r: Result<ParsedSchema, McpClientError>)
    ensures
        r is Ok <==> crate::decode::parse_schema_doc(text@) is Some,
        r matches Ok(v) ==> crate::decode::parse_schema_doc(text@) == Some(v@),
        r matches Err(e) ==> e matches McpClientError::ParseSchema(_),
{
    match crate::decode::parse_schema_doc_exec(text) {
        Some(v) => Ok(v),
        None => Err(
            McpClientError::ParseSchema(String::from_str("malformed schema document")),
        ),
    }
}

} // verus!
