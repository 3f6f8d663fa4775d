//! Schema data model: a catalog of tools with their accounts and arguments.
//!
//! A schema is assembled once through the builders and treated as read-only
//! afterwards.  Each tool's discriminator is derived from its name and never
//! independently settable, so a built schema is well formed by construction.

use vstd::prelude::*;
use crate::discriminator::{instruction_discriminator, instruction_disc_of};
use crate::strutil::{str_eq, str_contains, str_starts_with, contains_seq, has_prefix};

verus! {

/// Mathematical model of an account entry.
pub struct AccountMetaV {
    pub name: Seq<char>,
    pub description: Option<Seq<char>>,
    pub is_signer: bool,
    pub is_writable: bool,
}

/// Mathematical model of an argument entry.
pub struct ArgV {
    pub name: Seq<char>,
    pub description: Option<Seq<char>>,
    pub arg_type: ArgType,
}

/// Mathematical model of a tool.
pub struct ToolV {
    pub name: Seq<char>,
    pub description: Option<Seq<char>>,
    pub discriminator: Seq<u8>,
    pub accounts: Seq<AccountMetaV>,
    pub args: Seq<ArgV>,
}

/// Mathematical model of a schema.
pub struct SchemaV {
    pub name: Seq<char>,
    pub tools: Seq<ToolV>,
}

/// A tool is well formed when its discriminator is the 8-byte value derived
/// from its name.
pub open spec fn tool_wf(t: ToolV) -> bool {
    t.discriminator.len() == 8 && t.discriminator == instruction_disc_of(t.name)
}

/// A schema is well formed when every tool is.
pub open spec fn schema_wf(s: SchemaV) -> bool {
    forall|i: int| 0 <= i < s.tools.len() ==> tool_wf(#[trigger] s.tools[i])
}

/// View of an optional descriptive string.
pub open spec fn opt_view(o: Option<String>) -> Option<Seq<char>> {
    match o {
        Option::Some(s) => Option::Some(s@),
        Option::None => Option::None,
    }
}

/// A complete program schema: a name and an ordered list of tools.
pub struct McpSchema {
    /// Program name
    pub name: String,
    /// Available tools, in declaration order
    pub tools: Vec<McpTool>,
}

/// One tool: a remotely invokable operation description.
pub struct McpTool {
    /// Tool name
    pub name: String,
    /// Human-readable description
    pub description: Option<String>,
    /// 8-byte discriminator derived from the name
    pub discriminator: [u8; 8],
    /// Required accounts, in positional order
    pub accounts: Vec<McpAccountMeta>,
    /// Arguments serialized after the discriminator, in positional order
    pub args: Vec<McpArg>,
}

/// Account metadata for a tool.
pub struct McpAccountMeta {
    /// Account name
    pub name: String,
    /// Human-readable description
    pub description: Option<String>,
    /// Whether this account must sign the transaction
    pub is_signer: bool,
    /// Whether this account's data is modified
    pub is_writable: bool,
}

/// Argument definition for a tool.
pub struct McpArg {
    /// Argument name
    pub name: String,
    /// Human-readable description
    pub description: Option<String>,
    /// Argument type, which fixes the binary encoding
    pub arg_type: ArgType,
}

/// Supported argument types for instruction parameters.
#[derive(Clone, Copy, Debug, PartialEq, Eq, Structural)]
pub enum ArgType {
    /// Unsigned 8-bit integer
    U8,
    /// Unsigned 16-bit integer
    U16,
    /// Unsigned 32-bit integer
    U32,
    /// Unsigned 64-bit integer
    U64,
    /// Unsigned 128-bit integer
    U128,
    /// Signed 8-bit integer
    I8,
    /// Signed 16-bit integer
    I16,
    /// Signed 32-bit integer
    I32,
    /// Signed 64-bit integer
    I64,
    /// Signed 128-bit integer
    I128,
    /// Boolean value
    Bool,
    /// 32-byte public key
    Pubkey,
    /// Variable-length string with a 4-byte length prefix
    String,
    /// Variable-length bytes with a 4-byte length prefix
    Bytes,
}

impl View for McpAccountMeta {
    type V = AccountMetaV;

    open spec fn view(&self) -> AccountMetaV {
        AccountMetaV {
            name: self.name@,
            description: opt_view(self.description),
            is_signer: self.is_signer,
            is_writable: self.is_writable,
        }
    }
}

impl View for McpArg {
    type V = ArgV;

    open spec fn view(&self) -> ArgV {
        ArgV {
            name: self.name@,
            description: opt_view(self.description),
            arg_type: self.arg_type,
        }
    }
}

impl View for McpTool {
    type V = ToolV;

    open spec fn view(&self) -> ToolV {
        ToolV {
            name: self.name@,
            description: opt_view(self.description),
            discriminator: self.discriminator@,
            accounts: Seq::new(self.accounts@.len(), |i: int| self.accounts@[i]@),
            args: Seq::new(self.args@.len(), |i: int| self.args@[i]@),
        }
    }
}

impl View for McpSchema {
    type V = SchemaV;

    open spec fn view(&self) -> SchemaV {
        SchemaV { name: self.name@, tools: Seq::new(self.tools@.len(), |i: int| self.tools@[i]@) }
    }
}

/// The compact-format key suffix for a signer/writable pair.
pub open spec fn suffix_spec(is_signer: bool, is_writable: bool) -> Seq<char> {
    if is_signer && is_writable {
        "_sw"@
    } else if is_signer {
        "_s"@
    } else if is_writable {
        "_w"@
    } else {
        ""@
    }
}

impl McpAccountMeta {
    /// Get the suffix for the compact schema format:
    /// `_s` = signer, `_w` = writable, `_sw` = both.
    pub fn suffix(&self) -> (r: &'static str)
        ensures
            r@ == suffix_spec(self.is_signer, self.is_writable),
    {
        if self.is_signer && self.is_writable {
            "_sw"
        } else if self.is_signer {
            "_s"
        } else if self.is_writable {
            "_w"
        } else {
            ""
        }
    }
}

/// The literal lowercase type token of an argument type.
pub open spec fn compact_name_spec(t: ArgType) -> Seq<char> {
    match t {
        ArgType::U8 => "u8"@,
        ArgType::U16 => "u16"@,
        ArgType::U32 => "u32"@,
        ArgType::U64 => "u64"@,
        ArgType::U128 => "u128"@,
        ArgType::I8 => "i8"@,
        ArgType::I16 => "i16"@,
        ArgType::I32 => "i32"@,
        ArgType::I64 => "i64"@,
        ArgType::I128 => "i128"@,
        ArgType::Bool => "bool"@,
        ArgType::Pubkey => "pubkey"@,
        ArgType::String => "str"@,
        ArgType::Bytes => "bytes"@,
    }
}

/// The argument type a Rust type string maps to.
pub open spec fn from_rust_type_spec(t: Seq<char>) -> ArgType {
    if t == "u8"@ {
        ArgType::U8
    } else if t == "u16"@ {
        ArgType::U16
    } else if t == "u32"@ {
        ArgType::U32
    } else if t == "u64"@ {
        ArgType::U64
    } else if t == "u128"@ {
        ArgType::U128
    } else if t == "i8"@ {
        ArgType::I8
    } else if t == "i16"@ {
        ArgType::I16
    } else if t == "i32"@ {
        ArgType::I32
    } else if t == "i64"@ {
        ArgType::I64
    } else if t == "i128"@ {
        ArgType::I128
    } else if t == "bool"@ {
        ArgType::Bool
    } else if contains_seq(t, "Pubkey"@) {
        ArgType::Pubkey
    } else if has_prefix(t, "Vec<u8>"@) || has_prefix(t, "[u8;"@) {
        ArgType::Bytes
    } else {
        ArgType::String
    }
}

impl ArgType {
    /// Get the compact type name for the schema.
    pub fn compact_name(&self) -> (r: &'static str)
        ensures
            r@ == compact_name_spec(*self),
    {
        match self {
            ArgType::U8 => "u8",
            ArgType::U16 => "u16",
            ArgType::U32 => "u32",
            ArgType::U64 => "u64",
            ArgType::U128 => "u128",
            ArgType::I8 => "i8",
            ArgType::I16 => "i16",
            ArgType::I32 => "i32",
            ArgType::I64 => "i64",
            ArgType::I128 => "i128",
            ArgType::Bool => "bool",
            ArgType::Pubkey => "pubkey",
            ArgType::String => "str",
            ArgType::Bytes => "bytes",
        }
    }

    /// Parse an argument type from a Rust type string.
    pub fn from_rust_type(ty: &str) -> (r: Self)
        ensures
            r == from_rust_type_spec(ty@),
    {
        if str_eq(ty, "u8") {
            ArgType::U8
        } else if str_eq(ty, "u16") {
            ArgType::U16
        } else if str_eq(ty, "u32") {
            ArgType::U32
        } else if str_eq(ty, "u64") {
            ArgType::U64
        } else if str_eq(ty, "u128") {
            ArgType::U128
        } else if str_eq(ty, "i8") {
            ArgType::I8
        } else if str_eq(ty, "i16") {
            ArgType::I16
        } else if str_eq(ty, "i32") {
            ArgType::I32
        } else if str_eq(ty, "i64") {
            ArgType::I64
        } else if str_eq(ty, "i128") {
            ArgType::I128
        } else if str_eq(ty, "bool") {
            ArgType::Bool
        } else if str_contains(ty, "Pubkey") {
            ArgType::Pubkey
        } else if str_starts_with(ty, "Vec<u8>") || str_starts_with(ty, "[u8;") {
            ArgType::Bytes
        } else {
            ArgType::String
        }
    }
}

/// Mathematical model of a schema builder's accumulated state.
pub struct SchemaBuilderV {
    pub name: Seq<char>,
    pub tools: Seq<ToolV>,
}

/// Builder for creating schemas programmatically.
pub struct McpSchemaBuilder {
    name: String,
    tools: Vec<McpTool>,
}

impl View for McpSchemaBuilder {
    type V = SchemaBuilderV;

    closed spec fn view(&self) -> SchemaBuilderV {
        SchemaBuilderV {
            name: self.name@,
            tools: Seq::new(self.tools@.len(), |i: int| self.tools@[i]@),
        }
    }
}

impl McpSchemaBuilder {
    /// Start a schema with the given program name and no tools.
    pub fn new(name: &str) -> (r: Self)
        ensures
            r@.name == name@,
            r@.tools.len() == 0,
    {
        let r = McpSchemaBuilder { name: String::from_str(name), tools: Vec::new() };
        assert(r@.tools =~= Seq::<ToolV>::empty());
        r
    }

    /// Append one tool to the catalog.
    pub fn add_tool(self, tool: McpTool) -> (r: Self)
        ensures
            r@.name == self@.name,
            r@.tools == self@.tools.push(tool@),
    {
        let mut s = self;
        s.tools.push(tool);
        assert(s@.tools =~= old_self_tools_push(self@.tools, tool@));
        s
    }

    /// Finish building: the schema holds exactly the added tools, in order.
    pub fn build(self) -> (r: McpSchema)
        ensures
            r@.name == self@.name,
            r@.tools == self@.tools,
    {
        McpSchema { name: self.name, tools: self.tools }
    }
}

/// The sequence `tools` with `t` appended; spelled out so proofs can name it.
pub open spec fn old_self_tools_push(tools: Seq<ToolV>, t: ToolV) -> Seq<ToolV> {
    tools.push(t)
}

/// Mathematical model of a tool builder's accumulated state.
pub struct ToolBuilderV {
    pub name: Seq<char>,
    pub description: Option<Seq<char>>,
    pub accounts: Seq<AccountMetaV>,
    pub args: Seq<ArgV>,
}

/// Builder for creating tools.
pub struct McpToolBuilder {
    name: String,
    description: Option<String>,
    accounts: Vec<McpAccountMeta>,
    args: Vec<McpArg>,
}

impl View for McpToolBuilder {
    type V = ToolBuilderV;

    closed spec fn view(&self) -> ToolBuilderV {
        ToolBuilderV {
            name: self.name@,
            description: opt_view(self.description),
            accounts: Seq::new(self.accounts@.len(), |i: int| self.accounts@[i]@),
            args: Seq::new(self.args@.len(), |i: int| self.args@[i]@),
        }
    }
}

impl McpToolBuilder {
    /// Start a tool with the given name and no accounts or arguments.
    pub fn new(name: &str) -> (r: Self)
        ensures
            r@.name == name@,
            r@.description is None,
            r@.accounts.len() == 0,
            r@.args.len() == 0,
    {
        McpToolBuilder {
            name: String::from_str(name),
            description: None,
            accounts: Vec::new(),
            args: Vec::new(),
        }
    }

    /// Set the tool's description.
    pub fn description(self, desc: &str) -> (r: Self)
        ensures
            r@ == (ToolBuilderV { description: Some(desc@), ..self@ }),
    {
        let mut s = self;
        s.description = Some(String::from_str(desc));
        assert(r_eq_with_desc(s@, self@, desc@)) by {
            assert(s@.accounts =~= self@.accounts);
            assert(s@.args =~= self@.args);
        }
        s
    }

    /// Append an account without a description.
    pub fn account(self, name: &str, is_signer: bool, is_writable: bool) -> (r: Self)
        ensures
            r@ == (ToolBuilderV {
                accounts: self@.accounts.push(
                    AccountMetaV { name: name@, description: None, is_signer, is_writable },
                ),
                ..self@
            }),
    {
        let mut s = self;
        s.accounts.push(
            McpAccountMeta {
                name: String::from_str(name),
                description: None,
                is_signer,
                is_writable,
            },
        );
        assert(s@.accounts =~= self@.accounts.push(
            AccountMetaV { name: name@, description: None, is_signer, is_writable },
        ));
        assert(s@.args =~= self@.args);
        s
    }

    /// Append an account with a description.
    pub fn account_with_desc(self, name: &str, desc: &str, is_signer: bool, is_writable: bool) -> (r:
        Self)
        ensures
            r@ == (ToolBuilderV {
                accounts: self@.accounts.push(
                    AccountMetaV { name: name@, description: Some(desc@), is_signer, is_writable },
                ),
                ..self@
            }),
    {
        let mut s = self;
        s.accounts.push(
            McpAccountMeta {
                name: String::from_str(name),
                description: Some(String::from_str(desc)),
                is_signer,
                is_writable,
            },
        );
        assert(s@.accounts =~= self@.accounts.push(
            AccountMetaV { name: name@, description: Some(desc@), is_signer, is_writable },
        ));
        assert(s@.args =~= self@.args);
        s
    }

    /// Append a signer account.
    pub fn signer(self, name: &str) -> (r: Self)
        ensures
            r@ == (ToolBuilderV {
                accounts: self@.accounts.push(
                    AccountMetaV {
                        name: name@,
                        description: None,
                        is_signer: true,
                        is_writable: false,
                    },
                ),
                ..self@
            }),
    {
        self.account(name, true, false)
    }

    /// Append a signer account with a description.
    pub fn signer_desc(self, name: &str, desc: &str) -> (r: Self)
        ensures
            r@ == (ToolBuilderV {
                accounts: self@.accounts.push(
                    AccountMetaV {
                        name: name@,
                        description: Some(desc@),
                        is_signer: true,
                        is_writable: false,
                    },
                ),
                ..self@
            }),
    {
        self.account_with_desc(name, desc, true, false)
    }

    /// Append a writable account.
    pub fn writable(self, name: &str) -> (r: Self)
        ensures
            r@ == (ToolBuilderV {
                accounts: self@.accounts.push(
                    AccountMetaV {
                        name: name@,
                        description: None,
                        is_signer: false,
                        is_writable: true,
                    },
                ),
                ..self@
            }),
    {
        self.account(name, false, true)
    }

    /// Append a writable account with a description.
    pub fn writable_desc(self, name: &str, desc: &str) -> (r: Self)
        ensures
            r@ == (ToolBuilderV {
                accounts: self@.accounts.push(
                    AccountMetaV {
                        name: name@,
                        description: Some(desc@),
                        is_signer: false,
                        is_writable: true,
                    },
                ),
                ..self@
            }),
    {
        self.account_with_desc(name, desc, false, true)
    }

    /// Append a signer-and-writable account.
    pub fn signer_writable(self, name: &str) -> (r: Self)
        ensures
            r@ == (ToolBuilderV {
                accounts: self@.accounts.push(
                    AccountMetaV {
                        name: name@,
                        description: None,
                        is_signer: true,
                        is_writable: true,
                    },
                ),
                ..self@
            }),
    {
        self.account(name, true, true)
    }

    /// Append a signer-and-writable account with a description.
    pub fn signer_writable_desc(self, name: &str, desc: &str) -> (r: Self)
        ensures
            r@ == (ToolBuilderV {
                accounts: self@.accounts.push(
                    AccountMetaV {
                        name: name@,
                        description: Some(desc@),
                        is_signer: true,
                        is_writable: true,
                    },
                ),
                ..self@
            }),
    {
        self.account_with_desc(name, desc, true, true)
    }

    /// Append an argument without a description.
    pub fn arg(self, name: &str, arg_type: ArgType) -> (r: Self)
        ensures
            r@ == (ToolBuilderV {
                args: self@.args.push(ArgV { name: name@, description: None, arg_type }),
                ..self@
            }),
    {
        let mut s = self;
        s.args.push(McpArg { name: String::from_str(name), description: None, arg_type });
        assert(s@.args =~= self@.args.push(ArgV { name: name@, description: None, arg_type }));
        assert(s@.accounts =~= self@.accounts);
        s
    }

    /// Append an argument with a description.
    pub fn arg_desc(self, name: &str, desc: &str, arg_type: ArgType) -> (r: Self)
        ensures
            r@ == (ToolBuilderV {
                args: self@.args.push(ArgV { name: name@, description: Some(desc@), arg_type }),
                ..self@
            }),
    {
        let mut s = self;
        s.args.push(
            McpArg {
                name: String::from_str(name),
                description: Some(String::from_str(desc)),
                arg_type,
            },
        );
        assert(s@.args =~= self@.args.push(
            ArgV { name: name@, description: Some(desc@), arg_type },
        ));
        assert(s@.accounts =~= self@.accounts);
        s
    }

    /// Finish building: the tool carries the accumulated fields, and its
    /// discriminator is derived from its name, so the tool is well formed.
    pub fn build(self) -> (r: McpTool)
        ensures
            r@.name == self@.name,
            r@.description == self@.description,
            r@.accounts == self@.accounts,
            r@.args == self@.args,
            tool_wf(r@),
    {
        let discriminator = instruction_discriminator(self.name.as_str());
        let r = McpTool {
            discriminator,
            name: self.name,
            description: self.description,
            accounts: self.accounts,
            args: self.args,
        };
        assert(r@.accounts =~= self@.accounts);
        assert(r@.args =~= self@.args);
        r
    }
}

/// The description update stated as one predicate, so the proof can assert it.
pub open spec fn r_eq_with_desc(r: ToolBuilderV, s: ToolBuilderV, desc: Seq<char>) -> bool {
    r == (ToolBuilderV { description: Some(desc), ..s })
}

/// Pre-computed paginated schema pages.
///
/// The serialized bytes of every page are computed once from a built schema;
/// `get_page` then returns a reference with no recomputation.  By contract,
/// each cached buffer is byte-identical to what the paginated encoder
/// produces for the same cursor.
pub struct CachedSchemaPages {
    pages: Vec<Vec<u8>>,
}

impl View for CachedSchemaPages {
    type V = Seq<Seq<u8>>;

    closed spec fn view(&self) -> Seq<Seq<u8>> {
        Seq::new(self.pages@.len(), |i: int| self.pages@[i]@)
    }
}

impl CachedSchemaPages {
    /// Create cached pages from a schema: one page per tool, at least one.
    ///
    /// Each page equals the paginated encoder's output for its cursor.  The
    /// wire cursor is one byte, so page indices wrap past 255; a schema
    /// meant to be fully addressable holds at most 256 tools.
    pub fn from_schema(schema: &McpSchema) -> (r: Self)
        ensures
            r@.len() == if schema@.tools.len() == 0 { 1int } else { schema@.tools.len() as int },
            forall|c: int|
                0 <= c < r@.len() ==> #[trigger] r@[c] == vstd::utf8::encode_utf8(
                    crate::json::page_json(schema@, c % 256),
                ),
    {
        let num_pages = if schema.tools.len() == 0 {
            1
        } else {
            schema.tools.len()
        };
        let mut pages: Vec<Vec<u8>> = Vec::new();
        let mut cursor: usize = 0;
        while cursor < num_pages
            invariant
                num_pages == if schema@.tools.len() == 0 { 1int } else { schema@.tools.len() as int },
                cursor <= num_pages,
                pages@.len() == cursor,
                forall|c: int|
                    0 <= c < cursor ==> #[trigger] pages@[c]@ == vstd::utf8::encode_utf8(
                        crate::json::page_json(schema@, c % 256),
                    ),
            decreases num_pages - cursor,
        {
            let cb = #[verifier::truncate] (cursor as u8);
            assert(cb as int == cursor as int % 256) by (bit_vector)
                requires
                    cb == cursor as u8,
            ;
            let page_bytes = crate::json::generate_paginated_schema_bytes(schema, cb);
            pages.push(page_bytes);
            cursor = cursor + 1;
        }
        let r = CachedSchemaPages { pages };
        assert(r@.len() == pages@.len());
        r
    }

    /// Get a cached page by cursor; an out-of-range cursor yields an empty
    /// buffer.
    pub fn get_page(&self, cursor: u8) -> (r: &[u8])
        ensures
            (cursor as int) < self@.len() ==> r@ == self@[cursor as int],
            (cursor as int) >= self@.len() ==> r@.len() == 0,
    {
        if (cursor as usize) < self.pages.len() {
            self.pages[cursor as usize].as_slice()
        } else {
            let empty: &[u8] = &[];
            assert(empty@.len() == 0);
            empty
        }
    }

    /// The number of cached pages.
    pub fn num_pages(&self) -> (r: usize)
        ensures
            r == self@.len(),
    {
        self.pages.len()
    }
}

} // verus!
