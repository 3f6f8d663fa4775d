//! Verified core for on-chain tool discovery and invocation.
//!
//! A program exposes its callable operations ("tools") through a JSON schema
//! that fits Solana's 1024-byte `return_data` budget.  This crate holds the
//! verified logic of that protocol:
//!
//! - deterministic 8-byte discriminators derived from tool names;
//! - a compact single-document schema encoding and a paginated one-tool-per-page
//!   encoding, with a precomputed page cache;
//! - a tolerant decoder that accepts either encoding through one accessor
//!   contract;
//! - a call builder that turns a decoded tool plus caller inputs into an exact
//!   binary payload, and the state machine that walks a paginated schema.
//!
//! Network transport and code generation live outside this crate; they hand in
//! and take out plain values.

use vstd::prelude::*;

pub mod aggregate;
pub mod attrs;
pub mod budget;
pub mod builder;
pub mod client;
pub mod decode;
pub mod discriminator;
pub mod gen;
pub mod hex;
pub mod json;
pub mod native;
pub mod parse;
pub mod roundtrip;
pub mod schema;
pub mod strutil;

pub use aggregate::Aggregator;
pub use builder::{build_instruction, Instruction, InstructionAccount, Pubkey};
pub use client::{parse_schema, McpClientError, ParamDetail, ParamValue, ParsedSchema, ParsedTool};
pub use discriminator::{account_discriminator, discriminator_to_hex, instruction_discriminator};
pub use json::{
    estimate_schema_size, estimate_single_tool_size, format_cursor, generate_compact_schema,
    generate_paginated_schema, generate_paginated_schema_bytes, generate_schema_bytes,
};
pub use native::{get_list_tools_cursor, is_list_tools, list_tools_data, tool};
pub use schema::{
    ArgType, CachedSchemaPages, McpAccountMeta, McpArg, McpSchema, McpSchemaBuilder, McpTool,
    McpToolBuilder,
};

verus! {

/// Protocol version tag carried by every schema document.
pub const PROTOCOL_VERSION: &'static str = "2024-11-05";

/// Maximum size of Solana `return_data`, the byte budget for one schema page.
pub const MAX_RETURN_DATA_SIZE: usize = 1024;

/// The universal `list_tools` instruction discriminator: the hash-derived
/// identifier of the name `list_tools`, fixed here as an interoperability
/// constant.
pub const LIST_TOOLS_DISCRIMINATOR: [u8; 8] = [0x42, 0x19, 0x5e, 0x6a, 0x55, 0xfd, 0x41, 0xc0];

} // verus!
