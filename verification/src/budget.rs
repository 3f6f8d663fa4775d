//! The byte budget: the serialized size of a representative catalog stays
//! within the `return_data` limit.
//!
//! The encoders do not enforce the ceiling — it is a design contract over
//! the schemas a program actually ships — so the statement here is about a
//! representative catalog: a four-tool counter program with descriptions.
//! Its compact document and every paginated page fit in 1024 bytes,
//! whatever the discriminator bytes come out to be.

use vstd::prelude::*;
use crate::json::{
    compact_schema_json, compact_tool_json, join_comma, escape_str, page_json, verbose_tool_json,
};
use crate::roundtrip::{all_plain, lemma_escape_id};
use crate::schema::{AccountMetaV, ArgV, ArgType, SchemaV, ToolV};

verus! {

/// The sum of the item lengths.
pub open spec fn sum_lens(items: Seq<Seq<char>>) -> int
    decreases items.len(),
{
    if items.len() == 0 {
        0
    } else {
        items[0].len() + sum_lens(items.skip(1))
    }
}

/// A comma-join is as long as its items plus the separating commas.
pub proof fn lemma_join_comma_len(items: Seq<Seq<char>>)
    ensures
        join_comma(items).len() == sum_lens(items) + (if items.len() == 0 {
            0int
        } else {
            items.len() - 1
        }),
    decreases items.len(),
{
    reveal_strlit(",");
    if items.len() > 1 {
        lemma_join_comma_len(items.skip(1));
    } else if items.len() == 1 {
        assert(items.skip(1).len() == 0);
        assert(sum_lens(items.skip(1)) == 0);
    }
}

/// The representative catalog: a counter program with four described tools.
pub open spec fn counter_schema(d1: Seq<u8>, d2: Seq<u8>, d3: Seq<u8>, d4: Seq<u8>) -> SchemaV {
    SchemaV {
        name: "counter"@,
        tools: seq![
            ToolV {
                name: "list_tools"@,
                description: Some("List available MCP tools"@),
                discriminator: d1,
                accounts: Seq::empty(),
                args: Seq::empty(),
            },
            ToolV {
                name: "initialize"@,
                description: Some("Create a new counter"@),
                discriminator: d2,
                accounts: seq![
                    AccountMetaV {
                        name: "counter"@,
                        description: None,
                        is_signer: true,
                        is_writable: true,
                    },
                    AccountMetaV {
                        name: "authority"@,
                        description: None,
                        is_signer: true,
                        is_writable: false,
                    },
                ],
                args: Seq::empty(),
            },
            ToolV {
                name: "increment"@,
                description: Some("Add to counter value"@),
                discriminator: d3,
                accounts: seq![
                    AccountMetaV {
                        name: "counter"@,
                        description: None,
                        is_signer: false,
                        is_writable: true,
                    },
                    AccountMetaV {
                        name: "authority"@,
                        description: None,
                        is_signer: true,
                        is_writable: false,
                    },
                ],
                args: seq![
                    ArgV { name: "amount"@, description: None, arg_type: ArgType::U64 },
                ],
            },
            ToolV {
                name: "decrement"@,
                description: Some("Subtract from counter"@),
                discriminator: d4,
                accounts: seq![
                    AccountMetaV {
                        name: "counter"@,
                        description: None,
                        is_signer: false,
                        is_writable: true,
                    },
                    AccountMetaV {
                        name: "authority"@,
                        description: None,
                        is_signer: true,
                        is_writable: false,
                    },
                ],
                args: seq![
                    ArgV { name: "amount"@, description: None, arg_type: ArgType::U64 },
                ],
            },
        ],
    }
}

/// Reveal the literals of the representative catalog and their escapes.
proof fn reveal_counter_lits()
    ensures
        escape_str("counter"@) == "counter"@ && "counter"@.len() == 7,
        escape_str("list_tools"@) == "list_tools"@ && "list_tools"@.len() == 10,
        escape_str("initialize"@) == "initialize"@ && "initialize"@.len() == 10,
        escape_str("increment"@) == "increment"@ && "increment"@.len() == 9,
        escape_str("decrement"@) == "decrement"@ && "decrement"@.len() == 9,
        escape_str("authority"@) == "authority"@ && "authority"@.len() == 9,
        escape_str("amount"@) == "amount"@ && "amount"@.len() == 6,
        escape_str("List available MCP tools"@) == "List available MCP tools"@
            && "List available MCP tools"@.len() == 24,
        escape_str("Create a new counter"@) == "Create a new counter"@
            && "Create a new counter"@.len() == 20,
        escape_str("Add to counter value"@) == "Add to counter value"@
            && "Add to counter value"@.len() == 20,
        escape_str("Subtract from counter"@) == "Subtract from counter"@
            && "Subtract from counter"@.len() == 21,
{
    reveal_strlit("counter");
    reveal_strlit("list_tools");
    reveal_strlit("initialize");
    reveal_strlit("increment");
    reveal_strlit("decrement");
    reveal_strlit("authority");
    reveal_strlit("amount");
    reveal_strlit("List available MCP tools");
    reveal_strlit("Create a new counter");
    reveal_strlit("Add to counter value");
    reveal_strlit("Subtract from counter");
    assert(all_plain("counter"@));
    lemma_escape_id("counter"@);
    assert(all_plain("list_tools"@));
    lemma_escape_id("list_tools"@);
    assert(all_plain("initialize"@));
    lemma_escape_id("initialize"@);
    assert(all_plain("increment"@));
    lemma_escape_id("increment"@);
    assert(all_plain("decrement"@));
    lemma_escape_id("decrement"@);
    assert(all_plain("authority"@));
    lemma_escape_id("authority"@);
    assert(all_plain("amount"@));
    lemma_escape_id("amount"@);
    assert(all_plain("List available MCP tools"@));
    lemma_escape_id("List available MCP tools"@);
    assert(all_plain("Create a new counter"@));
    lemma_escape_id("Create a new counter"@);
    assert(all_plain("Add to counter value"@));
    lemma_escape_id("Add to counter value"@);
    assert(all_plain("Subtract from counter"@));
    lemma_escape_id("Subtract from counter"@);
}

/// The length of one compact tool rendering of the representative catalog.
#[verifier::rlimit(100)]
proof fn lemma_counter_tool_lens(d1: Seq<u8>, d2: Seq<u8>, d3: Seq<u8>, d4: Seq<u8>)
    requires
        d1.len() == 8,
        d2.len() == 8,
        d3.len() == 8,
        d4.len() == 8,
    ensures
        ({
            let ts = counter_schema(d1, d2, d3, d4).tools;
            &&& compact_tool_json(ts[0]).len() == 72
            &&& compact_tool_json(ts[1]).len() == 152
            &&& compact_tool_json(ts[2]).len() == 173
            &&& compact_tool_json(ts[3]).len() == 174
        }),
{
    reveal(compact_tool_json);
    reveal_with_fuel(join_comma, 5);
    reveal_counter_lits();
    reveal_strlit("{\"n\":\"");
    reveal_strlit("\"");
    reveal_strlit(",\"i\":\"");
    reveal_strlit(",\"d\":\"");
    reveal_strlit("\"}");
    reveal_strlit("\",\"p\":{");
    reveal_strlit("},\"r\":[");
    reveal_strlit("]}");
    reveal_strlit("\":\"pubkey\"");
    reveal_strlit("\":\"");
    reveal_strlit("_sw");
    reveal_strlit("_s");
    reveal_strlit("_w");
    reveal_strlit("");
    reveal_strlit("u64");
    reveal_strlit(",");
    let ts = counter_schema(d1, d2, d3, d4).tools;
    assert(crate::json::disc_hex_chars(d1).len() == 16);
    assert(crate::json::disc_hex_chars(d2).len() == 16);
    assert(crate::json::disc_hex_chars(d3).len() == 16);
    assert(crate::json::disc_hex_chars(d4).len() == 16);
    assert(compact_tool_json(ts[0]).len() == 72);
    assert(crate::json::compact_props(ts[1]).len() == 2);
    assert(crate::json::compact_keys(ts[1]).len() == 2);
    assert(compact_tool_json(ts[1]).len() == 152);
    assert(crate::json::compact_props(ts[2]).len() == 3);
    assert(crate::json::compact_keys(ts[2]).len() == 3);
    assert(compact_tool_json(ts[2]).len() == 173);
    assert(compact_tool_json(ts[3]).len() == 174);
}

/// Size bound for the compact document: the representative four-tool
/// catalog, descriptions included, serializes to at most 1024 bytes,
/// whatever its discriminators are.
#[verifier::rlimit(100)]
pub proof fn lemma_counter_schema_within_budget(d1: Seq<u8>, d2: Seq<u8>, d3: Seq<u8>, d4: Seq<u8>)
    requires
        d1.len() == 8,
        d2.len() == 8,
        d3.len() == 8,
        d4.len() == 8,
    ensures
        compact_schema_json(counter_schema(d1, d2, d3, d4)).len() <= 1024,
{
    let sc = counter_schema(d1, d2, d3, d4);
    reveal_counter_lits();
    reveal_strlit("{\"v\":\"");
    reveal_strlit("2024-11-05");
    reveal_strlit("\",\"name\":\"");
    reveal_strlit("\",\"tools\":[");
    reveal_strlit("]}");
    lemma_counter_tool_lens(d1, d2, d3, d4);
    let items = sc.tools.map_values(|t: ToolV| compact_tool_json(t));
    lemma_join_comma_len(items);
    assert(items.len() == 4);
    assert(sum_lens(items) == items[0].len() + (items[1].len() + (items[2].len() + (
    items[3].len() + sum_lens(items.skip(1).skip(1).skip(1).skip(1)))))) by {
        reveal_with_fuel(sum_lens, 6);
        assert(items.skip(1)[0] == items[1]);
        assert(items.skip(1).skip(1)[0] == items[2]);
        assert(items.skip(1).skip(1).skip(1)[0] == items[3]);
        assert(items.skip(1).len() == 3);
        assert(items.skip(1).skip(1).len() == 2);
        assert(items.skip(1).skip(1).skip(1).len() == 1);
        assert(items.skip(1).skip(1).skip(1).skip(1).len() == 0);
    }
    assert(sum_lens(items) == 72 + 152 + 173 + 174);
    assert(compact_schema_json(sc).len() <= 1024);
}

/// The length of one verbose tool rendering of the representative catalog.
#[verifier::rlimit(100)]
proof fn lemma_counter_vtool_lens(d1: Seq<u8>, d2: Seq<u8>, d3: Seq<u8>, d4: Seq<u8>)
    requires
        d1.len() == 8,
        d2.len() == 8,
        d3.len() == 8,
        d4.len() == 8,
    ensures
        ({
            let ts = counter_schema(d1, d2, d3, d4).tools;
            &&& verbose_tool_json(ts[0]).len() == 97
            &&& verbose_tool_json(ts[1]).len() == 210
            &&& verbose_tool_json(ts[2]).len() == 219
            &&& verbose_tool_json(ts[3]).len() == 220
        }),
{
    reveal(verbose_tool_json);
    reveal_with_fuel(join_comma, 5);
    reveal_counter_lits();
    reveal_strlit("{\"name\":\"");
    reveal_strlit("\"");
    reveal_strlit(",\"description\":\"");
    reveal_strlit(",\"discriminator\":\"");
    reveal_strlit(",\"parameters\":{");
    reveal_strlit("}");
    reveal_strlit("\":{\"type\":\"pubkey\"");
    reveal_strlit(",\"signer\":true");
    reveal_strlit(",\"writable\":true");
    reveal_strlit("\":{\"type\":\"");
    reveal_strlit("u64");
    reveal_strlit(",");
    let ts = counter_schema(d1, d2, d3, d4).tools;
    assert(crate::json::disc_hex_chars(d1).len() == 16);
    assert(crate::json::disc_hex_chars(d2).len() == 16);
    assert(crate::json::disc_hex_chars(d3).len() == 16);
    assert(crate::json::disc_hex_chars(d4).len() == 16);
    assert(verbose_tool_json(ts[0]).len() == 97);
    assert(crate::json::verbose_params(ts[1]).len() == 2);
    assert(verbose_tool_json(ts[1]).len() == 210);
    assert(crate::json::verbose_params(ts[2]).len() == 3);
    assert(verbose_tool_json(ts[2]).len() == 219);
    assert(verbose_tool_json(ts[3]).len() == 220);
}

/// Size bound for the paginated form: every page of the representative
/// catalog, full descriptions included, serializes to at most 1024 bytes,
/// whatever its discriminators are.
#[verifier::rlimit(100)]
pub proof fn lemma_counter_pages_within_budget(
    d1: Seq<u8>,
    d2: Seq<u8>,
    d3: Seq<u8>,
    d4: Seq<u8>,
    c: int,
)
    requires
        d1.len() == 8,
        d2.len() == 8,
        d3.len() == 8,
        d4.len() == 8,
        0 <= c,
    ensures
        page_json(counter_schema(d1, d2, d3, d4), c).len() <= 1024,
{
    let sc = counter_schema(d1, d2, d3, d4);
    reveal(page_json);
    reveal_counter_lits();
    reveal_strlit("{\"v\":\"");
    reveal_strlit("2024-11-05");
    reveal_strlit("\",\"name\":\"");
    reveal_strlit("\",\"tools\":[");
    reveal_strlit("]");
    reveal_strlit(",\"nextCursor\":\"");
    reveal_strlit("\"");
    reveal_strlit("}");
    lemma_counter_vtool_lens(d1, d2, d3, d4);
    if c + 1 < sc.tools.len() {
        assert(crate::json::cursor_str(c + 1).len() == 1) by {
            reveal_with_fuel(crate::json::dec_digits, 3);
        }
    }
    assert(page_json(sc, c).len() <= 1024);
}

} // verus!
