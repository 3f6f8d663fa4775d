//! The call builder and the pagination walk: exact payloads, every error
//! variant, and the page-count of a full discovery.

use mcpsol::{
    build_instruction, generate_paginated_schema, instruction_discriminator, parse_schema,
    Aggregator, ArgType, McpClientError, McpSchemaBuilder, McpToolBuilder, Pubkey,
};

fn counter_schema_json() -> String {
    let schema = McpSchemaBuilder::new("counter")
        .add_tool(
            McpToolBuilder::new("increment")
                .description("Add to counter")
                .writable("counter")
                .signer("authority")
                .arg("amount", ArgType::U64)
                .build(),
        )
        .build();
    mcpsol::generate_compact_schema(&schema)
}

fn pk(byte: u8) -> Pubkey {
    Pubkey::new([byte; 32])
}

#[test]
fn test_build_call_payload_and_accounts() {
    // Decoding a tool with required order [counter_w, authority_s, amount:u64]
    // and caller inputs counter=C, authority=A, amount="100" yields the
    // discriminator followed by 100u64 little-endian, and the accounts in
    // declared order with their flags.
    let schema = parse_schema(&counter_schema_json()).unwrap();
    let program = pk(9);
    let c = pk(1);
    let a = pk(2);

    let ins = build_instruction(
        &program,
        "increment",
        &[("counter", c), ("authority", a)],
        &[("amount", "100")],
        &schema,
    )
    .unwrap();

    let mut expected = instruction_discriminator("increment").to_vec();
    expected.extend_from_slice(&100u64.to_le_bytes());
    assert_eq!(ins.data, expected);

    assert_eq!(ins.accounts.len(), 2);
    assert_eq!(ins.accounts[0].pubkey.bytes, c.bytes);
    assert!(!ins.accounts[0].is_signer);
    assert!(ins.accounts[0].is_writable);
    assert_eq!(ins.accounts[1].pubkey.bytes, a.bytes);
    assert!(ins.accounts[1].is_signer);
    assert!(!ins.accounts[1].is_writable);
    assert_eq!(ins.program_id.bytes, program.bytes);
}

#[test]
fn test_build_tool_not_found() {
    let schema = parse_schema(&counter_schema_json()).unwrap();
    let r = build_instruction(&pk(9), "missing", &[], &[], &schema);
    assert!(matches!(r, Err(McpClientError::ToolNotFound(_))));
}

#[test]
fn test_build_missing_account() {
    let schema = parse_schema(&counter_schema_json()).unwrap();
    let r = build_instruction(
        &pk(9),
        "increment",
        &[("authority", pk(2))],
        &[("amount", "100")],
        &schema,
    );
    assert!(matches!(r, Err(McpClientError::MissingParam(_))));
}

#[test]
fn test_build_missing_argument() {
    let schema = parse_schema(&counter_schema_json()).unwrap();
    let r = build_instruction(
        &pk(9),
        "increment",
        &[("counter", pk(1)), ("authority", pk(2))],
        &[],
        &schema,
    );
    assert!(matches!(r, Err(McpClientError::MissingParam(_))));
}

#[test]
fn test_build_invalid_argument() {
    let schema = parse_schema(&counter_schema_json()).unwrap();
    let r = build_instruction(
        &pk(9),
        "increment",
        &[("counter", pk(1)), ("authority", pk(2))],
        &[("amount", "ten")],
        &schema,
    );
    assert!(matches!(r, Err(McpClientError::InvalidArg(_))));

    // Overflow is rejected too
    let r2 = build_instruction(
        &pk(9),
        "increment",
        &[("counter", pk(1)), ("authority", pk(2))],
        &[("amount", "99999999999999999999999")],
        &schema,
    );
    assert!(matches!(r2, Err(McpClientError::InvalidArg(_))));
}

fn typed_schema_json() -> String {
    let schema = McpSchemaBuilder::new("typed")
        .add_tool(
            McpToolBuilder::new("mix")
                .arg("a", ArgType::U8)
                .arg("b", ArgType::I16)
                .arg("c", ArgType::Bool)
                .arg("d", ArgType::String)
                .arg("e", ArgType::Bytes)
                .arg("f", ArgType::Pubkey)
                .build(),
        )
        .build();
    mcpsol::generate_compact_schema(&schema)
}

#[test]
fn test_build_scalar_encodings() {
    // A pubkey-typed argument is an account: it joins the account list, not
    // the payload; the scalars are encoded at their widths in order.
    let schema = parse_schema(&typed_schema_json()).unwrap();
    let f = pk(3);
    let ins = build_instruction(
        &pk(9),
        "mix",
        &[("f", f)],
        &[("a", "7"), ("b", "-2"), ("c", "true"), ("d", "hi"), ("e", "AQID")],
        &schema,
    )
    .unwrap();

    let mut expected = instruction_discriminator("mix").to_vec();
    expected.push(7u8);
    expected.extend_from_slice(&(-2i16).to_le_bytes());
    expected.push(1u8);
    expected.extend_from_slice(&2u32.to_le_bytes());
    expected.extend_from_slice(b"hi");
    // base64 "AQID" decodes to the bytes 1, 2, 3
    expected.extend_from_slice(&3u32.to_le_bytes());
    expected.extend_from_slice(&[1, 2, 3]);
    assert_eq!(ins.data, expected);

    assert_eq!(ins.accounts.len(), 1);
    assert_eq!(ins.accounts[0].pubkey.bytes, f.bytes);
    assert!(!ins.accounts[0].is_signer);
    assert!(!ins.accounts[0].is_writable);
}

#[test]
fn test_build_i128_encoding() {
    // i128 arguments are 16-byte little-endian, across the whole range.
    let schema_json = mcpsol::generate_compact_schema(
        &McpSchemaBuilder::new("wide")
            .add_tool(McpToolBuilder::new("set").arg("amount", ArgType::I128).build())
            .build(),
    );
    let schema = parse_schema(&schema_json).unwrap();

    for (text, value) in [
        ("100", 100i128),
        ("-5", -5i128),
        ("0", 0i128),
        ("-170141183460469231731687303715884105728", i128::MIN),
        ("170141183460469231731687303715884105727", i128::MAX),
    ] {
        let ins =
            build_instruction(&pk(9), "set", &[], &[("amount", text)], &schema).unwrap();
        let mut expected = instruction_discriminator("set").to_vec();
        expected.extend_from_slice(&value.to_le_bytes());
        assert_eq!(ins.data, expected, "value {}", text);
        assert_eq!(ins.data.len(), 24);
    }

    // Out of range or not a number: the typed error, not a string fallback.
    for bad in ["170141183460469231731687303715884105728", "ten", ""] {
        let r = build_instruction(&pk(9), "set", &[], &[("amount", bad)], &schema);
        assert!(matches!(r, Err(McpClientError::InvalidArg(_))), "value {}", bad);
    }
}

#[test]
fn test_pubkey_parse() {
    // the all-ones base58 address is the zero key
    let zero = Pubkey::parse("11111111111111111111111111111111").unwrap();
    assert_eq!(zero.bytes, [0u8; 32]);
    assert!(Pubkey::parse("not a base58 key!!").is_none());
    assert!(Pubkey::parse("").is_none());
}

#[test]
fn test_build_invalid_base64_argument() {
    let schema = parse_schema(&typed_schema_json()).unwrap();
    let r = build_instruction(
        &pk(9),
        "mix",
        &[("f", pk(3))],
        &[("a", "7"), ("b", "-2"), ("c", "true"), ("d", "hi"), ("e", "###")],
        &schema,
    );
    assert!(matches!(r, Err(McpClientError::InvalidArg(_))));
}

#[test]
fn test_pagination_walk_fetches_each_page_once() {
    // A three-tool schema takes exactly three page fetches; the final page
    // carries no nextCursor.
    let schema = McpSchemaBuilder::new("walker")
        .add_tool(McpToolBuilder::new("one").build())
        .add_tool(McpToolBuilder::new("two").build())
        .add_tool(McpToolBuilder::new("three").build())
        .build();

    let mut agg = Aggregator::new();
    let mut fetches = 0u32;
    while let Some(cursor) = agg.next_action() {
        assert_eq!(cursor as u32, fetches, "pages are fetched in order");
        let page = generate_paginated_schema(&schema, cursor);
        agg.feed(&page).unwrap();
        fetches += 1;
        assert!(fetches <= 100, "the safety cap bounds the walk");
    }
    assert_eq!(fetches, 3);

    let combined = agg.finish().unwrap();
    assert_eq!(combined.tools.len(), 3);
    assert_eq!(combined.tools[0].name, "one");
    assert_eq!(combined.tools[1].name, "two");
    assert_eq!(combined.tools[2].name, "three");
    assert!(combined.next_cursor.is_none(), "the final page carries no cursor");
}

#[test]
fn test_aggregator_rejects_bad_page() {
    let mut agg = Aggregator::new();
    assert!(agg.feed("not json").is_err());
    assert_eq!(agg.next_action(), Some(0), "a failed feed leaves the walk unchanged");
}

#[test]
fn test_is_list_tools() {
    // Valid list_tools discriminator
    let valid = [0x42, 0x19, 0x5e, 0x6a, 0x55, 0xfd, 0x41, 0xc0];
    assert!(mcpsol::is_list_tools(&valid));

    // With extra data
    let with_extra = [0x42, 0x19, 0x5e, 0x6a, 0x55, 0xfd, 0x41, 0xc0, 0x00, 0x01];
    assert!(mcpsol::is_list_tools(&with_extra));

    // Wrong discriminator
    let wrong = [0x00, 0x00, 0x00, 0x00, 0x00, 0x00, 0x00, 0x00];
    assert!(!mcpsol::is_list_tools(&wrong));

    // Too short
    let short = [0x42, 0x19, 0x5e];
    assert!(!mcpsol::is_list_tools(&short));
}

#[test]
fn test_tool_builder() {
    let tool = mcpsol::tool("increment")
        .writable("counter")
        .signer("authority")
        .arg("amount", ArgType::U64)
        .build();

    assert_eq!(tool.name, "increment");
    assert_eq!(tool.accounts.len(), 2);
    assert_eq!(tool.args.len(), 1);
}

#[test]
fn test_list_tools_data_round_trip() {
    // The fetch data addresses list_tools and carries the cursor back out;
    // page 0 is the bare discriminator.
    let page0 = mcpsol::list_tools_data(0);
    assert_eq!(page0, [0x42, 0x19, 0x5e, 0x6a, 0x55, 0xfd, 0x41, 0xc0].to_vec());
    assert!(mcpsol::is_list_tools(&page0));
    assert_eq!(mcpsol::get_list_tools_cursor(&page0), 0);

    let page7 = mcpsol::list_tools_data(7);
    assert_eq!(page7.len(), 9);
    assert!(mcpsol::is_list_tools(&page7));
    assert_eq!(mcpsol::get_list_tools_cursor(&page7), 7);
}

#[test]
fn test_get_list_tools_cursor() {
    let without = [0x42, 0x19, 0x5e, 0x6a, 0x55, 0xfd, 0x41, 0xc0];
    assert_eq!(mcpsol::get_list_tools_cursor(&without), 0);
    let with = [0x42, 0x19, 0x5e, 0x6a, 0x55, 0xfd, 0x41, 0xc0, 0x05];
    assert_eq!(mcpsol::get_list_tools_cursor(&with), 5);
}
