//! The compact and paginated encoders: exact fragments, escaping, the byte
//! budget, cursor formatting, and the page cache equivalence.

use mcpsol::{
    estimate_schema_size, format_cursor, generate_compact_schema, generate_paginated_schema,
    generate_paginated_schema_bytes, generate_schema_bytes, ArgType, CachedSchemaPages,
    McpSchemaBuilder, McpToolBuilder,
};

#[test]
fn test_compact_schema_generation() {
    let schema = McpSchemaBuilder::new("test_program")
        .add_tool(
            McpToolBuilder::new("transfer")
                .description("Transfer tokens between accounts")
                .signer_writable("from")
                .writable("to")
                .arg("amount", ArgType::U64)
                .build(),
        )
        .build();

    let json = generate_compact_schema(&schema);

    assert!(json.contains("\"v\":\"2024-11-05\""));
    assert!(json.contains("\"name\":\"test_program\""));
    assert!(json.contains("\"n\":\"transfer\""));
    assert!(json.contains("\"i\":\"Transfer tokens between accounts\""));
    assert!(json.contains("\"from_sw\":\"pubkey\""));
    assert!(json.contains("\"to_w\":\"pubkey\""));
    assert!(json.contains("\"amount\":\"u64\""));
}

#[test]
fn test_schema_fits_return_data_with_descriptions() {
    // Simulate a realistic program with 4 tools including descriptions
    let schema = McpSchemaBuilder::new("counter")
        .add_tool(
            McpToolBuilder::new("list_tools")
                .description("List available MCP tools")
                .build(),
        )
        .add_tool(
            McpToolBuilder::new("initialize")
                .description("Create a new counter")
                .signer_writable("counter")
                .signer("authority")
                .build(),
        )
        .add_tool(
            McpToolBuilder::new("increment")
                .description("Add to counter value")
                .writable("counter")
                .signer("authority")
                .arg("amount", ArgType::U64)
                .build(),
        )
        .add_tool(
            McpToolBuilder::new("decrement")
                .description("Subtract from counter")
                .writable("counter")
                .signer("authority")
                .arg("amount", ArgType::U64)
                .build(),
        )
        .build();

    let json = generate_compact_schema(&schema);
    let size = json.len();

    println!("Schema JSON ({} bytes):\n{}", size, json);
    assert!(size <= 1024, "Schema size {} exceeds 1024 byte limit", size);
}

#[test]
fn test_description_escaping() {
    let schema = McpSchemaBuilder::new("test")
        .add_tool(
            McpToolBuilder::new("test")
                .description("A \"quoted\" description with\\backslash")
                .build(),
        )
        .build();

    let json = generate_compact_schema(&schema);
    assert!(json.contains(r#"\"quoted\""#));
    assert!(json.contains(r#"\\"#));
}

#[test]
fn test_tool_without_params() {
    // list_tools has no accounts or args - should not include empty p:{} and r:[]
    let schema = McpSchemaBuilder::new("test")
        .add_tool(McpToolBuilder::new("list_tools").description("List tools").build())
        .build();

    let json = generate_compact_schema(&schema);
    println!("JSON: {}", json);

    // Should end with just the discriminator, no p or r
    assert!(json.contains(r#""n":"list_tools""#));
    assert!(json.contains(r#""i":"List tools""#));
    assert!(!json.contains(r#""p":{}"#), "Should not have empty params");
    assert!(!json.contains(r#""r":[]"#), "Should not have empty required");
}

#[test]
fn test_name_escaping() {
    // Test that names with special chars are escaped
    let schema = McpSchemaBuilder::new("test\"program")
        .add_tool(
            McpToolBuilder::new("test\"tool")
                .writable("acc\"name")
                .arg("arg\"name", ArgType::U64)
                .build(),
        )
        .build();

    let json = generate_compact_schema(&schema);
    println!("JSON: {}", json);

    assert!(json.contains(r#""name":"test\"program""#));
    assert!(json.contains(r#""n":"test\"tool""#));
    assert!(json.contains(r#""acc\"name_w":"pubkey""#));
    assert!(json.contains(r#""arg\"name":"u64""#));
}

#[test]
fn test_paginated_schema_first_page() {
    let schema = McpSchemaBuilder::new("counter")
        .add_tool(
            McpToolBuilder::new("initialize")
                .description("Create a new counter account")
                .signer_writable_desc("counter", "The counter PDA to create")
                .signer_desc("authority", "Who can modify this counter")
                .build(),
        )
        .add_tool(
            McpToolBuilder::new("increment")
                .description("Add amount to counter")
                .writable_desc("counter", "Counter to modify")
                .signer_desc("authority", "Must match counter authority")
                .arg_desc("amount", "Value to add", ArgType::U64)
                .build(),
        )
        .build();

    let json = generate_paginated_schema(&schema, 0);
    println!("Page 0 ({} bytes):\n{}", json.len(), json);

    // First page should have first tool
    assert!(json.contains("\"name\":\"initialize\""));
    assert!(json.contains("\"description\":\"Create a new counter account\""));
    assert!(json.contains("\"counter\":{\"type\":\"pubkey\",\"signer\":true,\"writable\":true"));
    assert!(json.contains("\"description\":\"The counter PDA to create\""));

    // Should have nextCursor
    assert!(json.contains("\"nextCursor\":\"1\""));

    // Should fit in 1024 bytes
    assert!(json.len() <= 1024, "Page size {} exceeds limit", json.len());
}

#[test]
fn test_paginated_schema_last_page() {
    let schema = McpSchemaBuilder::new("counter")
        .add_tool(McpToolBuilder::new("initialize").description("Create counter").build())
        .add_tool(
            McpToolBuilder::new("increment")
                .description("Add to counter")
                .arg_desc("amount", "Value to add", ArgType::U64)
                .build(),
        )
        .build();

    let json = generate_paginated_schema(&schema, 1);
    println!("Page 1 ({} bytes):\n{}", json.len(), json);

    // Last page should have second tool
    assert!(json.contains("\"name\":\"increment\""));
    assert!(json.contains("\"description\":\"Add to counter\""));

    // Should NOT have nextCursor (last page)
    assert!(!json.contains("nextCursor"));
}

#[test]
fn test_paginated_schema_out_of_bounds() {
    let schema = McpSchemaBuilder::new("counter")
        .add_tool(McpToolBuilder::new("initialize").description("Create counter").build())
        .build();

    // Cursor beyond available tools
    let json = generate_paginated_schema(&schema, 5);
    println!("Page 5 (out of bounds):\n{}", json);

    // Should return empty tools array, no nextCursor
    assert!(json.contains("\"tools\":[]"));
    assert!(!json.contains("nextCursor"));
}

#[test]
fn test_paginated_verbose_fits_1kb() {
    // Even with full descriptions, single tool should fit
    let schema = McpSchemaBuilder::new("my_defi_protocol")
        .add_tool(
            McpToolBuilder::new("swap_tokens")
                .description("Swap tokens using the AMM. Calculates optimal route automatically.")
                .signer_writable_desc("user_token_a", "User's source token account to swap from")
                .writable_desc("user_token_b", "User's destination token account to receive")
                .writable_desc("pool_token_a", "Pool's token A reserve account")
                .writable_desc("pool_token_b", "Pool's token B reserve account")
                .signer_desc("user", "The user performing the swap")
                .account("token_program", false, false)
                .arg_desc("amount_in", "Amount of token A to swap", ArgType::U64)
                .arg_desc("min_amount_out", "Minimum token B to receive (slippage)", ArgType::U64)
                .build(),
        )
        .build();

    let json = generate_paginated_schema(&schema, 0);
    println!("Verbose tool ({} bytes):\n{}", json.len(), json);

    assert!(json.len() <= 1024, "Verbose single tool {} exceeds 1024", json.len());
}

#[test]
fn test_format_cursor() {
    let mut buf = [0u8; 3];
    assert_eq!(format_cursor(0, &mut buf), "0");
    assert_eq!(format_cursor(1, &mut buf), "1");
    assert_eq!(format_cursor(9, &mut buf), "9");
    assert_eq!(format_cursor(10, &mut buf), "10");
    assert_eq!(format_cursor(99, &mut buf), "99");
    assert_eq!(format_cursor(255, &mut buf), "255");
}

#[test]
fn test_cached_pages_identical_output() {
    // Build a typical schema
    let schema = McpSchemaBuilder::new("counter")
        .add_tool(
            McpToolBuilder::new("initialize")
                .description("Create counter")
                .signer_writable("counter")
                .signer("authority")
                .build(),
        )
        .add_tool(
            McpToolBuilder::new("increment")
                .description("Add to counter")
                .writable("counter")
                .signer("authority")
                .arg("amount", ArgType::U64)
                .build(),
        )
        .build();

    // Generate pages directly
    let direct_page_0 = generate_paginated_schema_bytes(&schema, 0);
    let direct_page_1 = generate_paginated_schema_bytes(&schema, 1);

    // Generate pages via CachedSchemaPages
    let cached = CachedSchemaPages::from_schema(&schema);
    let cached_page_0 = cached.get_page(0);
    let cached_page_1 = cached.get_page(1);

    // Verify byte-for-byte identical output
    assert_eq!(
        direct_page_0, cached_page_0,
        "Page 0 output differs between direct and cached generation"
    );
    assert_eq!(
        direct_page_1, cached_page_1,
        "Page 1 output differs between direct and cached generation"
    );

    // Verify content is valid JSON
    let json_0 = String::from_utf8_lossy(cached_page_0);
    let json_1 = String::from_utf8_lossy(cached_page_1);
    assert!(json_0.starts_with("{\"v\":"), "Page 0 should be valid JSON");
    assert!(json_1.starts_with("{\"v\":"), "Page 1 should be valid JSON");
}

#[test]
fn test_presized_buffer_identical_output() {
    // Verify that repeated generation produces identical output
    let schema = McpSchemaBuilder::new("test_program")
        .add_tool(
            McpToolBuilder::new("action")
                .description("Do something")
                .signer_writable("account")
                .arg("value", ArgType::U64)
                .build(),
        )
        .build();

    // Generate multiple times - should be identical
    let output_1 = generate_compact_schema(&schema);
    let output_2 = generate_compact_schema(&schema);
    let output_3 = generate_compact_schema(&schema);

    assert_eq!(output_1, output_2, "Repeated generation should be identical");
    assert_eq!(output_2, output_3, "Repeated generation should be identical");

    // Verify JSON structure
    assert!(output_1.contains("\"v\":\"2024-11-05\""));
    assert!(output_1.contains("\"name\":\"test_program\""));
    assert!(output_1.contains("\"n\":\"action\""));
}

#[test]
fn test_builder() {
    let schema = McpSchemaBuilder::new("test_program")
        .add_tool(
            McpToolBuilder::new("transfer")
                .signer_writable("from")
                .writable("to")
                .arg("amount", ArgType::U64)
                .build(),
        )
        .build();

    assert_eq!(schema.name, "test_program");
    assert_eq!(schema.tools.len(), 1);
    assert_eq!(schema.tools[0].name, "transfer");
    assert_eq!(schema.tools[0].accounts.len(), 2);
    assert_eq!(schema.tools[0].args.len(), 1);
}

fn ten_tool_schema() -> mcpsol::McpSchema {
    let mut b = McpSchemaBuilder::new("big_program");
    let names = [
        "alpha", "bravo", "charlie", "delta", "echo", "foxtrot", "golf", "hotel", "india",
        "juliet",
    ];
    for name in names.iter() {
        b = b.add_tool(McpToolBuilder::new(name).description("Op").build());
    }
    b.build()
}

#[test]
fn test_size_bound_one_four_and_ten_tools() {
    // One tool with descriptions
    let one = McpSchemaBuilder::new("single")
        .add_tool(
            McpToolBuilder::new("only")
                .description("The only operation")
                .signer_writable_desc("state", "State account")
                .arg_desc("amount", "How much", ArgType::U64)
                .build(),
        )
        .build();
    assert!(generate_schema_bytes(&one).len() <= 1024);
    for c in 0..CachedSchemaPages::from_schema(&one).num_pages() {
        assert!(generate_paginated_schema_bytes(&one, c as u8).len() <= 1024);
    }

    // Four tools with descriptions
    let four = McpSchemaBuilder::new("counter")
        .add_tool(McpToolBuilder::new("list_tools").description("List tools").build())
        .add_tool(
            McpToolBuilder::new("initialize")
                .description("Create a new counter")
                .signer_writable("counter")
                .signer("authority")
                .build(),
        )
        .add_tool(
            McpToolBuilder::new("increment")
                .description("Add to counter value")
                .writable("counter")
                .signer("authority")
                .arg("amount", ArgType::U64)
                .build(),
        )
        .add_tool(
            McpToolBuilder::new("decrement")
                .description("Subtract from counter")
                .writable("counter")
                .signer("authority")
                .arg("amount", ArgType::U64)
                .build(),
        )
        .build();
    assert!(generate_schema_bytes(&four).len() <= 1024);
    for c in 0..4u8 {
        assert!(generate_paginated_schema_bytes(&four, c).len() <= 1024);
    }

    // Ten tools: the whole catalog and every page stay within the budget
    let ten = ten_tool_schema();
    assert!(generate_schema_bytes(&ten).len() <= 1024);
    for c in 0..10u8 {
        assert!(generate_paginated_schema_bytes(&ten, c).len() <= 1024);
    }
    println!("ten-tool compact estimate: {}", estimate_schema_size(&ten));
}
