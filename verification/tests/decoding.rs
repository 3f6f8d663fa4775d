//! The tolerant decoder: both wire shapes, the accessor contract, and the
//! discriminator hex decoding.

use mcpsol::{parse_schema, ParsedTool};

fn bare_tool(discriminator: &str) -> ParsedTool {
    ParsedTool {
        name: "test".to_string(),
        description: None,
        discriminator: discriminator.to_string(),
        params: Vec::new(),
        required: Vec::new(),
    }
}

#[test]
fn test_parse_schema() {
    let json = r#"{
        "v": "2024-11-05",
        "name": "counter",
        "tools": [
            {
                "n": "increment",
                "i": "Add to counter",
                "d": "0b12680968ae3b21",
                "p": {"counter_w": "pubkey", "authority_s": "pubkey", "amount": "u64"},
                "r": ["counter_w", "authority_s", "amount"]
            }
        ]
    }"#;

    let schema = parse_schema(json).unwrap();
    assert_eq!(schema.name, "counter");
    assert_eq!(schema.tools.len(), 1);

    let tool = &schema.tools[0];
    assert_eq!(tool.name, "increment");
    assert!(tool.is_writable("counter_w"));
    assert!(tool.is_signer("authority_s"));
    assert!(!tool.is_account("amount"));
}

#[test]
fn test_discriminator_parse() {
    let tool = bare_tool("0b12680968ae3b21");
    let bytes = tool.discriminator_bytes().unwrap();
    assert_eq!(bytes, [0x0b, 0x12, 0x68, 0x09, 0x68, 0xae, 0x3b, 0x21]);
}

#[test]
fn test_discriminator_invalid_hex() {
    let tool = bare_tool("invalid_hex");
    assert!(tool.discriminator_bytes().is_err());
}

#[test]
fn test_discriminator_too_short() {
    let tool = bare_tool("0b1268"); // Only 3 bytes
    assert!(tool.discriminator_bytes().is_err());
}

#[test]
fn test_base_name() {
    assert_eq!(ParsedTool::base_name("counter_w"), "counter");
    assert_eq!(ParsedTool::base_name("authority_s"), "authority");
    assert_eq!(ParsedTool::base_name("payer_sw"), "payer");
    assert_eq!(ParsedTool::base_name("amount"), "amount");
}

#[test]
fn test_base_name_not_mis_stripped() {
    // A name that merely ends in the letter of a suffix, without the
    // underscore, is left whole; a genuinely suffixed name is stripped.
    assert_eq!(ParsedTool::base_name("status"), "status");
    assert_eq!(ParsedTool::base_name("status_s"), "status");
    assert_eq!(ParsedTool::base_name("from_sw"), "from");
}

#[test]
fn test_parse_list_tools_no_params() {
    // list_tools has no params or required fields - must parse with defaults
    let json = r#"{
        "v": "2024-11-05",
        "name": "counter",
        "tools": [
            {"n": "list_tools", "d": "42195e6a55fd41c0"}
        ]
    }"#;

    let schema = parse_schema(json).unwrap();
    assert_eq!(schema.tools.len(), 1);
    assert_eq!(schema.tools[0].name, "list_tools");
    assert!(schema.tools[0].params.is_empty());
    assert!(schema.tools[0].required.is_empty());
}

#[test]
fn test_int_type_parsing() {
    // Compact schema uses "int" for integers
    let json = r#"{
        "v": "2024-11-05",
        "name": "counter",
        "tools": [
            {
                "n": "increment",
                "d": "0b12680968ae3b21",
                "p": {"counter_w": "pubkey", "amount": "int"},
                "r": ["counter_w", "amount"]
            }
        ]
    }"#;

    let schema = parse_schema(json).unwrap();
    let tool = &schema.tools[0];
    assert_eq!(tool.get_param_type("amount").unwrap(), "int");
}

#[test]
fn test_parse_verbose_schema() {
    // Verbose schema format with full keys and nested objects
    let json = r#"{
        "v": "2024-11-05",
        "name": "counter",
        "tools": [
            {
                "name": "increment",
                "description": "Add amount to counter value",
                "discriminator": "0b12680968ae3b21",
                "parameters": {
                    "counter": {"type": "pubkey", "writable": true, "description": "The counter to modify"},
                    "authority": {"type": "pubkey", "signer": true, "description": "Must match counter authority"},
                    "amount": {"type": "u64", "description": "Value to add"}
                }
            }
        ],
        "nextCursor": "1"
    }"#;

    let schema = parse_schema(json).unwrap();
    assert_eq!(schema.name, "counter");
    assert_eq!(schema.next_cursor, Some("1".to_string()));
    assert_eq!(schema.tools.len(), 1);

    let tool = &schema.tools[0];
    assert_eq!(tool.name, "increment");
    assert_eq!(tool.description, Some("Add amount to counter value".to_string()));

    // Check verbose format parsing
    assert!(tool.is_account("counter"));
    assert!(tool.is_account("authority"));
    assert!(!tool.is_account("amount"));

    assert!(tool.is_writable("counter"));
    assert!(!tool.is_writable("authority"));

    assert!(tool.is_signer("authority"));
    assert!(!tool.is_signer("counter"));

    // Check get_param_type
    assert_eq!(tool.get_param_type("counter"), Some("pubkey"));
    assert_eq!(tool.get_param_type("amount"), Some("u64"));

    // Check get_param_description
    assert_eq!(tool.get_param_description("counter"), Some("The counter to modify"));
    assert_eq!(tool.get_param_description("amount"), Some("Value to add"));
}

#[test]
fn test_parse_verbose_last_page() {
    // Last page has no nextCursor
    let json = r#"{
        "v": "2024-11-05",
        "name": "counter",
        "tools": [
            {
                "name": "decrement",
                "description": "Subtract from counter",
                "discriminator": "6ae3a83bf81b9665",
                "parameters": {
                    "counter": {"type": "pubkey", "writable": true},
                    "amount": {"type": "u64"}
                }
            }
        ]
    }"#;

    let schema = parse_schema(json).unwrap();
    assert_eq!(schema.next_cursor, None);
}

#[test]
fn test_required_params_verbose() {
    // Verbose format: all params are required
    let json = r#"{
        "v": "2024-11-05",
        "name": "test",
        "tools": [
            {
                "name": "transfer",
                "discriminator": "0b12680968ae3b21",
                "parameters": {
                    "from": {"type": "pubkey", "signer": true, "writable": true},
                    "to": {"type": "pubkey", "writable": true},
                    "amount": {"type": "u64"}
                }
            }
        ]
    }"#;

    let schema = parse_schema(json).unwrap();
    let tool = &schema.tools[0];

    let required = tool.required_params();
    assert_eq!(required.len(), 3);
    assert!(required.contains(&"from"));
    assert!(required.contains(&"to"));
    assert!(required.contains(&"amount"));
}

#[test]
fn test_required_params_compact() {
    // Compact format: uses explicit required array
    let json = r#"{
        "v": "2024-11-05",
        "name": "test",
        "tools": [
            {
                "n": "transfer",
                "d": "0b12680968ae3b21",
                "p": {"from_sw": "pubkey", "to_w": "pubkey", "amount": "u64"},
                "r": ["from_sw", "to_w", "amount"]
            }
        ]
    }"#;

    let schema = parse_schema(json).unwrap();
    let tool = &schema.tools[0];

    let required = tool.required_params();
    assert_eq!(required.len(), 3);
    assert!(required.contains(&"from_sw"));
    assert!(required.contains(&"to_w"));
    assert!(required.contains(&"amount"));
}

#[test]
fn test_mixed_format_compatibility() {
    // Test that both name/n and description/i work
    let json = r#"{
        "v": "2024-11-05",
        "name": "test",
        "tools": [
            {
                "n": "test1",
                "i": "Compact description",
                "d": "0b12680968ae3b21"
            },
            {
                "name": "test2",
                "description": "Verbose description",
                "discriminator": "0b12680968ae3b22"
            }
        ]
    }"#;

    let schema = parse_schema(json).unwrap();
    assert_eq!(schema.tools[0].name, "test1");
    assert_eq!(schema.tools[0].description, Some("Compact description".to_string()));
    assert_eq!(schema.tools[1].name, "test2");
    assert_eq!(schema.tools[1].description, Some("Verbose description".to_string()));
}

#[test]
fn test_parse_rejects_malformed_documents() {
    // Not an object
    assert!(parse_schema("[]").is_err());
    // Missing required fields
    assert!(parse_schema(r#"{"v":"2024-11-05","name":"x"}"#).is_err());
    assert!(parse_schema(r#"{"v":"2024-11-05","tools":[]}"#).is_err());
    // A tool without a discriminator
    assert!(parse_schema(r#"{"v":"1","name":"x","tools":[{"n":"a"}]}"#).is_err());
    // A field set twice, under two of its accepted keys
    assert!(
        parse_schema(r#"{"v":"1","name":"x","tools":[{"n":"a","name":"b","d":"00"}]}"#).is_err()
    );
    // Trailing garbage after the document
    assert!(parse_schema(r#"{"v":"1","name":"x","tools":[]} trailing"#).is_err());
}

#[test]
fn test_unicode_escapes() {
    // Four-digit escapes name their character; surrogate pairs combine.
    let json = r#"{"v":"1","name":"\u0041B\u00e9","tools":[]}"#;
    let schema = parse_schema(json).unwrap();
    assert_eq!(schema.name, "AB\u{e9}");

    let pair = r#"{"v":"1","name":"\ud83d\ude00","tools":[]}"#;
    let schema2 = parse_schema(pair).unwrap();
    assert_eq!(schema2.name, "\u{1f600}");
}

#[test]
fn test_unicode_escapes_rejected() {
    // A lone surrogate half, either order, and short or bad digits fail.
    assert!(parse_schema(r#"{"v":"1","name":"\ud83d","tools":[]}"#).is_err());
    assert!(parse_schema(r#"{"v":"1","name":"\ude00","tools":[]}"#).is_err());
    assert!(parse_schema(r#"{"v":"1","name":"\ud83dx","tools":[]}"#).is_err());
    assert!(parse_schema(r#"{"v":"1","name":"\u12","tools":[]}"#).is_err());
    assert!(parse_schema(r#"{"v":"1","name":"\uzzzz","tools":[]}"#).is_err());
}

#[test]
fn test_round_trip_compact() {
    // Build, encode compactly, decode: names, discriminators and required
    // sets come back exactly.
    let schema = mcpsol::McpSchemaBuilder::new("counter")
        .add_tool(mcpsol::McpToolBuilder::new("list_tools").description("List tools").build())
        .add_tool(
            mcpsol::McpToolBuilder::new("increment")
                .description("Add to counter")
                .writable("counter")
                .signer("authority")
                .arg("amount", mcpsol::ArgType::U64)
                .build(),
        )
        .build();

    let json = mcpsol::generate_compact_schema(&schema);
    let parsed = parse_schema(&json).unwrap();

    assert_eq!(parsed.name, "counter");
    assert_eq!(parsed.version, "2024-11-05");
    assert_eq!(parsed.tools.len(), 2);
    assert_eq!(parsed.tools[0].name, "list_tools");
    assert_eq!(parsed.tools[1].name, "increment");
    assert_eq!(
        parsed.tools[1].discriminator_bytes().unwrap(),
        mcpsol::instruction_discriminator("increment")
    );
    let required = parsed.tools[1].required_params();
    assert_eq!(required, vec!["counter_w", "authority_s", "amount"]);
    assert!(parsed.tools[0].required_params().is_empty());
}
