//! The generator-side helpers: JSON escaping, attribute values, type sizes
//! and compile-time offsets.

use mcpsol::attrs::extract_attr_value;
use mcpsol::gen::{
    calculate_arg_offsets, calculate_expected_len, escape_json, get_type_size,
    rust_type_to_json_schema, ArgInfo,
};

#[test]
fn test_escape_json() {
    assert_eq!(escape_json("hello\"world"), "hello\\\"world");
    assert_eq!(escape_json("line1\nline2"), "line1\\nline2");
}

#[test]
fn test_extract_attr_value() {
    // Test different spacing patterns
    let attr1 = r#"name = "increment" , description = "Increase counter""#;
    let attr2 = r#"name= "increment", description= "Increase counter""#;
    let attr3 = r#"name ="increment" , description ="Increase counter""#;
    let attr4 = r#"name="increment",description="Increase counter""#;

    for (i, attr) in [attr1, attr2, attr3, attr4].iter().enumerate() {
        println!("Test {}: {:?}", i + 1, attr);
        let name = extract_attr_value(attr, "name");
        let desc = extract_attr_value(attr, "description");
        println!("  name: {:?}, description: {:?}", name, desc);
        assert!(name.is_some(), "name should be found in test {}", i + 1);
        assert!(desc.is_some(), "description should be found in test {}", i + 1);
    }
}

#[test]
fn test_extract_attr_value_exact() {
    let attr = r#"name = "increment" , description = "Increase counter""#;
    assert_eq!(extract_attr_value(attr, "name"), Some("increment".to_string()));
    assert_eq!(extract_attr_value(attr, "description"), Some("Increase counter".to_string()));
    assert_eq!(extract_attr_value(attr, "accounts"), None);
}

#[test]
fn test_rust_type_to_json_schema() {
    assert_eq!(rust_type_to_json_schema("u64"), r#"{"type":"integer","minimum":0}"#);
    assert_eq!(rust_type_to_json_schema("i32"), r#"{"type":"integer"}"#);
    assert_eq!(rust_type_to_json_schema("bool"), r#"{"type":"boolean"}"#);
    assert_eq!(rust_type_to_json_schema("String"), r#"{"type":"string"}"#);
    assert_eq!(rust_type_to_json_schema("Vec<u8>"), r#"{"type":"string","contentEncoding":"base64"}"#);
    assert!(rust_type_to_json_schema("Pubkey").contains("solana-pubkey"));
    assert_eq!(rust_type_to_json_schema("Custom"), r#"{"type":"string"}"#);
}

#[test]
fn test_get_type_size() {
    assert_eq!(get_type_size("u8"), Some(1));
    assert_eq!(get_type_size("i16"), Some(2));
    assert_eq!(get_type_size("u32"), Some(4));
    assert_eq!(get_type_size("u64"), Some(8));
    assert_eq!(get_type_size("u128"), Some(16));
    assert_eq!(get_type_size("bool"), Some(1));
    assert_eq!(get_type_size("Pubkey"), Some(32));
    assert_eq!(get_type_size("[u8;4]"), Some(4));
    assert_eq!(get_type_size("[u8; 16 ]"), Some(16));
    assert_eq!(get_type_size("String"), None);
    assert_eq!(get_type_size("Vec<u8>"), None);
}

fn arg(rust_type: &str) -> ArgInfo {
    ArgInfo {
        name: "x".to_string(),
        rust_type: rust_type.to_string(),
        json_type: String::new(),
        description: String::new(),
    }
}

#[test]
fn test_calculate_expected_len() {
    let args = [arg("u64"), arg("u32"), arg("bool")];
    assert_eq!(calculate_expected_len(&args), Some(8 + 8 + 4 + 1));
    let none = [arg("u64"), arg("String")];
    assert_eq!(calculate_expected_len(&none), None);
    assert_eq!(calculate_expected_len(&[]), Some(8));
}

#[test]
fn test_calculate_arg_offsets() {
    let args = [arg("u64"), arg("u32"), arg("bool")];
    assert_eq!(calculate_arg_offsets(&args), Some(vec![8, 16, 20]));
    let none = [arg("String")];
    assert_eq!(calculate_arg_offsets(&none), None);
}
