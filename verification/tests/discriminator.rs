//! Discriminator derivation: the interoperability constant, determinism, and
//! hex rendering.

use mcpsol::{account_discriminator, discriminator_to_hex, instruction_discriminator};

#[test]
fn discriminator_test_instruction_discriminator() {
    // list_tools should match our constant
    let disc = instruction_discriminator("list_tools");
    assert_eq!(disc, [0x42, 0x19, 0x5e, 0x6a, 0x55, 0xfd, 0x41, 0xc0]);
}

#[test]
fn discriminator_test_account_discriminator() {
    let disc = account_discriminator("Counter");
    assert_eq!(disc.len(), 8);
}

#[test]
fn test_discriminator_to_hex() {
    let disc = [0x42, 0x19, 0x5e, 0x6a, 0x55, 0xfd, 0x41, 0xc0];
    let hex = discriminator_to_hex(&disc);
    assert_eq!(&hex, b"42195e6a55fd41c0");
}

#[test]
fn test_account_discriminator() {
    // Test that same name produces same discriminator
    let disc1 = account_discriminator("Counter");
    let disc2 = account_discriminator("Counter");
    assert_eq!(disc1, disc2);

    // Test that different names produce different discriminators
    let disc3 = account_discriminator("Token");
    assert_ne!(disc1, disc3);
}

#[test]
fn test_instruction_discriminator() {
    let disc1 = instruction_discriminator("initialize");
    let disc2 = instruction_discriminator("initialize");
    assert_eq!(disc1, disc2);

    let disc3 = instruction_discriminator("transfer");
    assert_ne!(disc1, disc3);
}

#[test]
fn test_discriminator_length() {
    let disc = account_discriminator("Test");
    assert_eq!(disc.len(), 8);
}

#[test]
fn test_hex_decode_round_trip() {
    let disc = instruction_discriminator("transfer");
    let hex = discriminator_to_hex(&disc);
    let text = std::str::from_utf8(&hex).unwrap();
    let decoded = mcpsol::hex::decode(text).unwrap();
    assert_eq!(decoded, disc.to_vec());
}

#[test]
fn test_hex_decode_rejects_bad_input() {
    assert!(mcpsol::hex::decode("0b1").is_err());
    assert!(mcpsol::hex::decode("zz").is_err());
    assert_eq!(mcpsol::hex::decode("0B12").unwrap(), vec![0x0b, 0x12]);
    assert_eq!(mcpsol::hex::decode("").unwrap(), Vec::<u8>::new());
}
