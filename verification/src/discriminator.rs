//! Discriminator calculation: deterministic 8-byte identifiers from names.
//!
//! An instruction discriminator is the first 8 bytes of the SHA-256 digest of
//! `"global:" + name`; an account discriminator hashes `"account:" + name`.
//! The scheme matches the established sighash convention, so programs built
//! elsewhere route the same calls to the same handlers.

use vstd::prelude::*;
use vstd::utf8::encode_utf8;

verus! {

/// The SHA-256 digest of a byte sequence.  The digest itself is computed by
/// the `sha2` crate; its value is pinned only by this name, so equal inputs
/// give equal digests.
pub uninterp spec fn sha256_of(data: Seq<u8>) -> Seq<u8>;

/// Relies on `sha2::Sha256::digest`: a 32-byte digest that depends on the
/// input bytes alone.
#[verifier::external_body]
fn sha256(data: &[u8]) -> (r: Vec<u8>)
    ensures
        r@ == sha256_of(data@),
        r@.len() == 32,
{
    let digest = <sha2::Sha256 as sha2::Digest>::digest(data);
    digest.to_vec()
}

/// The discriminator a preimage string hashes to: the first 8 digest bytes.
pub open spec fn disc_of_preimage(preimage: Seq<char>) -> Seq<u8> {
    sha256_of(encode_utf8(preimage)).take(8)
}

/// Instruction discriminator of a tool name: hash of `"global:" + name`.
pub open spec fn instruction_disc_of(name: Seq<char>) -> Seq<u8> {
    disc_of_preimage("global:"@ + name)
}

/// Account discriminator of an account type name: hash of `"account:" + name`.
pub open spec fn account_disc_of(name: Seq<char>) -> Seq<u8> {
    disc_of_preimage("account:"@ + name)
}

/// Hash a preimage string to an 8-byte discriminator.
fn hash_to_discriminator(preimage: &str) -> (r: [u8; 8])
    ensures
        r@ == disc_of_preimage(preimage@),
{
    let digest = sha256(preimage.as_bytes());
    let r = [digest[0], digest[1], digest[2], digest[3], digest[4], digest[5], digest[6], digest[7]];
    assert(r@ =~= sha256_of(encode_utf8(preimage@)).take(8));
    r
}

/// Calculate the instruction discriminator of a tool name.
///
/// Pure and deterministic: the result is a function of the name alone.
pub fn instruction_discriminator(name: &str) -> (r: [u8; 8])
    ensures
        r@ == instruction_disc_of(name@),
{
    let mut preimage = String::from_str("global:");
    preimage.append(name);
    hash_to_discriminator(preimage.as_str())
}

/// Calculate the account discriminator of an account type name.
///
/// Pure and deterministic: the result is a function of the name alone.
pub fn account_discriminator(name: &str) -> (r: [u8; 8])
    ensures
        r@ == account_disc_of(name@),
{
    let mut preimage = String::from_str("account:");
    preimage.append(name);
    hash_to_discriminator(preimage.as_str())
}

/// Lowercase hex digit (as an ASCII byte) for a nibble value.
pub open spec fn hex_digit_byte(n: u8) -> u8
    recommends
        n < 16,
{
    if n < 10 {
        ('0' as u8 + n) as u8
    } else {
        ('a' as u8 + (n - 10)) as u8
    }
}

/// The 16 ASCII bytes of the lowercase hex form of an 8-byte discriminator.
pub open spec fn disc_hex_bytes(d: Seq<u8>) -> Seq<u8>
    recommends
        d.len() == 8,
{
    Seq::new(16, |i: int| hex_digit_byte(if i % 2 == 0 { (d[i / 2] / 16) as u8 } else { (d[i / 2] % 16) as u8 }))
}

fn hex_digit(n: u8) -> (r: u8)
    requires
        n < 16,
    ensures
        r == hex_digit_byte(n),
{
    if n < 10 {
        '0' as u8 + n
    } else {
        'a' as u8 + (n - 10)
    }
}

/// Convert a discriminator to its 16 lowercase hex characters (ASCII bytes).
pub fn discriminator_to_hex(disc: &[u8; 8]) -> (r: [u8; 16])
    ensures
        r@ == disc_hex_bytes(disc@),
{
    let mut hex = [0u8; 16];
    let mut i: usize = 0;
    while i < 8
        invariant
            i <= 8,
            hex@.len() == 16,
            forall|k: int| 0 <= k < 2 * i ==> hex@[k] == disc_hex_bytes(disc@)[k],
        decreases 8 - i,
    {
        let b = disc[i];
        hex[i * 2] = hex_digit(b / 16);
        hex[i * 2 + 1] = hex_digit(b % 16);
        i = i + 1;
    }
    assert(hex@ =~= disc_hex_bytes(disc@));
    hex
}

/// Determinism: the instruction discriminator is a function of the name
/// alone, so any two results computed for the same name are equal.
pub proof fn lemma_discriminator_deterministic(name: Seq<char>, r1: Seq<u8>, r2: Seq<u8>)
    requires
        r1 == instruction_disc_of(name),
        r2 == instruction_disc_of(name),
    ensures
        r1 == r2,
{
}

} // verus!
