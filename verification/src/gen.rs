//! Helpers shared with the schema generator: JSON escaping, mapping Rust
//! types to JSON Schema fragments, and compile-time sizes and offsets of
//! fixed-width arguments.

use vstd::prelude::*;
use crate::json::{escape_str, escape_json_into, clamp_usize};
use crate::strutil::{
    contains_seq, has_prefix, str_contains, str_eq, str_starts_with, str_strip_prefix_all,
    str_trim, strip_prefix_all, trim_spec,
};
use crate::builder::parse_uint_spec;

verus! {

/// Escape special characters for a JSON string.
pub fn escape_json(s: &str) -> (r: String)
    ensures
        r@ == escape_str(s@),
{
    let mut out = String::new();
    escape_json_into(s, &mut out);
    out
}

/// An argument's name and types, as the generator records them.
pub struct ArgInfo {
    /// Argument name
    pub name: String,
    /// The Rust type, as written
    pub rust_type: String,
    /// The JSON Schema fragment the Rust type maps to
    pub json_type: String,
    /// Human-readable description
    pub description: String,
}

/// An account's name and flags, as the generator records them.
pub struct AccountMeta {
    /// Account name
    pub name: String,
    /// Whether this account must sign
    pub is_signer: bool,
    /// Whether this account is written
    pub is_writable: bool,
    /// Human-readable description
    pub description: String,
}

/// The JSON Schema fragment a Rust type string maps to.
pub open spec fn json_schema_of(t: Seq<char>) -> Seq<char> {
    if t == "u8"@ || t == "u16"@ || t == "u32"@ || t == "u64"@ || t == "u128"@ || t == "usize"@ {
        "{\"type\":\"integer\",\"minimum\":0}"@
    } else if t == "i8"@ || t == "i16"@ || t == "i32"@ || t == "i64"@ || t == "i128"@ || t
        == "isize"@ {
        "{\"type\":\"integer\"}"@
    } else if t == "bool"@ {
        "{\"type\":\"boolean\"}"@
    } else if t == "String"@ {
        "{\"type\":\"string\"}"@
    } else if has_prefix(t, "Pubkey"@) || contains_seq(t, "Pubkey"@) {
        "{\"type\":\"string\",\"format\":\"solana-pubkey\",\"description\":\"Base58-encoded 32-byte public key\"}"@
    } else if has_prefix(t, "[u8;"@) {
        "{\"type\":\"string\",\"contentEncoding\":\"base64\"}"@
    } else if has_prefix(t, "Vec<u8>"@) {
        "{\"type\":\"string\",\"contentEncoding\":\"base64\"}"@
    } else {
        "{\"type\":\"string\"}"@
    }
}

/// Map a Rust type string to its JSON Schema fragment.
pub fn rust_type_to_json_schema(rust_type: &str) -> (r: String)
    ensures
        r@ == json_schema_of(rust_type@),
{
    if str_eq(rust_type, "u8") || str_eq(rust_type, "u16") || str_eq(rust_type, "u32") || str_eq(
        rust_type,
        "u64",
    ) || str_eq(rust_type, "u128") || str_eq(rust_type, "usize") {
        String::from_str("{\"type\":\"integer\",\"minimum\":0}")
    } else if str_eq(rust_type, "i8") || str_eq(rust_type, "i16") || str_eq(rust_type, "i32")
        || str_eq(rust_type, "i64") || str_eq(rust_type, "i128") || str_eq(rust_type, "isize") {
        String::from_str("{\"type\":\"integer\"}")
    } else if str_eq(rust_type, "bool") {
        String::from_str("{\"type\":\"boolean\"}")
    } else if str_eq(rust_type, "String") {
        String::from_str("{\"type\":\"string\"}")
    } else if str_starts_with(rust_type, "Pubkey") || str_contains(rust_type, "Pubkey") {
        String::from_str(
            "{\"type\":\"string\",\"format\":\"solana-pubkey\",\"description\":\"Base58-encoded 32-byte public key\"}",
        )
    } else if str_starts_with(rust_type, "[u8;") {
        String::from_str("{\"type\":\"string\",\"contentEncoding\":\"base64\"}")
    } else if str_starts_with(rust_type, "Vec<u8>") {
        String::from_str("{\"type\":\"string\",\"contentEncoding\":\"base64\"}")
    } else {
        String::from_str("{\"type\":\"string\"}")
    }
}

/// The byte size of a fixed-width Rust type, or `None` for variable-size or
/// unknown types.  A `[u8;N]` array's size is its parsed element count.
pub open spec fn type_size_of(t: Seq<char>) -> Option<int> {
    if t == "u8"@ || t == "i8"@ || t == "bool"@ {
        Some(1int)
    } else if t == "u16"@ || t == "i16"@ {
        Some(2int)
    } else if t == "u32"@ || t == "i32"@ {
        Some(4int)
    } else if t == "u64"@ || t == "i64"@ {
        Some(8int)
    } else if t == "u128"@ || t == "i128"@ {
        Some(16int)
    } else if has_prefix(t, "Pubkey"@) || contains_seq(t, "Pubkey"@) {
        Some(32int)
    } else if has_prefix(t, "[u8;"@) {
        let inner = trim_spec(
            crate::client::strip_all(strip_prefix_all(t, "[u8;"@), "]"@),
        );
        parse_uint_spec(inner, usize::MAX as int)
    } else {
        None
    }
}

/// Get the byte size of a fixed-width Rust type.
pub fn get_type_size(rust_type: &str) -> (r: Option<usize>)
    ensures
        r matches Some(v) ==> type_size_of(rust_type@) == Some(v as int),
        r is None ==> type_size_of(rust_type@) is None,
{
    if str_eq(rust_type, "u8") || str_eq(rust_type, "i8") || str_eq(rust_type, "bool") {
        Some(1)
    } else if str_eq(rust_type, "u16") || str_eq(rust_type, "i16") {
        Some(2)
    } else if str_eq(rust_type, "u32") || str_eq(rust_type, "i32") {
        Some(4)
    } else if str_eq(rust_type, "u64") || str_eq(rust_type, "i64") {
        Some(8)
    } else if str_eq(rust_type, "u128") || str_eq(rust_type, "i128") {
        Some(16)
    } else if str_starts_with(rust_type, "Pubkey") || str_contains(rust_type, "Pubkey") {
        Some(32)
    } else if str_starts_with(rust_type, "[u8;") {
        let inner0 = str_strip_prefix_all(rust_type, "[u8;");
        let inner1 = crate::client::strip_suffix_all(inner0, "]");
        let inner = str_trim(inner1);
        crate::builder::parse_usize(inner)
    } else {
        None
    }
}

/// The expected instruction-data length of a fixed-width argument list: the
/// 8-byte discriminator plus each argument's size; `None` when some argument
/// is variable-size or the total leaves `usize`.
pub open spec fn expected_len_of(tys: Seq<Seq<char>>) -> Option<int>
    decreases tys.len(),
{
    if tys.len() == 0 {
        Some(8int)
    } else {
        match (expected_len_of(tys.drop_last()), type_size_of(tys.last())) {
            (Some(t), Some(sz)) => {
                if t + sz <= usize::MAX as int {
                    Some(t + sz)
                } else {
                    None
                }
            },
            _ => None,
        }
    }
}

/// The Rust types of an argument list.
pub open spec fn arg_types_of(args: Seq<ArgInfo>) -> Seq<Seq<char>> {
    args.map_values(|a: ArgInfo| a.rust_type@)
}

/// Calculate the total expected instruction-data length for fixed-width
/// arguments, including the 8-byte discriminator.
pub fn calculate_expected_len(args: &[ArgInfo]) -> (r: Option<usize>)
    ensures
        r matches Some(v) ==> expected_len_of(arg_types_of(args@)) == Some(v as int),
        r is None ==> expected_len_of(arg_types_of(args@)) is None,
{
    let ghost tys = arg_types_of(args@);
    let mut total: usize = 8;
    let n = args.len();
    let mut i: usize = 0;
    proof {
        assert(tys.take(0) =~= Seq::<Seq<char>>::empty());
    }
    while i < n
        invariant
            n == args@.len(),
            i <= n,
            tys == arg_types_of(args@),
            expected_len_of(tys.take(i as int)) == Some(total as int),
        decreases n - i,
    {
        proof {
            assert(tys.take(i + 1).drop_last() =~= tys.take(i as int));
            assert(tys.take(i + 1).last() == args@[i as int].rust_type@);
        }
        match get_type_size(args[i].rust_type.as_str()) {
            Some(size) => {
                if total > usize::MAX - size {
                    proof {
                        lemma_expected_len_none(tys, i + 1);
                    }
                    return None;
                }
                total = total + size;
            },
            None => {
                proof {
                    lemma_expected_len_none(tys, i + 1);
                }
                return None;
            },
        }
        i = i + 1;
    }
    proof {
        assert(tys.take(n as int) =~= tys);
    }
    Some(total)
}

/// Once a prefix has no expected length, the whole list has none.
proof fn lemma_expected_len_none(tys: Seq<Seq<char>>, k: int)
    requires
        0 <= k <= tys.len(),
        expected_len_of(tys.take(k)) is None,
    ensures
        expected_len_of(tys) is None,
    decreases tys.len() - k,
{
    if k < tys.len() {
        assert(tys.take(k + 1).drop_last() =~= tys.take(k));
        lemma_expected_len_none(tys, k + 1);
    } else {
        assert(tys.take(k) =~= tys);
    }
}

/// The byte offsets of fixed-width arguments, each after the discriminator
/// and its predecessors; `None` when some argument is variable-size or an
/// offset leaves `usize`.
pub open spec fn arg_offsets_of(tys: Seq<Seq<char>>) -> Option<Seq<int>>
    decreases tys.len(),
{
    if tys.len() == 0 {
        Some(Seq::empty())
    } else {
        match (arg_offsets_of(tys.drop_last()), expected_len_of(tys.drop_last())) {
            (Some(offs), Some(e)) => {
                if type_size_of(tys.last()) is Some && expected_len_of(tys) is Some {
                    Some(offs.push(e))
                } else {
                    None
                }
            },
            _ => None,
        }
    }
}

/// Calculate compile-time offsets for each fixed-width argument.
pub fn calculate_arg_offsets(args: &[ArgInfo]) -> (r: Option<Vec<usize>>)
    ensures
        r matches Some(v) ==> arg_offsets_of(arg_types_of(args@)) matches Some(offs) && v@.len()
            == offs.len() && (forall|k: int| 0 <= k < offs.len() ==> (#[trigger] v@[k]) as int
            == offs[k]),
        r is None ==> arg_offsets_of(arg_types_of(args@)) is None,
{
    let ghost tys = arg_types_of(args@);
    let mut offsets: Vec<usize> = Vec::new();
    let mut offset: usize = 8;
    let n = args.len();
    let mut i: usize = 0;
    proof {
        assert(tys.take(0) =~= Seq::<Seq<char>>::empty());
    }
    while i < n
        invariant
            n == args@.len(),
            i <= n,
            tys == arg_types_of(args@),
            expected_len_of(tys.take(i as int)) == Some(offset as int),
            arg_offsets_of(tys.take(i as int)) matches Some(offs) && offsets@.len() == offs.len()
                && (forall|k: int| 0 <= k < offs.len() ==> (#[trigger] offsets@[k]) as int
                == offs[k]),
        decreases n - i,
    {
        proof {
            assert(tys.take(i + 1).drop_last() =~= tys.take(i as int));
            assert(tys.take(i + 1).last() == args@[i as int].rust_type@);
        }
        offsets.push(offset);
        match get_type_size(args[i].rust_type.as_str()) {
            Some(size) => {
                if offset > usize::MAX - size {
                    proof {
                        lemma_arg_offsets_none(tys, i + 1);
                    }
                    return None;
                }
                offset = offset + size;
            },
            None => {
                proof {
                    lemma_arg_offsets_none(tys, i + 1);
                }
                return None;
            },
        }
        i = i + 1;
    }
    proof {
        assert(tys.take(n as int) =~= tys);
    }
    Some(offsets)
}

/// Once a prefix has no offsets, the whole list has none.
proof fn lemma_arg_offsets_none(tys: Seq<Seq<char>>, k: int)
    requires
        0 <= k <= tys.len(),
        arg_offsets_of(tys.take(k)) is None,
    ensures
        arg_offsets_of(tys) is None,
    decreases tys.len() - k,
{
    if k < tys.len() {
        assert(tys.take(k + 1).drop_last() =~= tys.take(k));
        lemma_arg_offsets_none(tys, k + 1);
    } else {
        assert(tys.take(k) =~= tys);
    }
}

} // verus!
