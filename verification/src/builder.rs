//! Call building: turn a decoded tool and caller inputs into an exact binary
//! payload and an ordered account list.
//!
//! Scalars are parsed from their textual form exactly as Rust's integer and
//! boolean parsers do (optional sign, decimal digits, no overflow) and are
//! encoded little-endian at their declared width; addresses and base64 bytes
//! go through the outside decoders behind named results.

use vstd::prelude::*;
use vstd::utf8::encode_utf8;
use crate::client::{
    is_account_spec, is_signer_spec, is_writable_spec, param_type_spec, required_params_spec,
    base_name_spec, lookup, McpClientError, ParsedSchema, ParsedSchemaV, ParsedTool, ParsedToolV,
};
use crate::hex::{hex_bytes, is_hex_string};
use crate::strutil::str_eq;

verus! {

/// The little-endian bytes of a non-negative value, `n` bytes wide.
pub open spec fn le_bytes(v: nat, n: nat) -> Seq<u8>
    decreases n,
{
    if n == 0 {
        Seq::empty()
    } else {
        seq![(v % 256) as u8] + le_bytes(v / 256, (n - 1) as nat)
    }
}

/// The two's-complement unsigned value of `v` modulo `modulus`.
pub open spec fn to_unsigned(v: int, modulus: int) -> nat
    recommends
        -modulus <= 2 * v < modulus,
{
    if v >= 0 {
        v as nat
    } else {
        (v + modulus) as nat
    }
}

/// Append the `n` little-endian bytes of `v`.
fn push_le(data: &mut Vec<u8>, v: u128, n: usize)
    ensures
        final(data)@ == old(data)@ + le_bytes(v as nat, n as nat),
{
    let mut x = v;
    let mut k: usize = 0;
    proof {
        assert(data@ =~= old(data)@ + le_bytes(v as nat, 0));
    }
    while k < n
        invariant
            k <= n,
            data@.len() == old(data)@.len() + k,
            le_bytes(v as nat, n as nat) == le_bytes(v as nat, k as nat) + le_bytes(
                x as nat,
                (n - k) as nat,
            ),
            data@ == old(data)@ + le_bytes(v as nat, k as nat),
        decreases n - k,
    {
        let b = (x % 256) as u8;
        data.push(b);
        proof {
            assert(le_bytes(x as nat, (n - k) as nat) == seq![b] + le_bytes(
                (x / 256) as nat,
                (n - k - 1) as nat,
            ));
            assert(le_bytes(v as nat, (k + 1) as nat) =~= le_bytes(v as nat, k as nat) + seq![b])
                by {
                lemma_le_bytes_snoc(v as nat, x as nat, k as nat, (n - k) as nat);
            }
            assert(data@ =~= old(data)@ + le_bytes(v as nat, (k + 1) as nat));
            assert(le_bytes(v as nat, n as nat) =~= (le_bytes(v as nat, k as nat) + seq![b])
                + le_bytes((x / 256) as nat, (n - k - 1) as nat));
        }
        x = x / 256;
        k = k + 1;
    }
}

/// Splitting a little-endian rendering after `k` bytes leaves the rendering
/// of the shifted value, and one more byte moves across the split.
proof fn lemma_le_bytes_snoc(v: nat, x: nat, k: nat, m: nat)
    requires
        m > 0,
        le_bytes(v, (k + m)) == le_bytes(v, k) + le_bytes(x, m),
    ensures
        le_bytes(v, (k + 1) as nat) == le_bytes(v, k) + seq![(x % 256) as u8],
    decreases k,
{
    assert(le_bytes(x, m) == seq![(x % 256) as u8] + le_bytes(x / 256, (m - 1) as nat));
    let lhs = le_bytes(v, (k + m));
    assert(lhs.len() == k + m) by {
        lemma_le_bytes_len(v, (k + m));
    }
    assert(le_bytes(v, k).len() == k) by {
        lemma_le_bytes_len(v, k);
    }
    assert(le_bytes(v, (k + 1) as nat) =~= le_bytes(v, k) + seq![(x % 256) as u8]) by {
        lemma_le_bytes_prefix(v, (k + 1) as nat, (k + m));
        assert(le_bytes(v, (k + 1) as nat) =~= lhs.take(k + 1 as int));
        assert(lhs.take(k + 1 as int) =~= le_bytes(v, k) + seq![(x % 256) as u8]);
    }
}

/// A little-endian rendering has exactly `n` bytes.
pub proof fn lemma_le_bytes_len(v: nat, n: nat)
    ensures
        le_bytes(v, n).len() == n,
    decreases n,
{
    if n > 0 {
        lemma_le_bytes_len(v / 256, (n - 1) as nat);
    }
}

/// A shorter rendering of the same value is a prefix of a longer one.
pub proof fn lemma_le_bytes_prefix(v: nat, a: nat, b: nat)
    requires
        a <= b,
    ensures
        le_bytes(v, a) == le_bytes(v, b).take(a as int),
    decreases a,
{
    lemma_le_bytes_len(v, a);
    lemma_le_bytes_len(v, b);
    if a > 0 {
        lemma_le_bytes_prefix(v / 256, (a - 1) as nat, (b - 1) as nat);
        assert(le_bytes(v, a) =~= le_bytes(v, b).take(a as int));
    } else {
        assert(le_bytes(v, a) =~= le_bytes(v, b).take(0));
    }
}

/// A decimal digit.
pub open spec fn is_digit(c: char) -> bool {
    '0' <= c && c <= '9'
}

/// Every character is a digit, and there is at least one.
pub open spec fn all_digits(s: Seq<char>) -> bool {
    s.len() > 0 && (forall|i: int| 0 <= i < s.len() ==> is_digit(#[trigger] s[i]))
}

/// The value of a digit string.
pub open spec fn digits_val(s: Seq<char>) -> int
    decreases s.len(),
{
    if s.len() == 0 {
        0
    } else {
        digits_val(s.drop_last()) * 10 + (s.last() as int - '0' as int)
    }
}

/// Digit strings have non-negative values that grow with their prefixes.
pub proof fn lemma_digits_val_bounds(s: Seq<char>)
    requires
        forall|i: int| 0 <= i < s.len() ==> is_digit(#[trigger] s[i]),
    ensures
        digits_val(s) >= 0,
        forall|k: int| 0 <= k <= s.len() ==> digits_val(s.take(k)) <= digits_val(s),
    decreases s.len(),
{
    if s.len() == 0 {
        assert(forall|k: int| 0 <= k <= s.len() ==> s.take(k) =~= s);
    } else {
        lemma_digits_val_bounds(s.drop_last());
        assert(digits_val(s) >= digits_val(s.drop_last()));
        assert forall|k: int| 0 <= k <= s.len() implies digits_val(s.take(k)) <= digits_val(
            s,
        ) by {
            if k < s.len() {
                assert(s.take(k) =~= s.drop_last().take(k));
            } else {
                assert(s.take(k) =~= s);
            }
        }
    }
}

/// The value a textual unsigned integer stands for: an optional `+` sign,
/// then decimal digits, no larger than `max`.
pub open spec fn parse_uint_spec(s: Seq<char>, max: int) -> Option<int> {
    let body = if s.len() > 0 && s[0] == '+' {
        s.skip(1)
    } else {
        s
    };
    if all_digits(body) && digits_val(body) <= max {
        Some(digits_val(body))
    } else {
        None
    }
}

/// The value a textual signed integer stands for: an optional sign, then
/// decimal digits, within `[min, max]`.
pub open spec fn parse_int_spec(s: Seq<char>, min: int, max: int) -> Option<int> {
    if s.len() > 0 && s[0] == '-' {
        let body = s.skip(1);
        if all_digits(body) && -digits_val(body) >= min {
            Some(-digits_val(body))
        } else {
            None
        }
    } else {
        let body = if s.len() > 0 && s[0] == '+' {
            s.skip(1)
        } else {
            s
        };
        if all_digits(body) && digits_val(body) <= max {
            Some(digits_val(body))
        } else {
            None
        }
    }
}

/// Accumulate the value of the digit string `s[from..]`, given the value of
/// the part before `from`; `None` when a non-digit appears or the value
/// leaves `u128`.
fn digits_val_exec(s: &str, from: usize) -> (r: Option<u128>)
    requires
        from <= s@.len(),
        from < s@.len(),
    ensures
        r matches Some(v) ==> all_digits(s@.skip(from as int)) && v as int == digits_val(
            s@.skip(from as int),
        ),
        r is None ==> !(all_digits(s@.skip(from as int)) && digits_val(s@.skip(from as int))
            <= u128::MAX as int),
{
    let n = s.unicode_len();
    let ghost body = s@.skip(from as int);
    let mut acc: u128 = 0;
    let mut i = from;
    proof {
        assert(body.take(0) =~= Seq::<char>::empty());
    }
    while i < n
        invariant
            from <= i <= n,
            n == s@.len(),
            from < n,
            body == s@.skip(from as int),
            forall|m: int| 0 <= m < i - from ==> is_digit(#[trigger] body[m]),
            acc as int == digits_val(body.take(i - from)),
        decreases n - i,
    {
        let c = s.get_char(i);
        if !('0' <= c && c <= '9') {
            assert(body[i - from] == c);
            return None;
        }
        let d = (c as u8 - '0' as u8) as u128;
        if acc > (u128::MAX - d) / 10 {
            proof {
                assert(acc * 10 + d > u128::MAX) by (nonlinear_arith)
                    requires
                        acc > (u128::MAX - d) / 10,
                        d <= 9,
                ;
                assert(body.take(i - from + 1).drop_last() =~= body.take(i - from));
                assert(body.take(i - from + 1).last() == c);
                assert(digits_val(body.take(i - from + 1)) > u128::MAX as int);
                if all_digits(body) {
                    lemma_digits_val_bounds(body);
                    assert(digits_val(body.take(i - from + 1)) <= digits_val(body));
                }
            }
            return None;
        }
        proof {
            assert(acc * 10 + d <= u128::MAX) by (nonlinear_arith)
                requires
                    acc <= (u128::MAX - d) / 10,
                    d <= 9,
            ;
            assert(body.take(i - from + 1).drop_last() =~= body.take(i - from));
            assert(body.take(i - from + 1).last() == body[i - from]);
            assert(body[i - from] == c);
        }
        acc = acc * 10 + d;
        i = i + 1;
    }
    proof {
        assert(body.take(n - from) =~= body);
    }
    Some(acc)
}

/// Parse a textual unsigned integer bounded by `max`, as Rust's unsigned
/// parsers do.
fn parse_uint_exec(s: &str, max: u128) -> (r: Option<u128>)
    ensures
        r matches Some(v) ==> parse_uint_spec(s@, max as int) == Some(v as int),
        r is None ==> parse_uint_spec(s@, max as int) is None,
{
    let n = s.unicode_len();
    if n == 0 {
        return None;
    }
    let from: usize = if s.get_char(0) == '+' {
        1
    } else {
        0
    };
    let ghost body = if s@.len() > 0 && s@[0] == '+' {
        s@.skip(1)
    } else {
        s@
    };
    proof {
        if from == 0 {
            assert(s@.skip(0) =~= s@);
        }
    }
    if from >= n {
        return None;
    }
    match digits_val_exec(s, from) {
        Some(v) => {
            if v <= max {
                Some(v)
            } else {
                proof {
                    if all_digits(body) {
                        lemma_digits_val_bounds(body);
                    }
                }
                None
            }
        },
        None => {
            proof {
                if all_digits(body) && digits_val(body) <= max as int {
                    lemma_digits_val_bounds(body);
                }
            }
            None
        },
    }
}

/// Parse a textual signed integer within `[min, max]`, as Rust's signed
/// parsers do.  `mag_min` is the magnitude of `min`.
fn parse_int_exec(s: &str, mag_min: u128, max: u128) -> (r: Option<(bool, u128)>)
    requires
        mag_min >= 1,
    ensures
        r matches Some((neg, m)) ==> {
            &&& parse_int_spec(s@, -(mag_min as int), max as int) == Some(
                if neg {
                    -(m as int)
                } else {
                    m as int
                },
            )
            &&& (neg ==> m <= mag_min)
            &&& (!neg ==> m <= max)
        },
        r is None ==> parse_int_spec(s@, -(mag_min as int), max as int) is None,
{
    let n = s.unicode_len();
    if n == 0 {
        return None;
    }
    if s.get_char(0) == '-' {
        if n == 1 {
            return None;
        }
        match digits_val_exec(s, 1) {
            Some(v) => {
                if v <= mag_min {
                    Some((true, v))
                } else {
                    None
                }
            },
            None => {
                proof {
                    let body = s@.skip(1);
                    if all_digits(body) && -digits_val(body) >= -(mag_min as int) {
                        lemma_digits_val_bounds(body);
                    }
                }
                None
            },
        }
    } else {
        match parse_uint_exec(s, max) {
            Some(v) => Some((false, v)),
            None => None,
        }
    }
}

/// Parse a textual `usize`, as Rust's unsigned parsers do.
pub fn parse_usize(s: &str) -> (r: Option<usize>)
    ensures
        r matches Some(v) ==> parse_uint_spec(s@, usize::MAX as int) == Some(v as int),
        r is None ==> parse_uint_spec(s@, usize::MAX as int) is None,
{
    match parse_uint_exec(s, usize::MAX as u128) {
        Some(v) => Some(v as usize),
        None => None,
    }
}

/// What the outside base64 decoder (standard alphabet) returns for a text:
/// the result depends on the text alone.
pub uninterp spec fn b64_decode_of(s: Seq<char>) -> Option<Seq<u8>>;

/// Relies on `base64::Engine::decode` with the standard engine: decodes the
/// text or fails, a function of the text alone.
#[verifier::external_body]
fn base64_decode(s: &str) -> (r: Option<Vec<u8>>)
    ensures
        r matches Some(v) ==> b64_decode_of(s@) == Some(v@),
        r is None ==> b64_decode_of(s@) is None,
{
    base64::Engine::decode(&base64::engine::general_purpose::STANDARD, s).ok()
}

/// What the outside base58 address parser returns for a text: 32 bytes or a
/// failure, a function of the text alone.
pub uninterp spec fn base58_pubkey_of(s: Seq<char>) -> Option<Seq<u8>>;

/// Relies on `solana_pubkey::Pubkey::from_str`: base58 decoding to exactly
/// 32 bytes, a function of the text alone.
#[verifier::external_body]
fn parse_pubkey_bytes(s: &str) -> (r: Option<[u8; 32]>)
    ensures
        r matches Some(v) ==> base58_pubkey_of(s@) == Some(v@),
        r is None ==> base58_pubkey_of(s@) is None,
{
    match <solana_pubkey::Pubkey as core::str::FromStr>::from_str(s) {
        Ok(p) => Some(p.to_bytes()),
        Err(_) => None,
    }
}

/// A 32-byte account address.
#[derive(Clone, Copy, Debug)]
pub struct Pubkey {
    /// The raw address bytes
    pub bytes: [u8; 32],
}

impl View for Pubkey {
    type V = Seq<u8>;

    open spec fn view(&self) -> Seq<u8> {
        self.bytes@
    }
}

impl Pubkey {
    /// An address from its raw bytes.
    pub fn new(bytes: [u8; 32]) -> (r: Self)
        ensures
            r@ == bytes@,
    {
        Pubkey { bytes }
    }

    /// Parse an address from its textual base58 form.
    pub fn parse(s: &str) -> (r: Option<Self>)
        ensures
            r matches Some(p) ==> base58_pubkey_of(s@) == Some(p@),
            r is None ==> base58_pubkey_of(s@) is None,
    {
        match parse_pubkey_bytes(s) {
            Some(b) => Some(Pubkey { bytes: b }),
            None => None,
        }
    }

    /// The raw address bytes.
    pub fn to_bytes(&self) -> (r: [u8; 32])
        ensures
            r@ == self@,
    {
        self.bytes
    }
}

/// Spec-level account entry of a built instruction.
pub struct InstrAccountV {
    pub pubkey: Seq<u8>,
    pub is_signer: bool,
    pub is_writable: bool,
}

/// One account entry of a built instruction, in positional order.
pub struct InstructionAccount {
    /// The resolved address
    pub pubkey: Pubkey,
    /// Whether this account must sign
    pub is_signer: bool,
    /// Whether this account is written
    pub is_writable: bool,
}

impl View for InstructionAccount {
    type V = InstrAccountV;

    open spec fn view(&self) -> InstrAccountV {
        InstrAccountV {
            pubkey: self.pubkey@,
            is_signer: self.is_signer,
            is_writable: self.is_writable,
        }
    }
}

/// Spec-level built instruction.
pub struct InstructionV {
    pub program_id: Seq<u8>,
    pub accounts: Seq<InstrAccountV>,
    pub data: Seq<u8>,
}

/// A built instruction: target id, ordered account list, binary payload.
pub struct Instruction {
    /// The target program
    pub program_id: Pubkey,
    /// Accounts in authoritative positional order
    pub accounts: Vec<InstructionAccount>,
    /// The payload: discriminator, then the encoded arguments in order
    pub data: Vec<u8>,
}

impl View for Instruction {
    type V = InstructionV;

    open spec fn view(&self) -> InstructionV {
        InstructionV {
            program_id: self.program_id@,
            accounts: Seq::new(self.accounts@.len(), |i: int| self.accounts@[i]@),
            data: self.data@,
        }
    }
}

/// The first index satisfying `p`, or -1.
pub open spec fn find_first<A>(s: Seq<A>, p: spec_fn(A) -> bool) -> int
    decreases s.len(),
{
    if s.len() == 0 {
        -1
    } else if p(s[0]) {
        0
    } else {
        let r = find_first(s.skip(1), p);
        if r < 0 {
            -1
        } else {
            r + 1
        }
    }
}

/// `find_first` returns the first satisfying index, or -1 when none does.
pub proof fn lemma_find_first<A>(s: Seq<A>, p: spec_fn(A) -> bool)
    ensures
        find_first(s, p) == -1 ==> forall|m: int| 0 <= m < s.len() ==> !p(#[trigger] s[m]),
        find_first(s, p) != -1 ==> {
            &&& 0 <= find_first(s, p) < s.len()
            &&& p(s[find_first(s, p)])
            &&& forall|m: int| 0 <= m < find_first(s, p) ==> !p(#[trigger] s[m])
        },
    decreases s.len(),
{
    if s.len() > 0 && !p(s[0]) {
        lemma_find_first(s.skip(1), p);
        assert(forall|m: int| 1 <= m < s.len() ==> s[m] == s.skip(1)[m - 1]);
    }
}

/// The predicate that resolves an account entry by base or exact key.
pub open spec fn acc_pred(base: Seq<char>, full: Seq<char>) -> spec_fn((Seq<char>, Seq<u8>)) -> bool {
    |a: (Seq<char>, Seq<u8>)| a.0 == base || a.0 == full
}

/// The predicate that finds a caller argument by exact key.
pub open spec fn arg_pred(name: Seq<char>) -> spec_fn((Seq<char>, Seq<char>)) -> bool {
    |a: (Seq<char>, Seq<char>)| a.0 == name
}

/// The predicate that finds a tool by name.
pub open spec fn tool_pred(name: Seq<char>) -> spec_fn(ParsedToolV) -> bool {
    |t: ParsedToolV| t.name == name
}

/// How an argument encoding can fail.
pub enum ArgErrV {
    BadValue,
    BadPubkey,
}

/// The binary encoding of one argument value under its declared type:
/// every integer type of the catalog, `u8` through `u128` and `i8` through
/// `i128`, fixed-width little-endian (1/2/4/8/16 bytes); booleans one byte;
/// addresses 32 raw bytes; strings and unrecognized types length-prefixed
/// text; `bytes` length-prefixed base64-decoded data.
pub open spec fn encode_arg(ty: Seq<char>, v: Seq<char>) -> Result<Seq<u8>, ArgErrV> {
    if ty == "int"@ || ty == "u64"@ {
        match parse_uint_spec(v, u64::MAX as int) {
            Some(n) => Ok(le_bytes(n as nat, 8)),
            None => Err(ArgErrV::BadValue),
        }
    } else if ty == "u8"@ {
        match parse_uint_spec(v, u8::MAX as int) {
            Some(n) => Ok(le_bytes(n as nat, 1)),
            None => Err(ArgErrV::BadValue),
        }
    } else if ty == "u16"@ {
        match parse_uint_spec(v, u16::MAX as int) {
            Some(n) => Ok(le_bytes(n as nat, 2)),
            None => Err(ArgErrV::BadValue),
        }
    } else if ty == "u32"@ {
        match parse_uint_spec(v, u32::MAX as int) {
            Some(n) => Ok(le_bytes(n as nat, 4)),
            None => Err(ArgErrV::BadValue),
        }
    } else if ty == "u128"@ {
        match parse_uint_spec(v, u128::MAX as int) {
            Some(n) => Ok(le_bytes(n as nat, 16)),
            None => Err(ArgErrV::BadValue),
        }
    } else if ty == "i8"@ {
        match parse_int_spec(v, i8::MIN as int, i8::MAX as int) {
            Some(n) => Ok(le_bytes(to_unsigned(n, 0x100), 1)),
            None => Err(ArgErrV::BadValue),
        }
    } else if ty == "i16"@ {
        match parse_int_spec(v, i16::MIN as int, i16::MAX as int) {
            Some(n) => Ok(le_bytes(to_unsigned(n, 0x10000), 2)),
            None => Err(ArgErrV::BadValue),
        }
    } else if ty == "i32"@ {
        match parse_int_spec(v, i32::MIN as int, i32::MAX as int) {
            Some(n) => Ok(le_bytes(to_unsigned(n, 0x100000000), 4)),
            None => Err(ArgErrV::BadValue),
        }
    } else if ty == "i64"@ {
        match parse_int_spec(v, i64::MIN as int, i64::MAX as int) {
            Some(n) => Ok(le_bytes(to_unsigned(n, 0x10000000000000000), 8)),
            None => Err(ArgErrV::BadValue),
        }
    } else if ty == "i128"@ {
        match parse_int_spec(v, i128::MIN as int, i128::MAX as int) {
            Some(n) => Ok(le_bytes(to_unsigned(n, 0x10000000000000000int * 0x10000000000000000int), 16)),
            None => Err(ArgErrV::BadValue),
        }
    } else if ty == "bool"@ {
        if v == "true"@ {
            Ok(seq![1u8])
        } else if v == "false"@ {
            Ok(seq![0u8])
        } else {
            Err(ArgErrV::BadValue)
        }
    } else if ty == "pubkey"@ {
        match base58_pubkey_of(v) {
            Some(b) => Ok(b),
            None => Err(ArgErrV::BadPubkey),
        }
    } else if ty == "bytes"@ {
        match b64_decode_of(v) {
            Some(b) => Ok(le_bytes((b.len() % 0x100000000) as nat, 4) + b),
            None => Err(ArgErrV::BadValue),
        }
    } else {
        Ok(
            le_bytes((encode_utf8(v).len() % 0x100000000) as nat, 4) + encode_utf8(v),
        )
    }
}

/// The ordered account list a tool and caller inputs stand for: the
/// account-typed required parameters in declared order, each resolved by its
/// base name or exact key, with the signer/writable flags the schema
/// declares.  Fails with the first unresolvable parameter's key.
pub open spec fn build_accounts(
    t: ParsedToolV,
    accs: Seq<(Seq<char>, Seq<u8>)>,
    req: Seq<Seq<char>>,
) -> Result<Seq<InstrAccountV>, Seq<char>>
    decreases req.len(),
{
    if req.len() == 0 {
        Ok(Seq::empty())
    } else {
        match build_accounts(t, accs, req.drop_last()) {
            Ok(l) => {
                let name = req.last();
                if is_account_spec(t, name) {
                    let base = base_name_spec(name);
                    let idx = find_first(accs, acc_pred(base, name));
                    if idx < 0 {
                        Err(name)
                    } else {
                        Ok(
                            l.push(
                                InstrAccountV {
                                    pubkey: accs[idx].1,
                                    is_signer: is_signer_spec(t, name),
                                    is_writable: is_writable_spec(t, name),
                                },
                            ),
                        )
                    }
                } else {
                    Ok(l)
                }
            },
            Err(e) => Err(e),
        }
    }
}

/// How building a payload can fail, with the offending parameter key.
pub enum BuildErrV {
    NotFound(Seq<char>),
    Missing(Seq<char>),
    BadDisc,
    BadValue(Seq<char>),
    BadPubkey(Seq<char>),
}

/// The argument payload a tool and caller inputs stand for: the non-account
/// required parameters in declared order, each looked up by exact key and
/// encoded under its declared type (`str` when none is declared).  Fails
/// with the first missing or malformed argument.
pub open spec fn build_data(
    t: ParsedToolV,
    args: Seq<(Seq<char>, Seq<char>)>,
    req: Seq<Seq<char>>,
) -> Result<Seq<u8>, BuildErrV>
    decreases req.len(),
{
    if req.len() == 0 {
        Ok(Seq::empty())
    } else {
        match build_data(t, args, req.drop_last()) {
            Ok(l) => {
                let name = req.last();
                if is_account_spec(t, name) {
                    Ok(l)
                } else {
                    let ty = match param_type_spec(t, name) {
                        Some(x) => x,
                        None => "str"@,
                    };
                    let idx = find_first(args, arg_pred(name));
                    if idx < 0 {
                        Err(BuildErrV::Missing(name))
                    } else {
                        match encode_arg(ty, args[idx].1) {
                            Ok(b) => Ok(l + b),
                            Err(ArgErrV::BadValue) => Err(BuildErrV::BadValue(name)),
                            Err(ArgErrV::BadPubkey) => Err(BuildErrV::BadPubkey(name)),
                        }
                    }
                }
            },
            Err(e) => Err(e),
        }
    }
}

/// The instruction a schema, tool name and caller inputs stand for, or the
/// first error the build runs into: an unknown tool, an unresolvable
/// account, a malformed discriminator, then a missing or malformed argument.
pub open spec fn build_instruction_spec(
    schema: ParsedSchemaV,
    tool_name: Seq<char>,
    program_id: Seq<u8>,
    accounts: Seq<(Seq<char>, Seq<u8>)>,
    args: Seq<(Seq<char>, Seq<char>)>,
) -> Result<InstructionV, BuildErrV> {
    let ti = find_first(schema.tools, tool_pred(tool_name));
    if ti < 0 {
        Err(BuildErrV::NotFound(tool_name))
    } else {
        let t = schema.tools[ti];
        let req = required_params_spec(t);
        match build_accounts(t, accounts, req) {
            Err(nm) => Err(BuildErrV::Missing(nm)),
            Ok(accs) => {
                if is_hex_string(t.discriminator) && t.discriminator.len() >= 16 {
                    match build_data(t, args, req) {
                        Ok(d) => Ok(
                            InstructionV {
                                program_id,
                                accounts: accs,
                                data: hex_bytes(t.discriminator).take(8) + d,
                            },
                        ),
                        Err(e) => Err(e),
                    }
                } else {
                    Err(BuildErrV::BadDisc)
                }
            },
        }
    }
}

/// The error value that corresponds to a spec-level build failure.
pub open spec fn err_corresponds(e: McpClientError, k: BuildErrV) -> bool {
    match k {
        BuildErrV::NotFound(n) => e matches McpClientError::ToolNotFound(s) && s@ == n,
        BuildErrV::Missing(n) => e matches McpClientError::MissingParam(s) && s@ == n,
        BuildErrV::BadDisc => e matches McpClientError::ParseSchema(_),
        BuildErrV::BadValue(n) => e matches McpClientError::InvalidArg(s) && s@ == n,
        BuildErrV::BadPubkey(n) => e matches McpClientError::InvalidPubkey(s) && s@ == n,
    }
}

/// View of caller account pairs.
pub open spec fn accs_view(s: Seq<(&str, Pubkey)>) -> Seq<(Seq<char>, Seq<u8>)> {
    Seq::new(s.len(), |i: int| (s[i].0@, s[i].1@))
}

/// View of caller argument pairs.
pub open spec fn args_view(s: Seq<(&str, &str)>) -> Seq<(Seq<char>, Seq<char>)> {
    Seq::new(s.len(), |i: int| (s[i].0@, s[i].1@))
}

/// View of a required-keys vector.
pub open spec fn req_view(s: Seq<&str>) -> Seq<Seq<char>> {
    Seq::new(s.len(), |i: int| s[i]@)
}

/// A build step that errors at some prefix settles the whole fold.
proof fn lemma_build_accounts_prefix_err(
    t: ParsedToolV,
    accs: Seq<(Seq<char>, Seq<u8>)>,
    req: Seq<Seq<char>>,
    k: int,
)
    requires
        0 <= k <= req.len(),
        build_accounts(t, accs, req.take(k)) is Err,
    ensures
        build_accounts(t, accs, req) == build_accounts(t, accs, req.take(k)),
    decreases req.len() - k,
{
    if k < req.len() {
        assert(req.take(k + 1).drop_last() =~= req.take(k));
        lemma_build_accounts_prefix_err(t, accs, req, k + 1);
    } else {
        assert(req.take(k) =~= req);
    }
}

/// A data step that errors at some prefix settles the whole fold.
proof fn lemma_build_data_prefix_err(
    t: ParsedToolV,
    args: Seq<(Seq<char>, Seq<char>)>,
    req: Seq<Seq<char>>,
    k: int,
)
    requires
        0 <= k <= req.len(),
        build_data(t, args, req.take(k)) is Err,
    ensures
        build_data(t, args, req) == build_data(t, args, req.take(k)),
    decreases req.len() - k,
{
    if k < req.len() {
        assert(req.take(k + 1).drop_last() =~= req.take(k));
        lemma_build_data_prefix_err(t, args, req, k + 1);
    } else {
        assert(req.take(k) =~= req);
    }
}

/// Append the encoding of one argument value under its declared type; on
/// failure the buffer is untouched and the error says whether the address
/// parser refused (`true`) or the value itself did (`false`).
#[verifier::rlimit(100)]
fn encode_arg_exec(data: &mut Vec<u8>, ty: &str, value: &str) -> (r: Result<(), bool>)
    ensures
        r matches Ok(u) ==> encode_arg(ty@, value@) matches Ok(b) && final(data)@ == old(data)@
            + b,
        r matches Err(p) ==> {
            &&& final(data)@ == old(data)@
            &&& (p ==> encode_arg(ty@, value@) == Err::<Seq<u8>, ArgErrV>(ArgErrV::BadPubkey))
            &&& (!p ==> encode_arg(ty@, value@) == Err::<Seq<u8>, ArgErrV>(ArgErrV::BadValue))
        },
{
    if str_eq(ty, "int") || str_eq(ty, "u64") {
        match parse_uint_exec(value, 0xFFFF_FFFF_FFFF_FFFF) {
            Some(v) => {
                push_le(data, v, 8);
                Ok(())
            },
            None => Err(false),
        }
    } else if str_eq(ty, "u8") {
        match parse_uint_exec(value, 0xFF) {
            Some(v) => {
                push_le(data, v, 1);
                Ok(())
            },
            None => Err(false),
        }
    } else if str_eq(ty, "u16") {
        match parse_uint_exec(value, 0xFFFF) {
            Some(v) => {
                push_le(data, v, 2);
                Ok(())
            },
            None => Err(false),
        }
    } else if str_eq(ty, "u32") {
        match parse_uint_exec(value, 0xFFFF_FFFF) {
            Some(v) => {
                push_le(data, v, 4);
                Ok(())
            },
            None => Err(false),
        }
    } else if str_eq(ty, "u128") {
        match parse_uint_exec(value, u128::MAX) {
            Some(v) => {
                push_le(data, v, 16);
                Ok(())
            },
            None => Err(false),
        }
    } else if str_eq(ty, "i8") {
        match parse_int_exec(value, 0x80, 0x7F) {
            Some((neg, m)) => {
                let u: u128 = if m == 0 {
                    0
                } else if neg {
                    0x100 - m
                } else {
                    m
                };
                push_le(data, u, 1);
                Ok(())
            },
            None => Err(false),
        }
    } else if str_eq(ty, "i16") {
        match parse_int_exec(value, 0x8000, 0x7FFF) {
            Some((neg, m)) => {
                let u: u128 = if m == 0 {
                    0
                } else if neg {
                    0x10000 - m
                } else {
                    m
                };
                push_le(data, u, 2);
                Ok(())
            },
            None => Err(false),
        }
    } else if str_eq(ty, "i32") {
        match parse_int_exec(value, 0x8000_0000, 0x7FFF_FFFF) {
            Some((neg, m)) => {
                let u: u128 = if m == 0 {
                    0
                } else if neg {
                    0x1_0000_0000 - m
                } else {
                    m
                };
                push_le(data, u, 4);
                Ok(())
            },
            None => Err(false),
        }
    } else if str_eq(ty, "i64") {
        match parse_int_exec(value, 0x8000_0000_0000_0000, 0x7FFF_FFFF_FFFF_FFFF) {
            Some((neg, m)) => {
                let u: u128 = if m == 0 {
                    0
                } else if neg {
                    0x1_0000_0000_0000_0000 - m
                } else {
                    m
                };
                push_le(data, u, 8);
                Ok(())
            },
            None => Err(false),
        }
    } else if str_eq(ty, "i128") {
        match parse_int_exec(value, 0x8000_0000_0000_0000_0000_0000_0000_0000, 0x7FFF_FFFF_FFFF_FFFF_FFFF_FFFF_FFFF_FFFF) {
            Some((neg, m)) => {
                let u: u128 = if m == 0 {
                    0
                } else if neg {
                    (u128::MAX - m) + 1
                } else {
                    m
                };
                push_le(data, u, 16);
                Ok(())
            },
            None => Err(false),
        }
    } else if str_eq(ty, "bool") {
        if str_eq(value, "true") {
            data.push(1u8);
            assert(final(data)@ =~= old(data)@ + seq![1u8]);
            Ok(())
        } else if str_eq(value, "false") {
            data.push(0u8);
            assert(final(data)@ =~= old(data)@ + seq![0u8]);
            Ok(())
        } else {
            Err(false)
        }
    } else if str_eq(ty, "pubkey") {
        match parse_pubkey_bytes(value) {
            Some(b) => {
                data.extend_from_slice(b.as_slice());
                Ok(())
            },
            None => Err(true),
        }
    } else if str_eq(ty, "bytes") {
        match base64_decode(value) {
            Some(d) => {
                let len64 = d.len() as u64;
                push_le(data, (len64 % 0x1_0000_0000) as u128, 4);
                data.extend_from_slice(d.as_slice());
                Ok(())
            },
            None => Err(false),
        }
    } else {
        let bytes = value.as_bytes();
        let len64 = bytes.len() as u64;
        push_le(data, (len64 % 0x1_0000_0000) as u128, 4);
        data.extend_from_slice(bytes);
        Ok(())
    }
}

/// Resolve one account by base name or exact key: the first caller entry
/// under either name.
fn find_account(accounts: &[(&str, Pubkey)], base: &str, full: &str) -> (r: Option<Pubkey>)
    ensures
        ({
            let idx = find_first(accs_view(accounts@), acc_pred(base@, full@));
            match r {
                Some(p) => idx >= 0 && accs_view(accounts@)[idx].1 == p@,
                None => idx == -1,
            }
        }),
{
    let ghost accsv = accs_view(accounts@);
    let n = accounts.len();
    let mut j: usize = 0;
    while j < n
        invariant
            n == accounts@.len(),
            accsv == accs_view(accounts@),
            j <= n,
            forall|m: int| 0 <= m < j ==> !acc_pred(base@, full@)((#[trigger] accsv[m])),
        decreases n - j,
    {
        if str_eq(accounts[j].0, base) || str_eq(accounts[j].0, full) {
            proof {
                lemma_find_first(accsv, acc_pred(base@, full@));
                assert(acc_pred(base@, full@)(accsv[j as int]));
                assert(find_first(accsv, acc_pred(base@, full@)) == j);
            }
            return Some(accounts[j].1);
        }
        j = j + 1;
    }
    proof {
        lemma_find_first(accsv, acc_pred(base@, full@));
    }
    None
}

/// Look up one caller argument by exact key: the first entry under it.
fn find_arg<'a>(args: &'a [(&str, &str)], name: &str) -> (r: Option<&'a str>)
    ensures
        ({
            let idx = find_first(args_view(args@), arg_pred(name@));
            match r {
                Some(v) => idx >= 0 && args_view(args@)[idx].1 == v@,
                None => idx == -1,
            }
        }),
{
    let ghost argsv = args_view(args@);
    let n = args.len();
    let mut j: usize = 0;
    while j < n
        invariant
            n == args@.len(),
            argsv == args_view(args@),
            j <= n,
            forall|m: int| 0 <= m < j ==> !arg_pred(name@)((#[trigger] argsv[m])),
        decreases n - j,
    {
        if str_eq(args[j].0, name) {
            proof {
                lemma_find_first(argsv, arg_pred(name@));
                assert(arg_pred(name@)(argsv[j as int]));
                assert(find_first(argsv, arg_pred(name@)) == j);
            }
            return Some(args[j].1);
        }
        j = j + 1;
    }
    proof {
        lemma_find_first(argsv, arg_pred(name@));
    }
    None
}

/// View of built account entries.
pub open spec fn metas_view(s: Seq<InstructionAccount>) -> Seq<InstrAccountV> {
    Seq::new(s.len(), |i: int| s[i]@)
}

/// Resolve the account-typed required parameters to the caller's addresses,
/// in declared order.
fn resolve_accounts(
    tool: &ParsedTool,
    accounts: &[(&str, Pubkey)],
    required: &Vec<&str>,
) -> (r: Result<Vec<InstructionAccount>, McpClientError>)
    ensures
        r matches Ok(v) ==> build_accounts(tool@, accs_view(accounts@), req_view(required@))
            == Ok::<Seq<InstrAccountV>, Seq<char>>(metas_view(v@)),
        r matches Err(e) ==> build_accounts(tool@, accs_view(accounts@), req_view(required@))
            matches Err(nm) && e matches McpClientError::MissingParam(s) && s@ == nm,
{
    let ghost reqs = req_view(required@);
    let ghost accsv = accs_view(accounts@);
    let mut metas: Vec<InstructionAccount> = Vec::new();
    let n = required.len();
    let mut i: usize = 0;
    proof {
        assert(reqs.take(0) =~= Seq::<Seq<char>>::empty());
        assert(metas_view(metas@) =~= Seq::<InstrAccountV>::empty());
    }
    while i < n
        invariant
            n == required@.len(),
            reqs == req_view(required@),
            accsv == accs_view(accounts@),
            i <= n,
            build_accounts(tool@, accsv, reqs.take(i as int)) == Ok::<_, Seq<char>>(
                metas_view(metas@),
            ),
        decreases n - i,
    {
        let name = required[i];
        proof {
            assert(reqs.take(i + 1).drop_last() =~= reqs.take(i as int));
            assert(reqs.take(i + 1).last() == name@);
        }
        if tool.is_account(name) {
            let base = ParsedTool::base_name(name);
            match find_account(accounts, base, name) {
                Some(p) => {
                    let meta = InstructionAccount {
                        pubkey: p,
                        is_signer: tool.is_signer(name),
                        is_writable: tool.is_writable(name),
                    };
                    metas.push(meta);
                    proof {
                        let idx = find_first(accsv, acc_pred(base@, name@));
                        assert(metas_view(metas@) =~= (build_accounts(
                            tool@,
                            accsv,
                            reqs.take(i as int),
                        )->Ok_0).push(
                            InstrAccountV {
                                pubkey: accsv[idx].1,
                                is_signer: is_signer_spec(tool@, name@),
                                is_writable: is_writable_spec(tool@, name@),
                            },
                        ));
                    }
                },
                None => {
                    proof {
                        assert(build_accounts(tool@, accsv, reqs.take(i + 1)) == Err::<
                            Seq<InstrAccountV>,
                            _,
                        >(name@));
                        lemma_build_accounts_prefix_err(tool@, accsv, reqs, i + 1);
                    }
                    return Err(McpClientError::MissingParam(String::from_str(name)));
                },
            }
        }
        i = i + 1;
    }
    proof {
        assert(reqs.take(n as int) =~= reqs);
    }
    Ok(metas)
}

/// Encode the non-account required parameters onto the payload, in declared
/// order.
fn encode_args(
    tool: &ParsedTool,
    args: &[(&str, &str)],
    required: &Vec<&str>,
    data: &mut Vec<u8>,
) -> (r: Result<(), McpClientError>)
    ensures
        r matches Ok(u) ==> build_data(tool@, args_view(args@), req_view(required@)) matches Ok(
            d,
        ) && final(data)@ == old(data)@ + d,
        r matches Err(e) ==> build_data(tool@, args_view(args@), req_view(required@)) matches
            Err(k) && err_corresponds(e, k),
{
    let ghost reqs = req_view(required@);
    let ghost argsv = args_view(args@);
    let n = required.len();
    let mut i: usize = 0;
    proof {
        assert(reqs.take(0) =~= Seq::<Seq<char>>::empty());
        assert(data@ =~= old(data)@ + Seq::<u8>::empty());
    }
    while i < n
        invariant
            n == required@.len(),
            reqs == req_view(required@),
            argsv == args_view(args@),
            i <= n,
            build_data(tool@, argsv, reqs.take(i as int)) matches Ok(d) && data@ == old(data)@
                + d,
        decreases n - i,
    {
        let name = required[i];
        proof {
            assert(reqs.take(i + 1).drop_last() =~= reqs.take(i as int));
            assert(reqs.take(i + 1).last() == name@);
        }
        if !tool.is_account(name) {
            let ty = match tool.get_param_type(name) {
                Some(t) => t,
                None => "str",
            };
            match find_arg(args, name) {
                Some(value) => {
                    match encode_arg_exec(data, ty, value) {
                        Ok(_) => {
                            proof {
                                let prev = build_data(tool@, argsv, reqs.take(i as int))->Ok_0;
                                let b = encode_arg(ty@, value@)->Ok_0;
                                assert(data@ =~= old(data)@ + (prev + b));
                            }
                        },
                        Err(p) => {
                            proof {
                                lemma_build_data_prefix_err(tool@, argsv, reqs, i + 1);
                            }
                            if p {
                                return Err(
                                    McpClientError::InvalidPubkey(String::from_str(name)),
                                );
                            } else {
                                return Err(McpClientError::InvalidArg(String::from_str(name)));
                            }
                        },
                    }
                },
                None => {
                    proof {
                        lemma_build_data_prefix_err(tool@, argsv, reqs, i + 1);
                    }
                    return Err(McpClientError::MissingParam(String::from_str(name)));
                },
            }
        }
        i = i + 1;
    }
    proof {
        assert(reqs.take(n as int) =~= reqs);
    }
    Ok(())
}

/// The index of the first tool with the given name, if any.
fn find_tool_index(schema: &ParsedSchema, tool_name: &str) -> (r: Option<usize>)
    ensures
        ({
            let idx = find_first(schema@.tools, tool_pred(tool_name@));
            match r {
                Some(t) => idx == t && 0 <= idx < schema@.tools.len(),
                None => idx == -1,
            }
        }),
{
    let ghost toolsv = schema@.tools;
    let n = schema.tools.len();
    let mut i: usize = 0;
    while i < n
        invariant
            n == schema.tools@.len(),
            toolsv == schema@.tools,
            i <= n,
            forall|m: int| 0 <= m < i ==> !tool_pred(tool_name@)((#[trigger] toolsv[m])),
        decreases n - i,
    {
        if str_eq(schema.tools[i].name.as_str(), tool_name) {
            proof {
                lemma_find_first(toolsv, tool_pred(tool_name@));
                assert(tool_pred(tool_name@)(toolsv[i as int]));
                assert(find_first(toolsv, tool_pred(tool_name@)) == i);
            }
            return Some(i);
        }
        i = i + 1;
    }
    proof {
        lemma_find_first(toolsv, tool_pred(tool_name@));
    }
    None
}

/// Build an instruction from a decoded schema, a tool name and the caller's
/// account addresses and textual argument values.
///
/// The account list follows the declared order of the account-typed required
/// parameters; the payload is the 8-byte discriminator followed by the
/// non-account required parameters encoded under their declared types, in
/// order.  Fails with the specific error for an unknown tool, an
/// unresolvable account, a malformed discriminator, a missing argument, or a
/// value that does not parse under its type.
pub fn build_instruction(
    program_id: &Pubkey,
    tool_name: &str,
    accounts: &[(&str, Pubkey)],
    args: &[(&str, &str)],
    schema: &ParsedSchema,
) -> (r: Result<Instruction, McpClientError>)
    ensures
        match build_instruction_spec(
            schema@,
            tool_name@,
            program_id@,
            accs_view(accounts@),
            args_view(args@),
        ) {
            Ok(iv) => r matches Ok(ins) && ins@ == iv,
            Err(k) => r matches Err(e) && err_corresponds(e, k),
        },
{
    let ti = match find_tool_index(schema, tool_name) {
        Some(t) => t,
        None => { return Err(McpClientError::ToolNotFound(String::from_str(tool_name))); },
    };
    let tool = &schema.tools[ti];
    assert(tool@ == schema@.tools[ti as int]);

    let required = tool.required_params();
    proof {
        assert(req_view(required@) =~= required_params_spec(tool@));
    }

    let account_metas = match resolve_accounts(tool, accounts, &required) {
        Ok(v) => v,
        Err(e) => { return Err(e); },
    };

    let disc = match tool.discriminator_bytes() {
        Ok(d) => d,
        Err(e) => { return Err(e); },
    };

    let mut data: Vec<u8> = Vec::new();
    data.extend_from_slice(disc.as_slice());

    match encode_args(tool, args, &required, &mut data) {
        Ok(_) => {},
        Err(e) => { return Err(e); },
    }

    let ins = Instruction { program_id: *program_id, accounts: account_metas, data };
    proof {
        let iv = build_instruction_spec(
            schema@,
            tool_name@,
            program_id@,
            accs_view(accounts@),
            args_view(args@),
        )->Ok_0;
        assert(ins@.accounts =~= iv.accounts);
        assert(ins@.data =~= iv.data);
    }
    Ok(ins)
}

} // verus!
