//! Hexadecimal text (through the `hex` crate) and BLS keys (through
//! `blsttc`): the encodings in which dweb carries network addresses and
//! secret keys.

use vstd::prelude::*;
use vstd::string::*;

verus! {

/// The outside secret key type (`blsttc::SecretKey`), carried opaquely.
#[verifier::external_type_specification]
#[verifier::external_body]
pub struct ExSecretKey(blsttc::SecretKey);

/// The number of bytes of a BLS public key (and so of the addresses built on one).
pub const PUBLIC_KEY_BYTES: usize = 48;

/// The number of bytes of a BLS secret key.
pub const SECRET_KEY_BYTES: usize = 32;

/// A hexadecimal digit (either case).
pub open spec fn is_hex_digit(c: char) -> bool {
    ('0' <= c && c <= '9') || ('a' <= c && c <= 'f') || ('A' <= c && c <= 'F')
}

/// The value of a hexadecimal digit.
pub open spec fn hex_value(c: char) -> int {
    if '0' <= c && c <= '9' {
        c as int - '0' as int
    } else if 'a' <= c && c <= 'f' {
        c as int - 'a' as int + 10
    } else {
        c as int - 'A' as int + 10
    }
}

/// What `hex::decode` gives for a text: `None` unless it has an even number
/// of characters, all hexadecimal digits; else the bytes that consecutive
/// pairs of digits denote (high nibble first).
pub open spec fn hex_decode_spec(s: Seq<char>) -> Option<Seq<u8>> {
    if s.len() % 2 == 0 && forall|i: int| 0 <= i < s.len() ==> #[trigger] is_hex_digit(s[i]) {
        Some(Seq::new(s.len() / 2, |i: int| (hex_value(s[2 * i]) * 16 + hex_value(s[2 * i + 1])) as u8))
    } else {
        None
    }
}

/// The lower-case hexadecimal digit of a nibble.
pub open spec fn nibble_char(n: int) -> char {
    if n < 10 {
        (n + '0' as int) as char
    } else {
        (n - 10 + 'a' as int) as char
    }
}

/// What `hex::encode` gives for bytes: two lower-case digits per byte, high
/// nibble first.
pub open spec fn hex_encode_spec(b: Seq<u8>) -> Seq<char> {
    Seq::new(2 * b.len(), |i: int| if i % 2 == 0 { nibble_char(b[i / 2] as int / 16) } else { nibble_char(b[i / 2] as int % 16) })
}

/// Decodes hexadecimal text with `hex::decode` (which accepts upper- and
/// lower-case digits), giving the error's text on failure; the contract
/// restates that function: even length, hex digits only, pairs of digits
/// high nibble first. The text of its errors is not stated.
#[verifier::external_body]
pub(crate) fn hex_decode(s: &str) -> (r: Result<Vec<u8>, String>)
    ensures
        match r {
            Ok(b) => hex_decode_spec(s@) == Some(b@),
            Err(_) => hex_decode_spec(s@) is None,
        },
{
    hex::decode(s).map_err(|e| e.to_string())
}

/// Encodes bytes as lower-case hexadecimal text with `hex::encode`; the
/// contract restates that function.
#[verifier::external_body]
pub(crate) fn hex_encode(b: &[u8]) -> (r: String)
    ensures
        r@ == hex_encode_spec(b@),
{
    hex::encode(b)
}

/// Whether `blsttc::PublicKey::from_hex` accepts a text.
pub uninterp spec fn public_key_hex_valid(hex: Seq<char>) -> bool;

/// The order of the BLS12-381 scalar field: a secret key is a scalar below it.
pub open spec fn bls_scalar_modulus() -> nat {
    0x73eda753299d7d483339d80809a1d80553bda402fffe5bfeffffffff00000001nat
}

/// The value of bytes read as a big-endian number.
pub open spec fn be_value(b: Seq<u8>) -> nat
    decreases b.len(),
{
    if b.len() == 0 {
        0
    } else {
        be_value(b.drop_last()) * 256 + b.last() as nat
    }
}

/// Whether `blsttc::SecretKey::from_hex` accepts a text: hexadecimal text of
/// 32 bytes whose big-endian value is below the scalar field's order.
pub open spec fn secret_key_hex_valid(hex: Seq<char>) -> bool {
    match hex_decode_spec(hex) {
        Some(b) => b.len() == SECRET_KEY_BYTES && be_value(b) < bls_scalar_modulus(),
        None => false,
    }
}

/// The secret key that `blsttc::SecretKey::from_hex` reads from a text it accepts.
pub uninterp spec fn secret_key_of_hex(hex: Seq<char>) -> blsttc::SecretKey;

/// Checks a public key in hexadecimal text with
/// `blsttc::PublicKey::from_hex`. The contract names the outcome and states
/// what that function's source shows: it accepts only hexadecimal text of
/// 48 bytes. Which 48 bytes are a valid curve point is not stated.
#[verifier::external_body]
fn check_public_key_hex(hex: &str) -> (r: bool)
    ensures
        r == public_key_hex_valid(hex@),
        r ==> (hex_decode_spec(hex@) matches Some(b) && b.len() == PUBLIC_KEY_BYTES),
{
    blsttc::PublicKey::from_hex(hex).is_ok()
}

/// Parses a secret key with `blsttc::SecretKey::from_hex`, giving the
/// error's text on failure. The contract states what that function's source
/// shows: it decodes the text with `hex::decode`, wants 32 bytes, and
/// accepts them when their big-endian value is below the scalar field's
/// order (`Scalar::from_bytes_be`, whose check is blst's
/// `blst_scalar_fr_check`). The key it returns is named
/// (`secret_key_of_hex`); the text of its errors is not stated.
#[verifier::external_body]
pub(crate) fn secret_key_from_hex(hex: &str) -> (r: Result<blsttc::SecretKey, String>)
    ensures
        r is Ok == secret_key_hex_valid(hex@),
        r matches Ok(k) ==> k == secret_key_of_hex(hex@),
{
    blsttc::SecretKey::from_hex(hex).map_err(|e| e.to_string())
}

/// The bytes of a public key (or an address built on one) in hexadecimal
/// text, when `blsttc` accepts the text as a public key.
pub open spec fn public_key_from_hex_spec(hex: Seq<char>) -> Option<Seq<u8>> {
    if public_key_hex_valid(hex) {
        hex_decode_spec(hex)
    } else {
        None
    }
}

/// The public key (as its 48 bytes) in hexadecimal text, if valid: the text
/// is checked with `blsttc::PublicKey::from_hex` and decoded with
/// `hex::decode`.
pub fn public_key_from_hex(hex: &str) -> (r: Option<Vec<u8>>)
    ensures
        match r {
            Some(b) => public_key_from_hex_spec(hex@) == Some(b@) && b@.len() == PUBLIC_KEY_BYTES,
            None => public_key_from_hex_spec(hex@) is None,
        },
{
    if !check_public_key_hex(hex) {
        return None;
    }
    match hex_decode(hex) {
        Ok(b) => Some(b),
        Err(_) => None,
    }
}

/// The bytes of a 32-byte address (an XorName, as chunk and data addresses
/// are) in hexadecimal text.
pub open spec fn xor_name_from_hex_spec(hex: Seq<char>) -> Option<Seq<u8>> {
    match hex_decode_spec(hex) {
        Some(b) => if b.len() == 32 {
            Some(b)
        } else {
            None
        },
        None => None,
    }
}

/// The 32 bytes of a chunk or data address in hexadecimal text, if valid.
pub fn xor_name_from_hex(hex: &str) -> (r: Option<Vec<u8>>)
    ensures
        match r {
            Some(b) => xor_name_from_hex_spec(hex@) == Some(b@),
            None => xor_name_from_hex_spec(hex@) is None,
        },
{
    match hex_decode(hex) {
        Ok(b) => if b.len() == 32 {
            Some(b)
        } else {
            None
        },
        Err(_) => None,
    }
}

proof fn lemma_nibble(n: int)
    requires
        0 <= n < 16,
    ensures
        is_hex_digit(nibble_char(n)),
        hex_value(nibble_char(n)) == n,
{
}

/// Decoding the hexadecimal text of bytes gives the bytes back.
pub proof fn hex_round_trip(b: Seq<u8>)
    ensures
        hex_decode_spec(hex_encode_spec(b)) == Some(b),
{
    let s = hex_encode_spec(b);
    assert forall|i: int| 0 <= i < s.len() implies #[trigger] is_hex_digit(s[i]) by {
        let x = b[i / 2] as int;
        lemma_nibble(x / 16);
        lemma_nibble(x % 16);
    }
    let d = Seq::new(s.len() / 2, |i: int| (hex_value(s[2 * i]) * 16 + hex_value(s[2 * i + 1])) as u8);
    assert forall|i: int| 0 <= i < d.len() implies d[i] == b[i] by {
        let x = b[i] as int;
        lemma_nibble(x / 16);
        lemma_nibble(x % 16);
        assert((2 * i) / 2 == i);
        assert((2 * i + 1) / 2 == i);
        assert((2 * i) % 2 == 0);
        assert((2 * i + 1) % 2 == 1);
    }
    assert(d =~= b);
}

/// Every character of `s` is a lower-case hexadecimal digit.
pub open spec fn is_lower_hex(s: Seq<char>) -> bool {
    forall|i: int| 0 <= i < s.len() ==> ('0' <= #[trigger] s[i] && s[i] <= '9') || ('a' <= s[i] && s[i]
        <= 'f')
}

/// Encoding the bytes that lower-case hexadecimal text decodes to gives the
/// text back.
pub proof fn hex_lower_round_trip(t: Seq<char>)
    requires
        is_lower_hex(t),
        hex_decode_spec(t) is Some,
    ensures
        hex_encode_spec(hex_decode_spec(t)->0) == t,
{
    let b = hex_decode_spec(t)->0;
    let e = hex_encode_spec(b);
    assert forall|i: int| 0 <= i < t.len() implies e[i] == t[i] by {
        let j = i / 2;
        let hi = hex_value(t[2 * j]);
        let lo = hex_value(t[2 * j + 1]);
        assert(0 <= hi < 16 && 0 <= lo < 16);
        let x = hi * 16 + lo;
        assert(b[j] == x as u8);
        assert(0 <= x < 256);
        assert(b[j] as int == x);
        assert(x / 16 == hi && x % 16 == lo) by (nonlinear_arith)
            requires x == hi * 16 + lo, 0 <= lo < 16, 0 <= hi;
        if i % 2 == 0 {
            assert(2 * j == i);
        } else {
            assert(2 * j + 1 == i);
        }
    }
    assert(e =~= t);
}

} // verus!
