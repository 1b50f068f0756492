//! Conversions between words, bytes and hexadecimal text, and a field check.
use vstd::prelude::*;
use crate::field::{U256, word_bound};
use crate::hasher::is_field_element;

verus! {

/// The lowercase hexadecimal digit for `d < 16`.
pub open spec fn hex_char(d: nat) -> char {
    seq!['0', '1', '2', '3', '4', '5', '6', '7', '8', '9', 'a', 'b', 'c', 'd', 'e', 'f'][d as int]
}

/// Two lowercase hexadecimal digits per byte, most significant digit first.
pub open spec fn hex_of_bytes(s: Seq<u8>) -> Seq<char>
    decreases s.len(),
{
    if s.len() == 0 {
        seq![]
    } else {
        hex_of_bytes(s.drop_last()) + seq![hex_char(s.last() as nat / 16), hex_char(s.last() as nat % 16)]
    }
}

/// The lowercase hexadecimal digits of `n`, without leading zeros (`"0"` for zero).
pub open spec fn hex_digits(n: nat) -> Seq<char>
    decreases n,
{
    if n < 16 {
        seq![hex_char(n)]
    } else {
        hex_digits(n / 16).push(hex_char(n % 16))
    }
}

/// The value of a hexadecimal digit of either case.
pub open spec fn hex_digit_value(c: char) -> Option<nat> {
    if '0' <= c && c <= '9' {
        Some((c as u32 - '0' as u32) as nat)
    } else if 'a' <= c && c <= 'f' {
        Some((c as u32 - 'a' as u32 + 10) as nat)
    } else if 'A' <= c && c <= 'F' {
        Some((c as u32 - 'A' as u32 + 10) as nat)
    } else {
        None
    }
}

/// The number that hexadecimal text stands for: digits of either case, with
/// `_` skipped; `None` if any other character occurs.
pub open spec fn hex_text_value(s: Seq<char>) -> Option<nat>
    decreases s.len(),
{
    if s.len() == 0 {
        Some(0)
    } else {
        match hex_text_value(s.drop_last()) {
            None => None,
            Some(v) => if s.last() == '_' {
                Some(v)
            } else {
                match hex_digit_value(s.last()) {
                    Some(d) => Some(v * 16 + d),
                    None => None,
                }
            },
        }
    }
}

/// Text with one leading `0x` removed.
pub open spec fn strip_hex_prefix(s: Seq<char>) -> Seq<char> {
    if s.len() >= 2 && s[0] == '0' && s[1] == 'x' {
        s.subrange(2, s.len() as int)
    } else {
        s
    }
}

/// Relies on `hex::encode`: two lowercase digits per byte.
#[verifier::external_body]
fn hex_encode(bytes: &[u8]) -> (r: String)
    ensures
        r@ == hex_of_bytes(bytes@),
{
    hex::encode(bytes)
}

/// Relies on `ruint`'s `LowerHex` through `format!`: `0x` and the digits of
/// the value without leading zeros.
#[verifier::external_body]
fn lower_hex_text(value: U256) -> (r: String)
    ensures
        r@ == seq!['0', 'x'] + hex_digits(value.value()),
{
    format!("0x{:x}", alloy_primitives::U256::from_limbs(value.limbs))
}

/// Relies on `ruint::Uint::from_str_radix` with radix 16: digits of either
/// case, `_` skipped, and an error on any other character or on a value of
/// 256 bits or more.
#[verifier::external_body]
fn parse_hex_text(text: &str) -> (r: Option<U256>)
    ensures
        match hex_text_value(text@) {
            Some(v) => if v < word_bound() {
                r matches Some(u) && u.value() == v
            } else {
                r is None
            },
            None => r is None,
        },
{
    match alloy_primitives::U256::from_str_radix(text, 16) {
        Ok(v) => Some(U256 { limbs: v.into_limbs() }),
        Err(_) => None,
    }
}

/// Parses hexadecimal text, with or without a leading `0x`.
pub fn hex_to_u256(hex_str: &str) -> (r: Result<U256, &'static str>)
    ensures
        match hex_text_value(strip_hex_prefix(hex_str@)) {
            Some(v) => if v < word_bound() {
                r matches Ok(u) && u.value() == v
            } else {
                r is Err
            },
            None => r is Err,
        },
{
    let n = hex_str.unicode_len();
    let clean = if n >= 2 && hex_str.get_char(0) == '0' && hex_str.get_char(1) == 'x' {
        hex_str.substring_char(2, n)
    } else {
        hex_str
    };
    match parse_hex_text(clean) {
        Some(v) => Ok(v),
        None => Err("Invalid hex string"),
    }
}

/// `0x` followed by the lowercase hexadecimal digits of `value`.
pub fn u256_to_hex(value: U256) -> (r: String)
    ensures
        r@ == seq!['0', 'x'] + hex_digits(value.value()),
{
    lower_hex_text(value)
}

/// Lowercase hexadecimal text of a byte string.
pub fn bytes_to_hex(bytes: &[u8]) -> (r: String)
    ensures
        r@ == hex_of_bytes(bytes@),
{
    hex_encode(bytes)
}

/// Whether `value` is an element of the BN254 scalar field.
pub fn is_valid_bn254_field_element(value: U256) -> (r: bool)
    ensures
        r == is_field_element(value.value()),
{
    value.lt(&U256::modulus())
}

/// The words `42, 84, ..., 42 * count`.
pub fn generate_test_elements(count: usize) -> (r: Vec<U256>)
    requires
        42 * count <= u64::MAX,
    ensures
        r@.len() == count,
        forall|i: int| 0 <= i < count ==> (#[trigger] r@[i]).value() == 42 * (i + 1),
{
    let mut out: Vec<U256> = Vec::new();
    let mut i: usize = 0;
    while i < count
        invariant
            42 * count <= u64::MAX,
            i <= count,
            out@.len() == i,
            forall|j: int| 0 <= j < i ==> (#[trigger] out@[j]).value() == 42 * (j + 1),
        decreases count - i,
    {
        out.push(U256::from_u64((i as u64 + 1) * 42));
        i = i + 1;
    }
    out
}

} // verus!
