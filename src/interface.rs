//! The binary call interface: `selector (4 bytes) || arguments`, where the
//! arguments are the canonical ABI encoding of `poseidon1(uint256)`,
//! `poseidon2(uint256,uint256)` or `poseidonN(uint256[])`, and the result is
//! one 32-byte big-endian word.
use vstd::prelude::*;
use crate::field::{U256, be_value, field_modulus};
use crate::errors::PoseidonError;
use crate::hasher::{
    PoseidonHash, poseidon_single, poseidon_pair, poseidon_chain, is_field_element, values,
    first_invalid,
};

verus! {

/// Selector of `poseidon1(uint256)`: the first four bytes of the Keccak-256
/// hash of that signature.
pub const POSEIDON1_SELECTOR: u32 = 0x5727d155;

/// Selector of `poseidon2(uint256,uint256)`.
pub const POSEIDON2_SELECTOR: u32 = 0x6e9c433b;

/// Selector of `poseidonN(uint256[])`.
pub const POSEIDONN_SELECTOR: u32 = 0xf653802b;

/// The selector that a buffer of at least four bytes begins with.
pub open spec fn selector_of(input: Seq<u8>) -> nat {
    be_value(input.subrange(0, 4))
}

/// The argument bytes after the selector.
pub open spec fn call_data(input: Seq<u8>) -> Seq<u8> {
    input.subrange(4, input.len() as int)
}

/// The `k`-th 32-byte word of `data`, read big-endian.
pub open spec fn word(data: Seq<u8>, k: nat) -> nat {
    be_value(data.subrange(32 * k as int, 32 * k as int + 32))
}

/// Whether `data` is the canonical encoding of one dynamic `uint256[]`: the
/// offset word 32, the element count, then one word per element.
pub open spec fn is_array_encoding(data: Seq<u8>) -> bool {
    &&& data.len() >= 64
    &&& word(data, 0) == 32
    &&& data.len() == 64 + 32 * word(data, 1)
}

/// The elements of a canonical `uint256[]` encoding.
pub open spec fn array_elements(data: Seq<u8>) -> Seq<nat> {
    Seq::new(((data.len() - 64) / 32) as nat, |k: int| word(data, (k + 2) as nat))
}

/// Whether `i` is the first element of `s` that is not a field element.
pub open spec fn first_out_of_field(s: Seq<nat>, i: int) -> bool {
    &&& 0 <= i < s.len()
    &&& !is_field_element(s[i])
    &&& forall|j: int| 0 <= j < i ==> is_field_element(#[trigger] s[j])
}

/// `r` is a success that carries the 32-byte word of `h`.
pub open spec fn returns_word(r: Result<Vec<u8>, PoseidonError>, h: nat) -> bool {
    r matches Ok(out) && out@.len() == 32 && be_value(out@) == h
}

/// `r` reports the input `x` as too large for the field.
pub open spec fn reports_too_large(r: Result<Vec<u8>, PoseidonError>, x: nat) -> bool {
    r matches Err(PoseidonError::FieldElementTooLarge(w)) && w.value() == x
}

/// `r` reports a malformed argument encoding.
pub open spec fn reports_decode_error(r: Result<Vec<u8>, PoseidonError>) -> bool {
    r matches Err(PoseidonError::AbiDecodeError(_))
}

proof fn lemma_be_value_four(s: Seq<u8>)
    requires
        s.len() == 4,
    ensures
        be_value(s) == s[0] as nat * 16777216 + s[1] as nat * 65536 + s[2] as nat * 256
            + s[3] as nat,
    decreases 4nat,
{
    let s3 = s.drop_last();
    let s2 = s3.drop_last();
    let s1 = s2.drop_last();
    let s0 = s1.drop_last();
    assert(s0.len() == 0);
    assert(be_value(s0) == 0);
    assert(s1.last() == s[0] && s2.last() == s[1] && s3.last() == s[2] && s.last() == s[3]);
    assert(be_value(s1) == s[0] as nat);
    assert(be_value(s2) == s[0] as nat * 256 + s[1] as nat);
    assert(be_value(s3) == s[0] as nat * 65536 + s[1] as nat * 256 + s[2] as nat);
}

/// The selector at the start of `input`.
fn read_selector(input: &[u8]) -> (r: u32)
    requires
        input@.len() >= 4,
    ensures
        r as nat == selector_of(input@),
{
    proof {
        lemma_be_value_four(input@.subrange(0, 4));
    }
    (input[0] as u32) * 16777216 + (input[1] as u32) * 65536 + (input[2] as u32) * 256
        + (input[3] as u32)
}

/// The `k`-th word after the selector, for a buffer that holds it.
fn read_word(input: &[u8], k: usize) -> (r: U256)
    requires
        4 + 32 * k + 32 <= input@.len(),
    ensures
        r.value() == word(call_data(input@), k as nat),
{
    let len = input.len();
    let start: usize = 4 + 32 * k;
    let mut buf: Vec<u8> = Vec::new();
    let mut j: usize = 0;
    while j < 32
        invariant
            start == 4 + 32 * k,
            start + 32 <= input@.len(),
            len == input@.len(),
            j <= 32,
            buf@ =~= input@.subrange(start as int, start + j),
        decreases 32 - j,
    {
        buf.push(input[start + j]);
        j = j + 1;
    }
    proof {
        assert(call_data(input@).subrange(32 * k as int, 32 * k as int + 32) =~= buf@);
    }
    U256::from_be_slice(buf.as_slice())
}

/// Whether the word stands for the number `n`.
fn value_is(w: &U256, n: u64) -> (r: bool)
    ensures
        r == (w.value() == n as nat),
{
    w.limbs[0] == n && w.limbs[1] == 0 && w.limbs[2] == 0 && w.limbs[3] == 0
}

/// What `poseidon1(uint256)` owes for the argument bytes `data`.
pub open spec fn single_outcome(data: Seq<u8>, r: Result<Vec<u8>, PoseidonError>) -> bool {
    if data.len() != 32 {
        reports_decode_error(r)
    } else if !is_field_element(word(data, 0)) {
        reports_too_large(r, word(data, 0))
    } else {
        returns_word(r, poseidon_single(word(data, 0)))
    }
}

/// What `poseidon2(uint256,uint256)` owes for the argument bytes `data`.
pub open spec fn pair_outcome(data: Seq<u8>, r: Result<Vec<u8>, PoseidonError>) -> bool {
    if data.len() != 64 {
        reports_decode_error(r)
    } else if !is_field_element(word(data, 0)) {
        reports_too_large(r, word(data, 0))
    } else if !is_field_element(word(data, 1)) {
        reports_too_large(r, word(data, 1))
    } else {
        returns_word(r, poseidon_pair(word(data, 0), word(data, 1)))
    }
}

/// What `poseidonN(uint256[])` owes for the argument bytes `data`.
pub open spec fn array_outcome(data: Seq<u8>, r: Result<Vec<u8>, PoseidonError>) -> bool {
    let elements = array_elements(data);
    if !is_array_encoding(data) {
        reports_decode_error(r)
    } else if elements.len() == 0 {
        r == Err::<Vec<u8>, PoseidonError>(PoseidonError::InvalidInputLength(0))
    } else if forall|i: int| 0 <= i < elements.len() ==> is_field_element(#[trigger] elements[i]) {
        returns_word(r, poseidon_chain(elements))
    } else {
        forall|i: int| first_out_of_field(elements, i) ==> reports_too_large(r, elements[i])
    }
}

/// Precompile entry point: decodes the selector and the arguments, hashes,
/// and returns the result as one 32-byte big-endian word.
pub fn poseidon_precompile(input: &[u8]) -> (r: Result<Vec<u8>, PoseidonError>)
    ensures
        input@.len() < 4 ==> r == Err::<Vec<u8>, PoseidonError>(PoseidonError::InvalidSelector),
        input@.len() >= 4 && selector_of(input@) == POSEIDON1_SELECTOR ==> single_outcome(
            call_data(input@),
            r,
        ),
        input@.len() >= 4 && selector_of(input@) == POSEIDON2_SELECTOR ==> pair_outcome(
            call_data(input@),
            r,
        ),
        input@.len() >= 4 && selector_of(input@) == POSEIDONN_SELECTOR ==> array_outcome(
            call_data(input@),
            r,
        ),
        input@.len() >= 4 && selector_of(input@) != POSEIDON1_SELECTOR && selector_of(input@)
            != POSEIDON2_SELECTOR && selector_of(input@) != POSEIDONN_SELECTOR ==> r == Err::<
            Vec<u8>,
            PoseidonError,
        >(PoseidonError::InvalidSelector),
{
    if input.len() < 4 {
        return Err(PoseidonError::InvalidSelector);
    }
    let selector = read_selector(input);
    let data_len = input.len() - 4;
    let ghost data = call_data(input@);
    if selector == POSEIDON1_SELECTOR {
        call_single(input)
    } else if selector == POSEIDON2_SELECTOR {
        call_pair(input)
    } else if selector == POSEIDONN_SELECTOR {
        call_array(input)
    } else {
        Err(PoseidonError::InvalidSelector)
    }
}

/// Decodes and hashes the arguments of `poseidon1(uint256)`.
fn call_single(input: &[u8]) -> (r: Result<Vec<u8>, PoseidonError>)
    requires
        input@.len() >= 4,
    ensures
        single_outcome(call_data(input@), r),
{
    let data_len = input.len() - 4;
    let hasher = PoseidonHash::new();
    if data_len != 32 {
        return Err(PoseidonError::AbiDecodeError("expected exactly one 32-byte word".to_string()));
    }
    let x = read_word(input, 0);
    match hasher.hash_single(x) {
        Ok(h) => Ok(h.to_be_word()),
        Err(e) => Err(e),
    }
}

/// Decodes and hashes the arguments of `poseidon2(uint256,uint256)`.
fn call_pair(input: &[u8]) -> (r: Result<Vec<u8>, PoseidonError>)
    requires
        input@.len() >= 4,
    ensures
        pair_outcome(call_data(input@), r),
{
    let data_len = input.len() - 4;
    let hasher = PoseidonHash::new();
    if data_len != 64 {
        return Err(PoseidonError::AbiDecodeError("expected exactly two 32-byte words".to_string()));
    }
    let left = read_word(input, 0);
    let right = read_word(input, 1);
    match hasher.hash_pair(left, right) {
        Ok(h) => Ok(h.to_be_word()),
        Err(e) => Err(e),
    }
}

proof fn lemma_first_invalid_matches(words: Seq<U256>, elements: Seq<nat>)
    requires
        values(words) == elements,
    ensures
        forall|i: int| first_invalid(words, i) <==> first_out_of_field(elements, i),
{
    assert forall|i: int| first_invalid(words, i) <==> first_out_of_field(elements, i) by {
        if 0 <= i < words.len() {
            assert(values(words)[i] == words[i].value());
        }
        if first_invalid(words, i) {
            assert forall|j: int| 0 <= j < i implies is_field_element(#[trigger] elements[j]) by {
                assert(is_field_element(words[j].value()));
            }
        }
        if first_out_of_field(elements, i) {
            assert forall|j: int| 0 <= j < i implies is_field_element(
                #[trigger] words[j].value(),
            ) by {
                assert(is_field_element(elements[j]));
            }
        }
    }
}

/// Decodes and hashes the arguments of `poseidonN(uint256[])`.
fn call_array(input: &[u8]) -> (r: Result<Vec<u8>, PoseidonError>)
    requires
        input@.len() >= 4,
    ensures
        array_outcome(call_data(input@), r),
{
    let data_len = input.len() - 4;
    let ghost data = call_data(input@);
    let hasher = PoseidonHash::new();
    assert(data.len() == data_len);
    if data_len < 64 || (data_len - 64) % 32 != 0 {
        proof {
            if is_array_encoding(data) {
                let w1 = word(data, 1);
                assert((data_len - 64) as int == 32 * w1);
                assert(((32 * w1) as int) % 32 == 0);
            }
        }
        return Err(PoseidonError::AbiDecodeError("array encoding has the wrong length".to_string()));
    }
    let count = (data_len - 64) / 32;
    assert(64 + 32 * count == data_len);
    let offset = read_word(input, 0);
    if !value_is(&offset, 32) {
        return Err(PoseidonError::AbiDecodeError("array offset is not 32".to_string()));
    }
    let declared = read_word(input, 1);
    if !value_is(&declared, count as u64) {
        assert(!is_array_encoding(data));
        return Err(PoseidonError::AbiDecodeError("array length does not match the data".to_string()));
    }
    let ghost elements = array_elements(data);
    assert(is_array_encoding(data));
    assert(elements.len() == count);
    let mut words: Vec<U256> = Vec::new();
    let mut k: usize = 0;
    while k < count
        invariant
            data == call_data(input@),
            data.len() == data_len,
            data_len >= 64,
            data_len + 4 == input@.len(),
            64 + 32 * count == data_len,
            elements == array_elements(data),
            k <= count,
            words@.len() == k,
            forall|j: int| 0 <= j < k ==> (#[trigger] words@[j]).value() == elements[j],
        decreases count - k,
    {
        assert(4 + 32 * (k + 2) + 32 <= input@.len());
        let w = read_word(input, k + 2);
        words.push(w);
        k = k + 1;
    }
    proof {
        assert(values(words@) =~= elements);
        lemma_first_invalid_matches(words@, elements);
    }
    proof {
        if forall|i: int| 0 <= i < elements.len() ==> is_field_element(#[trigger] elements[i]) {
            assert forall|i: int| 0 <= i < words@.len() implies is_field_element(
                #[trigger] words@[i].value(),
            ) by {
                assert(is_field_element(elements[i]));
            }
        }
    }
    match hasher.hash_array(words.as_slice()) {
        Ok(h) => Ok(h.to_be_word()),
        Err(e) => Err(e),
    }
}

} // verus!
