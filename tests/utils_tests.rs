use precompile::entrypoint::PoseidonPrecompile;
use precompile::utils::{
    bytes_to_hex, generate_test_elements, hex_to_u256, is_valid_bn254_field_element, u256_to_hex,
};
use precompile::{PoseidonHash, U256};

#[test]
fn test_hex_conversion() {
    let value = U256::from_u64(42);
    let hex_str = u256_to_hex(value);
    let converted_back = hex_to_u256(&hex_str).unwrap();
    assert_eq!(value, converted_back);
}

#[test]
fn hex_text_of_words() {
    assert_eq!(u256_to_hex(U256::from_u64(42)), "0x2a");
    assert_eq!(u256_to_hex(U256::zero()), "0x0");
    assert_eq!(
        u256_to_hex(U256::modulus()),
        "0x30644e72e131a029b85045b68181585d2833e84879b9709143e1f593f0000001"
    );
}

#[test]
fn hex_parsing() {
    assert_eq!(hex_to_u256("0x2a"), Ok(U256::from_u64(42)));
    assert_eq!(hex_to_u256("2A"), Ok(U256::from_u64(42)));
    assert_eq!(hex_to_u256("0x"), Ok(U256::zero()));
    assert_eq!(hex_to_u256("ff_ff"), Ok(U256::from_u64(0xffff)));
    assert!(hex_to_u256("0xzz").is_err());
    assert!(hex_to_u256("0X2a").is_err());
    let too_big = format!("0x1{}", "0".repeat(64));
    assert!(hex_to_u256(&too_big).is_err());
    let max = format!("0x{}", "f".repeat(64));
    assert_eq!(hex_to_u256(&max), Ok(U256 { limbs: [u64::MAX; 4] }));
}

#[test]
fn bytes_to_hex_is_lowercase_pairs() {
    assert_eq!(bytes_to_hex(&[0x00, 0xab, 0x7f]), "00ab7f");
    assert_eq!(bytes_to_hex(&[]), "");
}

#[test]
fn field_element_check() {
    assert!(is_valid_bn254_field_element(U256::from_u64(42)));
    assert!(!is_valid_bn254_field_element(U256::modulus()));
    let p_minus_one = U256 {
        limbs: [0x43e1f593f0000000, 0x2833e84879b97091, 0xb85045b68181585d, 0x30644e72e131a029],
    };
    assert!(is_valid_bn254_field_element(p_minus_one));
}

#[test]
fn generated_elements() {
    let v = generate_test_elements(3);
    assert_eq!(v, vec![U256::from_u64(42), U256::from_u64(84), U256::from_u64(126)]);
    assert!(generate_test_elements(0).is_empty());
}

#[test]
fn host_entry_points_return_zero_on_failure() {
    let host = PoseidonPrecompile::new();
    let hasher = PoseidonHash::new();
    assert_eq!(host.hash(U256::from_u64(7)), hasher.hash_single(U256::from_u64(7)).unwrap());
    assert_eq!(host.hash(U256::modulus()), U256::zero());
    assert_eq!(
        host.hash_pair(U256::from_u64(1), U256::from_u64(2)),
        hasher.hash_pair(U256::from_u64(1), U256::from_u64(2)).unwrap()
    );
    assert_eq!(host.hash_pair(U256::modulus(), U256::from_u64(2)), U256::zero());
    assert_eq!(host.hash_pair(U256::from_u64(2), U256::modulus()), U256::zero());
}

#[test]
fn word_bytes_round_trip() {
    let x = U256 { limbs: [1, 2, 3, 4] };
    let bytes = x.to_be_word();
    assert_eq!(bytes.len(), 32);
    assert_eq!(bytes[31], 1);
    assert_eq!(bytes[0], 0);
    assert_eq!(bytes[7], 4);
    assert_eq!(U256 { limbs: alloy_primitives::U256::from_be_slice(&bytes).into_limbs() }, x);
}
