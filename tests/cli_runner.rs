use alloy_sol_types::SolValue;
use precompile::utils::u256_to_hex;
use precompile::{poseidon_precompile, PoseidonHash, U256, POSEIDON1_SELECTOR};

fn decimal(x: U256) -> String {
    alloy_primitives::U256::from_limbs(x.limbs).to_string()
}

#[test]
fn run_interactive_test() {
    println!("\n=== Poseidon Hash Precompile Interactive Test ===");

    let hasher = PoseidonHash::new();

    println!("\n1. Single Element Hash:");
    let input = U256::from_u64(42);
    let hash = hasher.hash_single(input).unwrap();
    println!("   Input: {}", decimal(input));
    println!("   Hash:  {}", u256_to_hex(hash));

    println!("\n2. Pair Hash:");
    let left = U256::from_u64(100);
    let right = U256::from_u64(200);
    let pair_hash = hasher.hash_pair(left, right).unwrap();
    println!("   Left:  {}", decimal(left));
    println!("   Right: {}", decimal(right));
    println!("   Hash:  {}", u256_to_hex(pair_hash));

    println!("\n3. Array Hash:");
    let array = vec![U256::from_u64(1), U256::from_u64(2), U256::from_u64(3)];
    let array_hash = hasher.hash_array(&array).unwrap();
    println!("   Array: {:?}", array);
    println!("   Hash:  {}", u256_to_hex(array_hash));

    println!("\n4. Precompile Interface Test:");
    let encoded = alloy_primitives::U256::from(999).abi_encode();
    let mut full_call = POSEIDON1_SELECTOR.to_be_bytes().to_vec();
    full_call.extend_from_slice(&encoded);

    let result = poseidon_precompile(&full_call).unwrap();
    let decoded_hash = alloy_primitives::U256::abi_decode(&result, true).unwrap();
    println!("   Precompile Input: 999");
    println!("   Precompile Hash:  0x{:x}", decoded_hash);

    println!("\n5. Field Validation Test:");
    let modulus = alloy_primitives::U256::from_limbs(hasher.params.modulus.limbs);
    let valid_element = U256 { limbs: (modulus - alloy_primitives::U256::from(1)).into_limbs() };
    let invalid_element = hasher.params.modulus;

    println!(
        "   Valid element:   {} -> {}",
        decimal(valid_element),
        hasher.validate_field_element(valid_element).is_ok()
    );
    println!(
        "   Invalid element: {} -> {}",
        decimal(invalid_element),
        hasher.validate_field_element(invalid_element).is_ok()
    );

    println!("\n=== Test Complete ===\n");
}
