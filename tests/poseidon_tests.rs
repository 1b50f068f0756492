use precompile::utils::u256_to_hex;
use precompile::{PoseidonHash, U256};
use std::time::Instant;

fn word(n: u64) -> U256 {
    U256::from_u64(n)
}

fn minus_one(x: U256) -> U256 {
    U256 { limbs: (alloy_primitives::U256::from_limbs(x.limbs) - alloy_primitives::U256::from(1)).into_limbs() }
}

#[test]
fn test_basic_functionality() {
    let hasher = PoseidonHash::new();

    let single_result = hasher.hash_single(word(42));
    assert!(single_result.is_ok());

    let pair_result = hasher.hash_pair(word(1), word(2));
    assert!(pair_result.is_ok());

    let array_result = hasher.hash_array(&[word(1), word(2), word(3)]);
    assert!(array_result.is_ok());
}

#[test]
fn test_deterministic_output() {
    let hasher = PoseidonHash::new();

    let input = word(12345);
    let result1 = hasher.hash_single(input).unwrap();
    let result2 = hasher.hash_single(input).unwrap();

    assert_eq!(result1, result2, "Hash should be deterministic");
}

#[test]
fn test_different_inputs_different_outputs() {
    let hasher = PoseidonHash::new();

    let hash1 = hasher.hash_single(word(1)).unwrap();
    let hash2 = hasher.hash_single(word(2)).unwrap();

    assert_ne!(hash1, hash2, "Different inputs should produce different hashes");
}

#[test]
fn test_field_boundaries() {
    let hasher = PoseidonHash::new();

    let max_valid = minus_one(hasher.params.modulus);
    let result = hasher.hash_single(max_valid);
    assert!(result.is_ok(), "Max valid field element should be accepted");

    let invalid = hasher.params.modulus;
    let result = hasher.hash_single(invalid);
    assert!(result.is_err(), "Field modulus should be rejected");
}

#[test]
fn test_merkle_tree_construction() {
    let hasher = PoseidonHash::new();

    let leaves = vec![word(1), word(2), word(3), word(4)];

    let mut level1 = Vec::new();
    for chunk in leaves.chunks(2) {
        if chunk.len() == 2 {
            level1.push(hasher.hash_pair(chunk[0], chunk[1]).unwrap());
        } else {
            level1.push(hasher.hash_pair(chunk[0], U256::zero()).unwrap());
        }
    }

    let root = hasher.hash_pair(level1[0], level1[1]).unwrap();

    assert_ne!(root, U256::zero());
    assert!(root.lt(&hasher.params.modulus));
}

#[test]
fn test_commitment_scheme() {
    let hasher = PoseidonHash::new();

    let secret = word(42);
    let randomness = word(12345);

    let commitment = hasher.hash_pair(secret, randomness).unwrap();

    let verification = hasher.hash_pair(secret, randomness).unwrap();
    assert_eq!(commitment, verification);

    let different_commitment = hasher.hash_pair(secret, word(54321)).unwrap();
    assert_ne!(commitment, different_commitment);
}

#[test]
fn test_array_vs_iterative_consistency() {
    let hasher = PoseidonHash::new();

    let inputs = vec![word(10), word(20), word(30)];

    let array_hash = hasher.hash_array(&inputs).unwrap();

    let mut iterative_hash = inputs[0];
    for &input in &inputs[1..] {
        iterative_hash = hasher.hash_pair(iterative_hash, input).unwrap();
    }

    assert_eq!(array_hash, iterative_hash, "Array and iterative methods should match");
}

#[test]
fn poseidon_tests_benchmark_single_hash() {
    let hasher = PoseidonHash::new();
    let input = word(12345);

    let start = Instant::now();
    for _ in 0..1000 {
        let _ = hasher.hash_single(input).unwrap();
    }
    let duration = start.elapsed();

    println!("1000 single hashes took: {:?}", duration);
    println!("Average per hash: {:?}", duration / 1000);
    println!("Last input: {}", u256_to_hex(input));
}

#[test]
fn poseidon_tests_benchmark_pair_hash() {
    let hasher = PoseidonHash::new();
    let left = word(111);
    let right = word(222);

    let start = Instant::now();
    for _ in 0..1000 {
        let _ = hasher.hash_pair(left, right).unwrap();
    }
    let duration = start.elapsed();

    println!("1000 pair hashes took: {:?}", duration);
    println!("Average per hash: {:?}", duration / 1000);
}
