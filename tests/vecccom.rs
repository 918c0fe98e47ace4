use vole_zkp::vecccom::{
    commit_seeds, expand_seed_to_Fr_vec, proof_for_revealed_seed, u64s_overflow_field,
    unchecked_fr_from_be_u64_slice, verify_proof_of_revealed_seed,
};
use vole_zkp::Fr;

#[test]
fn test_seed_expansion_len() {
    let seed = [0u8; 32];
    assert_eq!(expand_seed_to_Fr_vec(seed.clone(), 1).len(), 1);
    assert_eq!(expand_seed_to_Fr_vec(seed.clone(), 2).len(), 2);
    assert_eq!(expand_seed_to_Fr_vec(seed.clone(), 4).len(), 4);
    assert_eq!(expand_seed_to_Fr_vec(seed.clone(), 1000).len(), 1000);
}

#[test]
fn test_fr_from_512bits() {
    let mut x = [0u64; 4];
    x[0] = 0x30644E72E131A029;
    x[1] = 0xB85045B68181585D;
    x[2] = 0x2833E84879B97091;
    x[3] = 0x43E1F593F0000002;
    assert_eq!(unchecked_fr_from_be_u64_slice(&x), Fr::from(1u64));

    x[0] = 0x30644E72E131A029;
    x[1] = 0xB85045B68181585D;
    x[2] = 0x2833E84879B97091;
    x[3] = 0x43E1F593F0000001;
    assert_eq!(unchecked_fr_from_be_u64_slice(&x), Fr::from(0u64));

    x[0] = 0x0;
    x[1] = 0x0;
    x[2] = 0x0;
    x[3] = 0x03;
    assert_eq!(unchecked_fr_from_be_u64_slice(&x), Fr::from(3u64));
}

#[test]
fn overflow_check_is_exact_at_the_modulus() {
    let p = [0x30644E72E131A029, 0xB85045B68181585D, 0x2833E84879B97091, 0x43E1F593F0000001];
    assert!(u64s_overflow_field(&p));
    let below = [p[0], p[1], p[2], p[3] - 1];
    assert!(!u64s_overflow_field(&below));
    let above = [p[0], p[1] + 1, 0, 0];
    assert!(u64s_overflow_field(&above));
    assert!(!u64s_overflow_field(&[p[0], p[1] - 1, u64::MAX, u64::MAX]));
    assert!(u64s_overflow_field(&[u64::MAX, 0, 0, 0]));
}

#[test]
fn test_seed_commit_prove() {
    let seed0 = [5u8; 32].to_vec();
    let seed1 = [6u8; 32].to_vec();
    let commitment = commit_seeds(&seed0, &seed1);

    let proof0 = proof_for_revealed_seed(&seed1);
    let proof1 = proof_for_revealed_seed(&seed0);

    assert!(verify_proof_of_revealed_seed(&commitment, &seed0, false, &proof0));
    assert!(!verify_proof_of_revealed_seed(&commitment, &seed0, true, &proof0));

    assert!(verify_proof_of_revealed_seed(&commitment, &seed1, true, &proof1));
    assert!(!verify_proof_of_revealed_seed(&commitment, &seed1, false, &proof1));

    assert!(!verify_proof_of_revealed_seed(&commitment, &seed0, true, &proof1));
    assert!(!verify_proof_of_revealed_seed(&commitment, &seed0, false, &proof1));
}

#[test]
fn opening_fails_on_a_changed_seed_proof_or_commitment() {
    let seed0 = vec![1u8, 2, 3];
    let seed1 = vec![4u8, 5];
    let commitment = commit_seeds(&seed0, &seed1);
    assert_eq!(commitment.len(), 32);
    assert_ne!(commitment, commit_seeds(&seed1, &seed0));
    let mut proof = proof_for_revealed_seed(&seed1);
    assert!(verify_proof_of_revealed_seed(&commitment, &seed0, false, &proof));
    assert!(!verify_proof_of_revealed_seed(&commitment, &vec![1u8, 2, 4], false, &proof));
    let mut short = commitment.clone();
    short.pop();
    assert!(!verify_proof_of_revealed_seed(&short, &seed0, false, &proof));
    proof[0] ^= 1;
    assert!(!verify_proof_of_revealed_seed(&commitment, &seed0, false, &proof));
}

#[test]
fn expansion_is_deterministic_and_seed_dependent() {
    let a = expand_seed_to_Fr_vec([7u8; 32], 20);
    let b = expand_seed_to_Fr_vec([7u8; 32], 20);
    assert_eq!(a, b);
    let longer = expand_seed_to_Fr_vec([7u8; 32], 30);
    assert_eq!(a[..], longer[..20]);
    let mut other_seed = [7u8; 32];
    other_seed[31] = 8;
    let c = expand_seed_to_Fr_vec(other_seed, 20);
    assert_ne!(a, c);
    assert!(expand_seed_to_Fr_vec([7u8; 32], 0).is_empty());
    for f in a.iter() {
        assert!(f.to_repr()[0] < 0x04);
    }
}
