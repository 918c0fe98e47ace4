use vole_zkp::challenges::{calc_other_challenges, calc_quicksilver_challenge, challenge_from_seed};
use vole_zkp::zkp::ZKP;
use vole_zkp::{Fr, FrMatrix, FrVec};

fn matrix() -> FrMatrix {
    FrMatrix(vec![
        FrVec(vec![Fr::from(1u64), Fr::from(2u64)]),
        FrVec(vec![Fr::from(3u64), Fr::from(4u64)]),
        FrVec(vec![Fr::from(5u64), Fr::from(6u64)]),
    ])
}

#[test]
fn challenges_are_reproducible_and_transcript_bound() {
    let comm = [4u8; 32];
    let zkp = ZKP { mul_proof: (Fr::from(10u64), Fr::from(11u64)) };
    let ins = vec![(Fr::from(1u64), Fr::from(2u64))];
    let outs = vec![(Fr::from(3u64), Fr::from(4u64))];
    let a = calc_other_challenges(&comm, &matrix(), &zkp, 8, 16, &ins, &outs);
    let b = calc_other_challenges(&comm, &matrix(), &zkp, 8, 16, &ins, &outs);
    assert_eq!(a.vith_delta, b.vith_delta);
    assert_eq!(a.delta_choices, b.delta_choices);
    assert_eq!(a.subspace_challenge, b.subspace_challenge);
    assert_eq!(a.s_challenge, b.s_challenge);
    assert_eq!(a.delta_choices.len(), 16);
    assert!(a.delta_choices.iter().all(|d| *d < 2));
    assert_eq!(a.subspace_challenge.0.len(), 8);
    assert_eq!(a.s_challenge.0.len(), 4);
    assert_ne!(a.subspace_challenge.0[..4], a.s_challenge.0[..]);

    let flipped = ZKP { mul_proof: (Fr::from(11u64), Fr::from(11u64)) };
    let c = calc_other_challenges(&comm, &matrix(), &flipped, 8, 16, &ins, &outs);
    assert_ne!(a.vith_delta, c.vith_delta);
    assert_ne!(a.subspace_challenge, c.subspace_challenge);
    let outs2 = vec![(Fr::from(3u64), Fr::from(5u64))];
    let d = calc_other_challenges(&comm, &matrix(), &zkp, 8, 16, &ins, &outs2);
    assert_ne!(a.vith_delta, d.vith_delta);
}

#[test]
fn salts_separate_challenge_vectors() {
    let x = challenge_from_seed(&[1u8, 2, 3], &[9u8], 5);
    let y = challenge_from_seed(&[1u8, 2, 3], &[8u8], 5);
    assert_eq!(x.0.len(), 5);
    assert_ne!(x, y);
    assert_eq!(x, challenge_from_seed(&[1u8, 2, 3], &[9u8], 5));
}

#[test]
fn quicksilver_challenge_depends_on_the_matrix() {
    let comm = [1u8; 32];
    let a = calc_quicksilver_challenge(&comm, &matrix());
    assert_eq!(a, calc_quicksilver_challenge(&comm, &matrix()));
    let mut m = matrix();
    m.0[2].0[1] = Fr::from(7u64);
    assert_ne!(a, calc_quicksilver_challenge(&comm, &m));
}
