use vole_zkp::zkp::{get_challenge_vec, Prover, R1CSWithMetadata, VerifyError, Verifier, R1CS};
use vole_zkp::{Fr, FrMatrix, FrVec};

fn frvec(xs: &[u128]) -> FrVec {
    FrVec(xs.iter().map(|x| Fr::from_u128(*x)).collect())
}

fn test_r1cs() -> R1CS {
    let a_rows = vec![frvec(&[1, 1, 0, 0]), frvec(&[2, 0, 0, 0])];
    let b_rows = vec![frvec(&[0, 2, 0, 0]), frvec(&[0, 0, 1, 0])];
    let c_rows = vec![frvec(&[0, 0, 1, 0]), frvec(&[0, 0, 0, 1])];
    R1CS { a_rows: FrMatrix(a_rows), b_rows: FrMatrix(b_rows), c_rows: FrMatrix(c_rows) }
}

fn test_r1cs_with_metadata() -> R1CSWithMetadata {
    R1CSWithMetadata {
        r1cs: test_r1cs(),
        public_inputs_indices: vec![0, 2],
        public_outputs_indices: vec![3],
    }
}

fn random_fr() -> Fr {
    Fr::from_u128(rand::random::<u128>()).mul(&Fr::from_u128(rand::random::<u128>()))
}

#[test]
fn circuit_satisfiability() {
    let witness = frvec(&[5, 2, 28, 280]);
    assert!(test_r1cs().witness_check(&witness));
    assert!(!test_r1cs().witness_check(&FrVec(vec![Fr::one(), Fr::zero(), Fr::zero(), Fr::one()])));
}

#[test]
fn circuit_satisfiability_proof() {
    let witness = frvec(&[5, 2, 28, 280]);
    let delta = random_fr();
    let v = FrVec((0..witness.0.len()).map(|_| random_fr()).collect());
    let u = witness.clone();
    let q = u.scalar_mul(&delta).add(&v);

    let prover = Prover { u, v: v.clone(), r1cs_with_metadata: test_r1cs_with_metadata() };
    let challenge = &Fr::from_u128(123);
    let proof = prover.prove(challenge);
    println!("proof is {:?}", proof);
    let verifier = Verifier { q, delta, r1cs_with_metadata: test_r1cs_with_metadata() };
    assert!(verifier.verify(challenge, &proof).is_ok());
    assert!(verifier.verify(&Fr::from_u128(69), &proof).is_err());
}

#[test]
fn a_wrong_witness_is_caught() {
    let witness = frvec(&[5, 2, 28, 281]);
    let delta = random_fr();
    let v = FrVec((0..4).map(|_| random_fr()).collect());
    let q = witness.scalar_mul(&delta).add(&v);
    let prover = Prover { u: witness, v, r1cs_with_metadata: test_r1cs_with_metadata() };
    let challenge = Fr::from_u128(123);
    let proof = prover.prove(&challenge);
    let verifier = Verifier { q, delta, r1cs_with_metadata: test_r1cs_with_metadata() };
    assert_eq!(verifier.verify(&challenge, &proof), Err(VerifyError::ProofInvalid));
}

#[test]
fn from_vith() {
    let u1_rows = FrMatrix(vec![frvec(&[1, 2, 3]), frvec(&[4, 5, 6])]);
    let r_rows = FrMatrix(vec![frvec(&[7, 8, 9]), frvec(&[10, 11, 12])]);
    let witness_rows = FrMatrix(vec![frvec(&[20, 21])]);
    let meta = R1CSWithMetadata {
        r1cs: R1CS {
            a_rows: FrMatrix(vec![frvec(&[0, 0, 0]), frvec(&[0, 0, 0])]),
            b_rows: FrMatrix(vec![frvec(&[0, 0, 0]), frvec(&[0, 0, 0])]),
            c_rows: FrMatrix(vec![frvec(&[0, 0, 0]), frvec(&[0, 0, 0])]),
        },
        public_inputs_indices: vec![0],
        public_outputs_indices: vec![1],
    };
    let prover = Prover::from_vith(u1_rows, r_rows, witness_rows, meta.clone());
    assert_eq!(prover.u, frvec(&[20, 21, 4, 5, 6]));
    assert_eq!(prover.v, frvec(&[7, 8, 9, 10, 11, 12]));
    let q_rows = FrMatrix(vec![frvec(&[1, 2, 3]), frvec(&[4, 5, 6])]);
    let verifier = Verifier::from_vith(q_rows, Fr::from_u128(3), meta);
    assert_eq!(verifier.q, frvec(&[1, 2, 3, 4, 5, 6]));
    assert_eq!(verifier.delta, Fr::from_u128(3));
}

#[test]
fn challenge_vector_is_geometric() {
    let c = get_challenge_vec(&Fr::from_u128(3), 4);
    assert_eq!(c, frvec(&[3, 9, 27, 81]));
    assert_eq!(get_challenge_vec(&Fr::from_u128(3), 0).0.len(), 0);
}
