use vole_zkp::smallvole::{delta_choices, VOLE};
use vole_zkp::vecccom::expand_seed_to_Fr_vec;

#[test]
fn test_vole_works() {
    let seed0 = [9u8; 32];
    let seed1 = [2u8; 32];
    let prover_outputs = VOLE::prover_outputs(&seed0, &seed1, 100);
    // The verifier that chose a delta knows the seed at the other position.
    let verifier_outputs_0 = VOLE::verifier_outputs(false, &seed1, 100);
    let verifier_outputs_1 = VOLE::verifier_outputs(true, &seed0, 100);
    for (delta, q) in [
        (verifier_outputs_0.delta, &verifier_outputs_0.q),
        (verifier_outputs_1.delta, &verifier_outputs_1.q),
    ] {
        assert_eq!(q.len(), 100);
        for i in 0..100 {
            let u = prover_outputs.u[i];
            let v = prover_outputs.v[i];
            assert!(u.mul(&delta).add(&v).add(&q[i]).is_zero());
        }
    }
}

#[test]
fn vole_outputs_follow_the_expansions() {
    let seed0 = [1u8; 32];
    let seed1 = [3u8; 32];
    let d = delta_choices();
    assert_ne!(d[0], d[1]);
    assert_eq!(delta_choices(), d);
    let e0 = expand_seed_to_Fr_vec(seed0, 5);
    let e1 = expand_seed_to_Fr_vec(seed1, 5);
    let p = VOLE::prover_outputs(&seed0, &seed1, 5);
    let v = VOLE::verifier_outputs(true, &seed0, 5);
    assert_eq!(v.delta, d[1]);
    for i in 0..5 {
        assert_eq!(p.u[i], e0[i].add(&e1[i]));
        assert!(p.v[i].add(&e0[i].mul(&d[0])).add(&e1[i].mul(&d[1])).is_zero());
        assert_eq!(v.q[i], e0[i].mul(&d[0].sub(&d[1])));
    }
}
