//! VOLE with only two choices of delta.
use crate::field::{modulus, Fr};
use crate::linalg::{all_wf, fadd, fmul, fsub, vals};
use crate::vecccom::{
    blake3_hash, blake3_of, expand_seed_to_Fr_vec, expand_spec, rejection_sample_u8s, sample_spec,
    SAMPLE_ATTEMPTS,
};
use vstd::prelude::*;

verus! {

/// The bytes of "FIRST ∆".
pub open spec fn first_label() -> Seq<u8> {
    seq![0x46u8, 0x49, 0x52, 0x53, 0x54, 0x20, 0xe2, 0x88, 0x86]
}

/// The bytes of "SECOND ∆".
pub open spec fn second_label() -> Seq<u8> {
    seq![0x53u8, 0x45, 0x43, 0x4f, 0x4e, 0x44, 0x20, 0xe2, 0x88, 0x86]
}

/// The value of delta choice `k`: the hash of its label, sampled into the field.
pub open spec fn delta_spec(k: bool) -> nat {
    if k {
        sample_spec(blake3_of(second_label()), SAMPLE_ATTEMPTS as nat)
    } else {
        sample_spec(blake3_of(first_label()), SAMPLE_ATTEMPTS as nat)
    }
}

/// The two delta choices shared by every small VOLE; the same on every call.
pub fn delta_choices() -> (r: [Fr; 2])
    ensures
        r[0].wf() && r[0].val() == delta_spec(false),
        r[1].wf() && r[1].val() == delta_spec(true),
{
    let first: [u8; 9] = [0x46, 0x49, 0x52, 0x53, 0x54, 0x20, 0xe2, 0x88, 0x86];
    let second: [u8; 10] = [0x53, 0x45, 0x43, 0x4f, 0x4e, 0x44, 0x20, 0xe2, 0x88, 0x86];
    proof {
        assert(first@ =~= first_label());
        assert(second@ =~= second_label());
    }
    let d0 = rejection_sample_u8s(&blake3_hash(&first));
    let d1 = rejection_sample_u8s(&blake3_hash(&second));
    [d0, d1]
}

/// Entry of `u` made from matching entries of the two expansions.
pub open spec fn vole_u(e0: nat, e1: nat) -> nat {
    fadd(e0, e1)
}

/// Entry of `v` made from matching entries of the two expansions.
pub open spec fn vole_v(e0: nat, e1: nat) -> nat {
    fsub(0, fadd(fmul(e0, delta_spec(false)), fmul(e1, delta_spec(true))))
}

/// Entry of `q` made from an entry of the expansion the verifier knows.
pub open spec fn vole_q(idx: bool, known: nat) -> nat {
    fmul(known, fsub(delta_spec(!idx), delta_spec(idx)))
}

pub struct ProverSmallVOLEOutputs {
    pub u: Vec<Fr>,
    pub v: Vec<Fr>,
}

pub struct VerifierSmallVOLEOutputs {
    pub delta: Fr,
    pub q: Vec<Fr>,
}

pub struct VOLE;

impl VOLE {
    /// The prover's side, from the seed that realizes the first delta and the one
    /// that realizes the second.
    pub fn prover_outputs(seed1: &[u8; 32], seed2: &[u8; 32], vole_length: usize) -> (r:
        ProverSmallVOLEOutputs)
        requires
            vole_length <= usize::MAX / 4,
        ensures
            r.u@.len() == vole_length,
            r.v@.len() == vole_length,
            all_wf(r.u@),
            all_wf(r.v@),
            forall|i: int|
                0 <= i < vole_length ==> {
                    let e0 = expand_spec(seed1@, vole_length as nat)[i];
                    let e1 = expand_spec(seed2@, vole_length as nat)[i];
                    &&& (#[trigger] r.u@[i]).val() == vole_u(e0, e1)
                    &&& r.v@[i].val() == vole_v(e0, e1)
                },
    {
        let out1 = expand_seed_to_Fr_vec(*seed1, vole_length);
        let out2 = expand_seed_to_Fr_vec(*seed2, vole_length);
        let deltas = delta_choices();
        let zero = Fr::zero();
        let mut u: Vec<Fr> = Vec::with_capacity(vole_length);
        let mut v: Vec<Fr> = Vec::with_capacity(vole_length);
        let mut i: usize = 0;
        while i < vole_length
            invariant
                out1@.len() == vole_length,
                out2@.len() == vole_length,
                vals(out1@) == expand_spec(seed1@, vole_length as nat),
                vals(out2@) == expand_spec(seed2@, vole_length as nat),
                deltas[0].val() == delta_spec(false),
                deltas[1].val() == delta_spec(true),
                zero.val() == 0,
                i <= vole_length,
                u@.len() == i,
                v@.len() == i,
                all_wf(u@),
                all_wf(v@),
                forall|j: int|
                    0 <= j < i ==> {
                        let e0 = expand_spec(seed1@, vole_length as nat)[j];
                        let e1 = expand_spec(seed2@, vole_length as nat)[j];
                        &&& (#[trigger] u@[j]).val() == vole_u(e0, e1)
                        &&& v@[j].val() == vole_v(e0, e1)
                    },
            decreases vole_length - i,
        {
            let o1 = out1[i];
            let o2 = out2[i];
            assert(o1.val() == expand_spec(seed1@, vole_length as nat)[i as int]);
            assert(o2.val() == expand_spec(seed2@, vole_length as nat)[i as int]);
            u.push(o1.add(&o2));
            let s = o1.mul(&deltas[0]).add(&o2.mul(&deltas[1]));
            v.push(zero.sub(&s));
            i = i + 1;
        }
        ProverSmallVOLEOutputs { u, v }
    }

    /// The verifier's side: `idx` picks the delta, and the verifier knows the
    /// seed `seed_i_know`.
    pub fn verifier_outputs(idx: bool, seed_i_know: &[u8; 32], vole_length: usize) -> (r:
        VerifierSmallVOLEOutputs)
        requires
            vole_length <= usize::MAX / 4,
        ensures
            r.delta.wf(),
            r.delta.val() == delta_spec(idx),
            r.q@.len() == vole_length,
            all_wf(r.q@),
            forall|i: int|
                0 <= i < vole_length ==> (#[trigger] r.q@[i]).val() == vole_q(
                    idx,
                    expand_spec(seed_i_know@, vole_length as nat)[i],
                ),
    {
        let out = expand_seed_to_Fr_vec(*seed_i_know, vole_length);
        let deltas = delta_choices();
        let (delta, other_delta_minus_my_delta) = if idx {
            (deltas[1], deltas[0].sub(&deltas[1]))
        } else {
            (deltas[0], deltas[1].sub(&deltas[0]))
        };
        let mut q: Vec<Fr> = Vec::with_capacity(vole_length);
        let mut i: usize = 0;
        while i < vole_length
            invariant
                out@.len() == vole_length,
                vals(out@) == expand_spec(seed_i_know@, vole_length as nat),
                other_delta_minus_my_delta.val() == fsub(delta_spec(!idx), delta_spec(idx)),
                i <= vole_length,
                q@.len() == i,
                all_wf(q@),
                forall|j: int|
                    0 <= j < i ==> (#[trigger] q@[j]).val() == vole_q(
                        idx,
                        expand_spec(seed_i_know@, vole_length as nat)[j],
                    ),
            decreases vole_length - i,
        {
            let o = out[i];
            assert(o.val() == expand_spec(seed_i_know@, vole_length as nat)[i as int]);
            q.push(o.mul(&other_delta_minus_my_delta));
            i = i + 1;
        }
        VerifierSmallVOLEOutputs { delta, q }
    }
}

proof fn lemma_mod_parts(x: int) -> (k: int)
    ensures
        x == modulus() * k + x % (modulus() as int),
{
    vstd::arithmetic::div_mod::lemma_fundamental_div_mod(x, modulus() as int);
    x / (modulus() as int)
}

/// The small-VOLE correlation on one entry, where the verifier chose `idx` and
/// knows the seed of the other position: `u * delta + v + q == 0`, so that
/// `u * delta + v` is the negation of `q`.
pub proof fn lemma_correlation_entry(e0: nat, e1: nat, idx: bool)
    ensures
        ({
            let known = if idx {
                e0
            } else {
                e1
            };
            fadd(fadd(fmul(vole_u(e0, e1), delta_spec(idx)), vole_v(e0, e1)), vole_q(idx, known))
                == 0
        }),
{
    let p = modulus() as int;
    let d0 = delta_spec(false) as int;
    let d1 = delta_spec(true) as int;
    let (dl, dother, known) = if idx {
        (d1, d0, e0 as int)
    } else {
        (d0, d1, e1 as int)
    };
    let a0 = e0 as int;
    let a1 = e1 as int;
    let u = vole_u(e0, e1) as int;
    let k1 = lemma_mod_parts(a0 + a1);
    let x = fmul(e0, delta_spec(false)) as int;
    let k2 = lemma_mod_parts(a0 * d0);
    let y = fmul(e1, delta_spec(true)) as int;
    let k3 = lemma_mod_parts(a1 * d1);
    let s = fadd(fmul(e0, delta_spec(false)), fmul(e1, delta_spec(true))) as int;
    let k4 = lemma_mod_parts(x + y);
    let v = vole_v(e0, e1) as int;
    let k5 = lemma_mod_parts(0 - s);
    let omm = fsub(delta_spec(!idx), delta_spec(idx)) as int;
    let k6 = lemma_mod_parts(dother - dl);
    let q = vole_q(idx, known as nat) as int;
    let k7 = lemma_mod_parts(known * omm);
    let t1 = fmul(vole_u(e0, e1), delta_spec(idx)) as int;
    let k8 = lemma_mod_parts(u * dl);
    let t2 = fadd(fmul(vole_u(e0, e1), delta_spec(idx)), vole_v(e0, e1)) as int;
    let k9 = lemma_mod_parts(t1 + v);
    let t3 = fadd(
        fadd(fmul(vole_u(e0, e1), delta_spec(idx)), vole_v(e0, e1)),
        vole_q(idx, known as nat),
    ) as int;
    let k10 = lemma_mod_parts(t2 + q);
    let ud = u * dl;
    let kd = k1 * dl;
    let ko = known * k6;
    let ad = (a0 + a1) * dl;
    let kdiff = known * (dother - dl);
    let ko_full = known * omm;
    let prod0 = a0 * d0;
    let prod1 = a1 * d1;
    assert(ud == ad - p * kd) by (nonlinear_arith)
        requires
            u == a0 + a1 - p * k1,
            ud == u * dl,
            ad == (a0 + a1) * dl,
            kd == k1 * dl,
    ;
    assert(ko_full == kdiff - p * ko) by (nonlinear_arith)
        requires
            omm == dother - dl - p * k6,
            ko_full == known * omm,
            kdiff == known * (dother - dl),
            ko == known * k6,
    ;
    if idx {
        assert(ad - prod0 - prod1 + kdiff == 0) by (nonlinear_arith)
            requires
                ad == (a0 + a1) * dl,
                kdiff == known * (dother - dl),
                prod0 == a0 * d0,
                prod1 == a1 * d1,
                dl == d1,
                dother == d0,
                known == a0,
        ;
    } else {
        assert(ad - prod0 - prod1 + kdiff == 0) by (nonlinear_arith)
            requires
                ad == (a0 + a1) * dl,
                kdiff == known * (dother - dl),
                prod0 == a0 * d0,
                prod1 == a1 * d1,
                dl == d0,
                dother == d1,
                known == a1,
        ;
    }
    let c = 0 - kd - k8 + k2 + k3 + k4 - k5 - ko - k7 - k9 - k10;
    assert(u == a0 + a1 - p * k1);
    assert(x == prod0 - p * k2);
    assert(y == prod1 - p * k3);
    assert(s == x + y - p * k4);
    assert(v == 0 - s - p * k5);
    assert(omm == dother - dl - p * k6);
    assert(q == ko_full - p * k7);
    assert(t1 == ud - p * k8);
    assert(t2 == t1 + v - p * k9);
    assert(t3 == t2 + q - p * k10);
    let z = ad - prod0 - prod1 + kdiff;
    assert(z == 0);
    assert(t3 == p * c) by (nonlinear_arith)
        requires
            x == prod0 - p * k2,
            y == prod1 - p * k3,
            s == x + y - p * k4,
            v == 0 - s - p * k5,
            q == ko_full - p * k7,
            ko_full == kdiff - p * ko,
            ud == ad - p * kd,
            t1 == ud - p * k8,
            t2 == t1 + v - p * k9,
            t3 == t2 + q - p * k10,
            z == ad - prod0 - prod1 + kdiff,
            z == 0,
            c == 0 - kd - k8 + k2 + k3 + k4 - k5 - ko - k7 - k9 - k10,
    ;
    assert(0 <= t3 < p);
    assert(c == 0) by (nonlinear_arith)
        requires
            t3 == p * c,
            0 <= t3 < p,
    ;
}

/// For a prover on seeds `seed1`, `seed2` and a verifier that chose `idx` and
/// knows the seed at the other position, every entry satisfies
/// `u[i] * delta + v[i] + q[i] == 0`.
pub proof fn lemma_vole_correlation(seed1: Seq<u8>, seed2: Seq<u8>, idx: bool, n: nat)
    ensures
        forall|i: int|
            0 <= i < n ==> {
                let e0 = #[trigger] expand_spec(seed1, n)[i];
                let e1 = expand_spec(seed2, n)[i];
                let known = if idx {
                    expand_spec(seed1, n)[i]
                } else {
                    expand_spec(seed2, n)[i]
                };
                fadd(fadd(fmul(vole_u(e0, e1), delta_spec(idx)), vole_v(e0, e1)), vole_q(idx, known))
                    == 0
            },
{
    assert forall|i: int| 0 <= i < n implies {
        let e0 = #[trigger] expand_spec(seed1, n)[i];
        let e1 = expand_spec(seed2, n)[i];
        let known = if idx {
            expand_spec(seed1, n)[i]
        } else {
            expand_spec(seed2, n)[i]
        };
        fadd(fadd(fmul(vole_u(e0, e1), delta_spec(idx)), vole_v(e0, e1)), vole_q(idx, known)) == 0
    } by {
        lemma_correlation_entry(expand_spec(seed1, n)[i], expand_spec(seed2, n)[i], idx);
    }
}

} // verus!
