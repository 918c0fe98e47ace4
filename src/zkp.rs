//! R1CS circuits and the degree-2 Quicksilver prover and verifier.
use crate::field::{lemma_be_nat_injective, modulus, Fr};
use crate::linalg::{all_wf, dot_vals, fadd, fmul, fsub, vals, DotProduct, FrMatrix, FrVec};
use vstd::prelude::*;

verus! {

/// The product `w·M` of a row vector with a matrix: entry `i` is the dot product
/// of `w` with row `i`.
pub open spec fn vec_mat(w: Seq<nat>, m: FrMatrix) -> Seq<nat> {
    Seq::new(m.rows(), |i: int| dot_vals(w, vals(m.0@[i].0@)))
}

/// `c` raised to `k` in the field.
pub open spec fn fpow(c: nat, k: nat) -> nat
    decreases k,
{
    if k == 0 {
        1
    } else {
        fmul(fpow(c, (k - 1) as nat), c)
    }
}

/// `[c, c^2, ..., c^len]`.
pub open spec fn geometric(c: nat, len: nat) -> Seq<nat> {
    Seq::new(len, |i: int| fpow(c, (i + 1) as nat))
}

/// A rank-1 constraint system: one row of each matrix per constraint, one column
/// per witness entry.
#[derive(Clone, Debug)]
pub struct R1CS {
    pub a_rows: FrMatrix,
    pub b_rows: FrMatrix,
    pub c_rows: FrMatrix,
}

impl R1CS {
    /// All three matrices have `rows` rows of `cols` entries.
    pub open spec fn shaped(&self, rows: nat, cols: nat) -> bool {
        &&& self.a_rows.rows() == rows
        &&& self.b_rows.rows() == rows
        &&& self.c_rows.rows() == rows
        &&& self.a_rows.is_rect(cols)
        &&& self.b_rows.is_rect(cols)
        &&& self.c_rows.is_rect(cols)
    }

    /// The number of constraints.
    pub open spec fn constraints(&self) -> nat {
        self.a_rows.rows()
    }

    /// `(w·A) ∘ (w·B) = w·C`, entry by entry.
    pub open spec fn satisfied_by(&self, w: Seq<nat>) -> bool {
        forall|i: int|
            0 <= i < self.constraints() ==> fmul(
                #[trigger] vec_mat(w, self.a_rows)[i],
                vec_mat(w, self.b_rows)[i],
            ) == vec_mat(w, self.c_rows)[i]
    }

    /// Whether `witness` satisfies every constraint.
    pub fn witness_check(&self, witness: &FrVec) -> (r: bool)
        requires
            self.shaped(self.constraints(), witness.len()),
        ensures
            r == self.satisfied_by(vals(witness.0@)),
    {
        let wa = witness.mul_matrix(&self.a_rows);
        let wb = witness.mul_matrix(&self.b_rows);
        let wc = witness.mul_matrix(&self.c_rows);
        let lhs = wa.mul(&wb);
        let r = lhs == wc;
        proof {
            let w = vals(witness.0@);
            if r {
                assert forall|i: int| 0 <= i < self.constraints() implies fmul(
                    #[trigger] vec_mat(w, self.a_rows)[i],
                    vec_mat(w, self.b_rows)[i],
                ) == vec_mat(w, self.c_rows)[i] by {
                    assert(lhs.0@[i].repr@ == wc.0@[i].repr@);
                    assert(wa.at(i) == vec_mat(w, self.a_rows)[i]);
                    assert(wb.at(i) == vec_mat(w, self.b_rows)[i]);
                    assert(wc.at(i) == vec_mat(w, self.c_rows)[i]);
                    assert(lhs.at(i) == fmul(wa.at(i), wb.at(i)));
                }
            } else {
                let j = choose|j: int|
                    0 <= j < lhs.len() && lhs.0@[j].repr@ != wc.0@[j].repr@;
                if fmul(vec_mat(w, self.a_rows)[j], vec_mat(w, self.b_rows)[j]) == vec_mat(
                    w,
                    self.c_rows,
                )[j] {
                    assert(lhs.0@[j].wf() && wc.0@[j].wf());
                    assert(wa.at(j) == vec_mat(w, self.a_rows)[j]);
                    assert(wb.at(j) == vec_mat(w, self.b_rows)[j]);
                    assert(wc.at(j) == vec_mat(w, self.c_rows)[j]);
                    assert(lhs.at(j) == fmul(wa.at(j), wb.at(j)));
                    lemma_be_nat_injective(lhs.0@[j].repr@, wc.0@[j].repr@);
                }
            }
        }
        r
    }
}

/// An R1CS with the witness columns of its public inputs and outputs.
#[derive(Clone, Debug)]
pub struct R1CSWithMetadata {
    pub r1cs: R1CS,
    pub public_inputs_indices: Vec<usize>,
    pub public_outputs_indices: Vec<usize>,
}

/// A Quicksilver proof: one pair of field elements.
#[derive(Clone, Copy, Debug)]
pub struct ZKP {
    pub mul_proof: (Fr, Fr),
}

/// Why a proof was turned down.
#[derive(Clone, Copy, Debug, PartialEq, Eq)]
pub enum VerifyError {
    /// The Quicksilver check failed.
    ProofInvalid,
}

/// The rows of a matrix, one after another.
pub open spec fn flatten(rows: Seq<FrVec>) -> Seq<Fr>
    decreases rows.len(),
{
    if rows.len() == 0 {
        Seq::empty()
    } else {
        flatten(rows.drop_last()) + rows.last().0@
    }
}

/// Appends the entries of `b` to `v`.
fn append_frs(v: &mut Vec<Fr>, b: &Vec<Fr>)
    ensures
        final(v)@ == old(v)@ + b@,
{
    let mut i: usize = 0;
    while i < b.len()
        invariant
            i <= b@.len(),
            v@ == old(v)@ + b@.take(i as int),
        decreases b@.len() - i,
    {
        v.push(b[i]);
        i = i + 1;
        assert(b@.take(i as int) =~= b@.take(i - 1).push(b@[i - 1]));
    }
    assert(b@.take(b@.len() as int) =~= b@);
}

/// The rows of `m`, one after another.
fn flatten_rows(m: &FrMatrix) -> (r: Vec<Fr>)
    ensures
        r@ == flatten(m.0@),
{
    let mut out: Vec<Fr> = Vec::new();
    let mut i: usize = 0;
    while i < m.0.len()
        invariant
            i <= m.rows(),
            out@ == flatten(m.0@.take(i as int)),
        decreases m.rows() - i,
    {
        append_frs(&mut out, &m.0[i].0);
        proof {
            assert(m.0@.take(i + 1).drop_last() =~= m.0@.take(i as int));
        }
        i = i + 1;
    }
    assert(m.0@.take(m.rows() as int) =~= m.0@);
    out
}

/// `[challenge, challenge^2, ..., challenge^length]`.
pub fn get_challenge_vec(challenge: &Fr, length: usize) -> (r: FrVec)
    requires
        challenge.wf(),
    ensures
        r.wf(),
        r.len() == length,
        vals(r.0@) == geometric(challenge.val(), length as nat),
{
    let mut out: Vec<Fr> = Vec::with_capacity(length);
    let mut cur = *challenge;
    let mut i: usize = 0;
    proof {
        vstd::arithmetic::div_mod::lemma_small_mod(challenge.val(), modulus());
        assert(fpow(challenge.val(), 0) == 1);
        assert(fpow(challenge.val(), 1) == fmul(1, challenge.val()));
    }
    while i < length
        invariant
            challenge.wf(),
            i <= length,
            out@.len() == i,
            all_wf(out@),
            cur.wf(),
            cur.val() == fpow(challenge.val(), (i + 1) as nat),
            forall|j: int| 0 <= j < i ==> (#[trigger] out@[j]).val() == fpow(
                challenge.val(),
                (j + 1) as nat,
            ),
        decreases length - i,
    {
        out.push(cur);
        cur = cur.mul(challenge);
        i = i + 1;
    }
    assert(vals(out@) =~= geometric(challenge.val(), length as nat));
    FrVec(out)
}

/// The two entries of the proof that a prover with `u` and `v` sends on `c`.
pub open spec fn prover_mul_proof(u: Seq<nat>, v: Seq<nat>, r1cs: R1CS, c: nat) -> (nat, nat) {
    let ua = vec_mat(u, r1cs.a_rows);
    let va = vec_mat(v, r1cs.a_rows);
    let ub = vec_mat(u, r1cs.b_rows);
    let vb = vec_mat(v, r1cs.b_rows);
    let vc = vec_mat(v, r1cs.c_rows);
    let l = r1cs.constraints();
    let new_u = Seq::new(
        l,
        |i: int| fsub(fadd(fmul(ub[i], va[i]), fmul(ua[i], vb[i])), vc[i]),
    );
    let new_v = Seq::new(l, |i: int| fmul(va[i], vb[i]));
    (dot_vals(new_u, geometric(c, l)), dot_vals(new_v, geometric(c, l)))
}

/// What the verifier with `q` and `delta` expects `proof.1 + proof.0 * delta` to
/// be on `c`.
pub open spec fn verifier_expected(q: Seq<nat>, delta: nat, r1cs: R1CS, c: nat) -> nat {
    let qa = vec_mat(q, r1cs.a_rows);
    let qb = vec_mat(q, r1cs.b_rows);
    let qc = vec_mat(q, r1cs.c_rows);
    let l = r1cs.constraints();
    let new_q = Seq::new(l, |i: int| fsub(fmul(qa[i], qb[i]), fmul(qc[i], delta)));
    dot_vals(new_q, geometric(c, l))
}

/// The prover's side of Quicksilver.
pub struct Prover {
    pub u: FrVec,
    pub v: FrVec,
    pub r1cs_with_metadata: R1CSWithMetadata,
}

impl Prover {
    /// A prover from the VOLE-in-the-head matrices: `u` is the witness rows
    /// followed by the last row of `u1_rows`, and `v` is the rows of `r_rows`.
    pub fn from_vith(
        u1_rows: FrMatrix,
        r_rows: FrMatrix,
        witness_rows: FrMatrix,
        r1cswm: R1CSWithMetadata,
    ) -> (r: Prover)
        requires
            u1_rows.rows() >= 1,
            u1_rows.cols() >= 1,
            u1_rows.is_rect(u1_rows.cols()),
            r_rows.rows() == u1_rows.rows(),
            r_rows.is_rect(u1_rows.cols()),
            witness_rows.rows() == u1_rows.rows() - 1,
            witness_rows.is_rect((u1_rows.cols() - 1) as nat),
            r1cswm.r1cs.a_rows.rows() == u1_rows.rows(),
            r1cswm.r1cs.a_rows.is_rect(u1_rows.cols()),
        ensures
            r.u.0@ == flatten(witness_rows.0@) + u1_rows.0@.last().0@,
            r.v.0@ == flatten(r_rows.0@),
            r.r1cs_with_metadata == r1cswm,
    {
        let mut u = flatten_rows(&witness_rows);
        let last = u1_rows.0.len() - 1;
        append_frs(&mut u, &u1_rows.0[last].0);
        let v = flatten_rows(&r_rows);
        Prover { u: FrVec(u), v: FrVec(v), r1cs_with_metadata: r1cswm }
    }

    /// The Quicksilver multiplication proof on `challenge`, which must be drawn
    /// only after `u` and `v` are fixed.
    pub fn prove(&self, challenge: &Fr) -> (r: ZKP)
        requires
            challenge.wf(),
            self.r1cs_with_metadata.r1cs.shaped(
                self.r1cs_with_metadata.r1cs.constraints(),
                self.u.len(),
            ),
            self.v.len() == self.u.len(),
        ensures
            r.mul_proof.0.wf(),
            r.mul_proof.1.wf(),
            (r.mul_proof.0.val(), r.mul_proof.1.val()) == prover_mul_proof(
                vals(self.u.0@),
                vals(self.v.0@),
                self.r1cs_with_metadata.r1cs,
                challenge.val(),
            ),
    {
        let r1cs = &self.r1cs_with_metadata.r1cs;
        let u_a = self.u.mul_matrix(&r1cs.a_rows);
        let v_a = self.v.mul_matrix(&r1cs.a_rows);
        let u_b = self.u.mul_matrix(&r1cs.b_rows);
        let v_b = self.v.mul_matrix(&r1cs.b_rows);
        let v_c = self.v.mul_matrix(&r1cs.c_rows);
        let t1 = u_b.mul(&v_a);
        let t2 = u_a.mul(&v_b);
        let t3 = t1.add(&t2);
        let new_u = t3.sub(&v_c);
        let new_v = v_a.mul(&v_b);
        let l = r1cs.a_rows.0.len();
        let challenge_vec = get_challenge_vec(challenge, l);
        let mu = new_u.dot(&challenge_vec);
        let mv = new_v.dot(&challenge_vec);
        proof {
            let ua = vec_mat(vals(self.u.0@), r1cs.a_rows);
            let va = vec_mat(vals(self.v.0@), r1cs.a_rows);
            let ub = vec_mat(vals(self.u.0@), r1cs.b_rows);
            let vb = vec_mat(vals(self.v.0@), r1cs.b_rows);
            let vc = vec_mat(vals(self.v.0@), r1cs.c_rows);
            assert forall|i: int| 0 <= i < l implies ua[i] == u_a.at(i) && va[i] == v_a.at(i)
                && ub[i] == u_b.at(i) && vb[i] == v_b.at(i) && vc[i] == v_c.at(i) by {}
            assert forall|i: int| 0 <= i < l implies vals(new_u.0@)[i] == fsub(
                fadd(fmul(ub[i], va[i]), fmul(ua[i], vb[i])),
                vc[i],
            ) && vals(new_v.0@)[i] == fmul(va[i], vb[i]) by {
                assert(new_u.at(i) == fsub(t3.at(i), v_c.at(i)));
                assert(t3.at(i) == fadd(t1.at(i), t2.at(i)));
                assert(t1.at(i) == fmul(u_b.at(i), v_a.at(i)));
                assert(t2.at(i) == fmul(u_a.at(i), v_b.at(i)));
                assert(new_v.at(i) == fmul(v_a.at(i), v_b.at(i)));
            }
            assert(vals(new_u.0@) =~= Seq::new(
                l as nat,
                |i: int| fsub(fadd(fmul(ub[i], va[i]), fmul(ua[i], vb[i])), vc[i]),
            ));
            assert(vals(new_v.0@) =~= Seq::new(l as nat, |i: int| fmul(va[i], vb[i])));
        }
        ZKP { mul_proof: (mu, mv) }
    }
}

/// The verifier's side of Quicksilver.
pub struct Verifier {
    pub delta: Fr,
    pub q: FrVec,
    pub r1cs_with_metadata: R1CSWithMetadata,
}

impl Verifier {
    /// A verifier from the VOLE-in-the-head matrix `q_rows`: `q` is its rows, one
    /// after another.
    pub fn from_vith(q_rows: FrMatrix, delta: Fr, r1cswm: R1CSWithMetadata) -> (r: Verifier)
        requires
            q_rows.rows() >= 1,
            q_rows.is_rect(q_rows.cols()),
            r1cswm.r1cs.a_rows.rows() == q_rows.rows(),
            r1cswm.r1cs.a_rows.is_rect(q_rows.cols()),
        ensures
            r.q.0@ == flatten(q_rows.0@),
            r.delta == delta,
            r.r1cs_with_metadata == r1cswm,
    {
        let q = flatten_rows(&q_rows);
        Verifier { delta, q: FrVec(q), r1cs_with_metadata: r1cswm }
    }

    /// Checks a proof on `challenge`: accepted exactly when
    /// `proof.1 + proof.0 * delta` is the value the verifier expects.
    pub fn verify(&self, challenge: &Fr, proof: &ZKP) -> (r: Result<(), VerifyError>)
        requires
            challenge.wf(),
            self.delta.wf(),
            self.r1cs_with_metadata.r1cs.shaped(
                self.r1cs_with_metadata.r1cs.constraints(),
                self.q.len(),
            ),
        ensures
            r is Ok <==> fadd(proof.mul_proof.1.val(), fmul(proof.mul_proof.0.val(), self.delta.val()))
                == verifier_expected(
                vals(self.q.0@),
                self.delta.val(),
                self.r1cs_with_metadata.r1cs,
                challenge.val(),
            ),
            r matches Err(e) ==> e == VerifyError::ProofInvalid,
    {
        let r1cs = &self.r1cs_with_metadata.r1cs;
        let q_a = self.q.mul_matrix(&r1cs.a_rows);
        let q_b = self.q.mul_matrix(&r1cs.b_rows);
        let q_c = self.q.mul_matrix(&r1cs.c_rows);
        let t1 = q_a.mul(&q_b);
        let t2 = q_c.scalar_mul(&self.delta);
        let new_q = t1.sub(&t2);
        let l = r1cs.a_rows.0.len();
        let challenge_vec = get_challenge_vec(challenge, l);
        let lhs = proof.mul_proof.1.add(&proof.mul_proof.0.mul(&self.delta));
        let rhs = new_q.dot(&challenge_vec);
        proof {
            let qa = vec_mat(vals(self.q.0@), r1cs.a_rows);
            let qb = vec_mat(vals(self.q.0@), r1cs.b_rows);
            let qc = vec_mat(vals(self.q.0@), r1cs.c_rows);
            assert forall|i: int| 0 <= i < l implies qa[i] == q_a.at(i) && qb[i] == q_b.at(i)
                && qc[i] == q_c.at(i) by {}
            assert forall|i: int| 0 <= i < l implies vals(new_q.0@)[i] == fsub(
                fmul(qa[i], qb[i]),
                fmul(qc[i], self.delta.val()),
            ) by {
                assert(new_q.at(i) == fsub(t1.at(i), t2.at(i)));
                assert(t1.at(i) == fmul(q_a.at(i), q_b.at(i)));
                assert(t2.at(i) == fmul(q_c.at(i), self.delta.val()));
            }
            assert(vals(new_q.0@) =~= Seq::new(
                l as nat,
                |i: int| fsub(fmul(qa[i], qb[i]), fmul(qc[i], self.delta.val())),
            ));
            if lhs.val() == rhs.val() {
                lemma_be_nat_injective(lhs.repr@, rhs.repr@);
            }
        }
        if lhs == rhs {
            Ok(())
        } else {
            Err(VerifyError::ProofInvalid)
        }
    }
}

/// `a` and `b` are equal modulo the field's order.
pub open spec fn cong(a: int, b: int) -> bool {
    a % (modulus() as int) == b % (modulus() as int)
}

proof fn lemma_cong_mod(x: int)
    ensures
        cong(x % (modulus() as int), x),
{
    vstd::arithmetic::div_mod::lemma_mod_twice(x, modulus() as int);
}

proof fn lemma_cong_add(a: int, b: int, c: int, e: int)
    requires
        cong(a, b),
        cong(c, e),
    ensures
        cong(a + c, b + e),
{
    let p = modulus() as int;
    vstd::arithmetic::div_mod::lemma_add_mod_noop(a, c, p);
    vstd::arithmetic::div_mod::lemma_add_mod_noop(b, e, p);
}

proof fn lemma_cong_sub(a: int, b: int, c: int, e: int)
    requires
        cong(a, b),
        cong(c, e),
    ensures
        cong(a - c, b - e),
{
    let p = modulus() as int;
    vstd::arithmetic::div_mod::lemma_sub_mod_noop(a, c, p);
    vstd::arithmetic::div_mod::lemma_sub_mod_noop(b, e, p);
}

proof fn lemma_cong_mul(a: int, b: int, c: int, e: int)
    requires
        cong(a, b),
        cong(c, e),
    ensures
        cong(a * c, b * e),
{
    let p = modulus() as int;
    vstd::arithmetic::div_mod::lemma_mul_mod_noop_general(a, c, p);
    vstd::arithmetic::div_mod::lemma_mul_mod_noop_general(b, e, p);
}

/// Two values below the modulus that are congruent are equal.
proof fn lemma_cong_reduced(a: nat, b: nat)
    requires
        a < modulus(),
        b < modulus(),
        cong(a as int, b as int),
    ensures
        a == b,
{
    vstd::arithmetic::div_mod::lemma_small_mod(a, modulus());
    vstd::arithmetic::div_mod::lemma_small_mod(b, modulus());
}

proof fn lemma_dot_reduced(a: Seq<nat>, b: Seq<nat>)
    ensures
        dot_vals(a, b) < modulus(),
{
}

/// A dot product is linear in its first argument, modulo the field's order.
proof fn lemma_dot_linear(q: Seq<nat>, u: Seq<nat>, v: Seq<nat>, w: Seq<nat>, d: nat)
    requires
        q.len() == w.len(),
        u.len() == w.len(),
        v.len() == w.len(),
        forall|i: int| 0 <= i < w.len() ==> cong(#[trigger] q[i] as int, (d * u[i] + v[i]) as int),
    ensures
        cong(dot_vals(q, w) as int, (d * dot_vals(u, w) + dot_vals(v, w)) as int),
    decreases w.len(),
{
    let p = modulus() as int;
    if w.len() == 0 {
        assert(d * 0 + 0 == 0);
    } else {
        let (q1, u1, v1, w1) = (q.drop_last(), u.drop_last(), v.drop_last(), w.drop_last());
        assert forall|i: int| 0 <= i < w1.len() implies cong(
            #[trigger] q1[i] as int,
            (d * u1[i] + v1[i]) as int,
        ) by {
            assert(q1[i] == q[i] && u1[i] == u[i] && v1[i] == v[i]);
        }
        lemma_dot_linear(q1, u1, v1, w1, d);
        let a = dot_vals(q1, w1) as int;
        let b = dot_vals(u1, w1) as int;
        let c = dot_vals(v1, w1) as int;
        let (ql, ul, vl, wl) = (q.last() as int, u.last() as int, v.last() as int, w.last() as int);
        lemma_cong_mod(a + ql * wl);
        let n = w.len() - 1;
        assert(cong(q[n] as int, (d * u[n] + v[n]) as int));
        assert(cong(ql, d * ul + vl));
        lemma_cong_mul(ql, d * ul + vl, wl, wl);
        lemma_cong_add(a, d * b + c, ql * wl, (d * ul + vl) * wl);
        assert((d * b + c) + (d * ul + vl) * wl == d * (b + ul * wl) + (c + vl * wl))
            by (nonlinear_arith);
        lemma_cong_mod(b + ul * wl);
        lemma_cong_mod(c + vl * wl);
        lemma_cong_mul(d as int, d as int, (b + ul * wl) % p, b + ul * wl);
        lemma_cong_add(
            d * ((b + ul * wl) % p),
            d * (b + ul * wl),
            (c + vl * wl) % p,
            c + vl * wl,
        );
        assert(dot_vals(q, w) == (a + ql * wl) % p);
        assert(dot_vals(u, w) == (b + ul * wl) % p);
        assert(dot_vals(v, w) == (c + vl * wl) % p);
    }
}

/// Each entry of `w·M` is linear in `w`, modulo the field's order.
proof fn lemma_vec_mat_linear(q: Seq<nat>, u: Seq<nat>, v: Seq<nat>, m: FrMatrix, d: nat)
    requires
        q.len() == u.len(),
        v.len() == u.len(),
        m.is_rect(u.len()),
        forall|i: int| 0 <= i < u.len() ==> cong(#[trigger] q[i] as int, (d * u[i] + v[i]) as int),
    ensures
        forall|r: int|
            0 <= r < m.rows() ==> cong(
                #[trigger] vec_mat(q, m)[r] as int,
                (d * vec_mat(u, m)[r] + vec_mat(v, m)[r]) as int,
            ),
{
    assert forall|r: int| 0 <= r < m.rows() implies cong(
        #[trigger] vec_mat(q, m)[r] as int,
        (d * vec_mat(u, m)[r] + vec_mat(v, m)[r]) as int,
    ) by {
        assert(m.0@[r].len() == u.len());
        lemma_dot_linear(q, u, v, vals(m.0@[r].0@), d);
    }
}

/// One constraint of the Quicksilver check, on values linear in `d`.
proof fn lemma_gate(ua: int, ub: int, uc: int, va: int, vb: int, vc: int, qa: int, qb: int, qc: int, d: int)
    requires
        cong(qa, d * ua + va),
        cong(qb, d * ub + vb),
        cong(qc, d * uc + vc),
        cong(ua * ub, uc),
    ensures
        cong(qa * qb - qc * d, d * (ub * va + ua * vb - vc) + va * vb),
{
    lemma_cong_mul(qa, d * ua + va, qb, d * ub + vb);
    lemma_cong_mul(qc, d * uc + vc, d, d);
    lemma_cong_sub(qa * qb, (d * ua + va) * (d * ub + vb), qc * d, (d * uc + vc) * d);
    let x = d * ua;
    let y = d * ub;
    assert((x + va) * (y + vb) == x * y + x * vb + va * y + va * vb) by (nonlinear_arith);
    assert(x * y == d * d * (ua * ub)) by (nonlinear_arith)
        requires
            x == d * ua,
            y == d * ub,
    ;
    assert(x * vb == d * (ua * vb)) by (nonlinear_arith)
        requires
            x == d * ua,
    ;
    assert(va * y == d * (ub * va)) by (nonlinear_arith)
        requires
            y == d * ub,
    ;
    assert((d * uc + vc) * d == d * d * uc + d * vc) by (nonlinear_arith);
    assert(d * (ub * va + ua * vb - vc) == d * (ub * va) + d * (ua * vb) - d * vc)
        by (nonlinear_arith);
    assert(d * d * (ua * ub - uc) == d * d * (ua * ub) - d * d * uc) by (nonlinear_arith);
    lemma_cong_sub(ua * ub, uc, uc, uc);
    assert(cong(uc - uc, 0));
    lemma_cong_mul(d * d, d * d, ua * ub - uc, 0);
    assert(d * d * 0 == 0);
    lemma_cong_add(
        d * (ub * va + ua * vb - vc) + va * vb,
        d * (ub * va + ua * vb - vc) + va * vb,
        d * d * (ua * ub - uc),
        0,
    );
}

/// Quicksilver is complete: when `q = u·delta + v` entry by entry and `u`
/// satisfies the R1CS, the prover's proof on any challenge is accepted by the
/// verifier on the same challenge.
pub proof fn lemma_quicksilver_complete(
    u: Seq<nat>,
    v: Seq<nat>,
    q: Seq<nat>,
    delta: nat,
    r1cs: R1CS,
    c: nat,
)
    requires
        v.len() == u.len(),
        q.len() == u.len(),
        r1cs.shaped(r1cs.constraints(), u.len()),
        forall|i: int| 0 <= i < u.len() ==> #[trigger] q[i] == fadd(fmul(u[i], delta), v[i]),
        r1cs.satisfied_by(u),
    ensures
        ({
            let (mu, mv) = prover_mul_proof(u, v, r1cs, c);
            fadd(mv, fmul(mu, delta)) == verifier_expected(q, delta, r1cs, c)
        }),
{
    let p = modulus() as int;
    let d = delta as int;
    assert forall|i: int| 0 <= i < u.len() implies cong(#[trigger] q[i] as int, d * u[i] + v[i]) by {
        lemma_cong_mod(u[i] * d);
        lemma_cong_add((u[i] * d) % p, u[i] * d, v[i] as int, v[i] as int);
        lemma_cong_mod((u[i] * d) % p + v[i]);
        assert(u[i] * d == d * u[i]) by (nonlinear_arith);
    }
    lemma_vec_mat_linear(q, u, v, r1cs.a_rows, delta);
    lemma_vec_mat_linear(q, u, v, r1cs.b_rows, delta);
    lemma_vec_mat_linear(q, u, v, r1cs.c_rows, delta);
    let ua = vec_mat(u, r1cs.a_rows);
    let va = vec_mat(v, r1cs.a_rows);
    let ub = vec_mat(u, r1cs.b_rows);
    let vb = vec_mat(v, r1cs.b_rows);
    let uc = vec_mat(u, r1cs.c_rows);
    let vc = vec_mat(v, r1cs.c_rows);
    let qa = vec_mat(q, r1cs.a_rows);
    let qb = vec_mat(q, r1cs.b_rows);
    let qc = vec_mat(q, r1cs.c_rows);
    let l = r1cs.constraints();
    let new_u = Seq::new(l, |i: int| fsub(fadd(fmul(ub[i], va[i]), fmul(ua[i], vb[i])), vc[i]));
    let new_v = Seq::new(l, |i: int| fmul(va[i], vb[i]));
    let new_q = Seq::new(l, |i: int| fsub(fmul(qa[i], qb[i]), fmul(qc[i], delta)));
    let g = geometric(c, l);
    assert forall|i: int| 0 <= i < l implies cong(#[trigger] new_q[i] as int, d * new_u[i] + new_v[i]) by {
        let (xa, xb, xc) = (ua[i] as int, ub[i] as int, uc[i] as int);
        let (ya, yb, yc) = (va[i] as int, vb[i] as int, vc[i] as int);
        let (za, zb, zc) = (qa[i] as int, qb[i] as int, qc[i] as int);
        assert(fmul(ua[i], ub[i]) == uc[i]);
        lemma_cong_mod(xa * xb);
        lemma_gate(xa, xb, xc, ya, yb, yc, za, zb, zc, d);
        lemma_cong_mod(za * zb);
        lemma_cong_mod(zc * d);
        lemma_cong_sub((za * zb) % p, za * zb, (zc * d) % p, zc * d);
        lemma_cong_mod((za * zb) % p - (zc * d) % p);
        lemma_cong_mod(xb * ya);
        lemma_cong_mod(xa * yb);
        lemma_cong_add((xb * ya) % p, xb * ya, (xa * yb) % p, xa * yb);
        lemma_cong_mod((xb * ya) % p + (xa * yb) % p);
        lemma_cong_sub(((xb * ya) % p + (xa * yb) % p) % p, xb * ya + xa * yb, yc, yc);
        lemma_cong_mod(((xb * ya) % p + (xa * yb) % p) % p - yc);
        lemma_cong_mod(ya * yb);
        lemma_cong_mul(d, d, new_u[i] as int, xb * ya + xa * yb - yc);
        lemma_cong_add(d * new_u[i], d * (xb * ya + xa * yb - yc), new_v[i] as int, ya * yb);
    }
    lemma_dot_linear(new_q, new_u, new_v, g, delta);
    let (mu, mv) = prover_mul_proof(u, v, r1cs, c);
    assert(mu == dot_vals(new_u, g));
    assert(mv == dot_vals(new_v, g));
    let e = verifier_expected(q, delta, r1cs, c);
    assert(e == dot_vals(new_q, g));
    lemma_cong_mod(mu * d);
    lemma_cong_add(mv as int, mv as int, (mu * d) % p, mu * d);
    lemma_cong_mod(mv + (mu * d) % p);
    assert(mu * d == d * mu) by (nonlinear_arith);
    lemma_dot_reduced(new_q, g);
    lemma_cong_reduced(fadd(mv, fmul(mu, delta)), e);
}

} // verus!
