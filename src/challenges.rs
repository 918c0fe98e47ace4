//! Fiat-Shamir: every challenge of a session, derived from the seed commitment
//! and the prover's messages.
use crate::field::{lemma_be_nat_injective, modulus, Fr};
use crate::linalg::{dot_vals, lemma_vals_injective, vals, DotProduct, FrMatrix, FrVec};
use crate::vecccom::{
    append_bytes, blake3_hash, blake3_of, expand_seed_to_Fr_vec, expand_spec,
    rejection_sample_u8s, sample_spec, std_rng_u32, std_rng_u32_words, SAMPLE_ATTEMPTS,
};
use crate::zkp::{vec_mat, ZKP};
use vstd::prelude::*;

verus! {

/// The bytes of "subspace_vole_challenge".
pub open spec fn challenge_label() -> Seq<u8> {
    seq![0x73u8, 0x75, 0x62, 0x73, 0x70, 0x61, 0x63, 0x65, 0x5f, 0x76, 0x6f, 0x6c, 0x65, 0x5f, 0x63, 0x68, 0x61, 0x6c, 0x6c, 0x65, 0x6e, 0x67, 0x65]
}

fn challenge_label_bytes() -> (r: [u8; 23])
    ensures
        r@ == challenge_label(),
{
    let r: [u8; 23] = [0x73, 0x75, 0x62, 0x73, 0x70, 0x61, 0x63, 0x65, 0x5f, 0x76, 0x6f, 0x6c, 0x65, 0x5f, 0x63, 0x68, 0x61, 0x6c, 0x6c, 0x65, 0x6e, 0x67, 0x65];
    assert(r@ =~= challenge_label());
    r
}

/// The bytes of "subspace_vole_consistency".
pub open spec fn consistency_label() -> Seq<u8> {
    seq![0x73u8, 0x75, 0x62, 0x73, 0x70, 0x61, 0x63, 0x65, 0x5f, 0x76, 0x6f, 0x6c, 0x65, 0x5f, 0x63, 0x6f, 0x6e, 0x73, 0x69, 0x73, 0x74, 0x65, 0x6e, 0x63, 0x79]
}

fn consistency_label_bytes() -> (r: [u8; 25])
    ensures
        r@ == consistency_label(),
{
    let r: [u8; 25] = [0x73, 0x75, 0x62, 0x73, 0x70, 0x61, 0x63, 0x65, 0x5f, 0x76, 0x6f, 0x6c, 0x65, 0x5f, 0x63, 0x6f, 0x6e, 0x73, 0x69, 0x73, 0x74, 0x65, 0x6e, 0x63, 0x79];
    assert(r@ =~= consistency_label());
    r
}

/// The bytes of "s_matrix_consistency".
pub open spec fn s_matrix_label() -> Seq<u8> {
    seq![0x73u8, 0x5f, 0x6d, 0x61, 0x74, 0x72, 0x69, 0x78, 0x5f, 0x63, 0x6f, 0x6e, 0x73, 0x69, 0x73, 0x74, 0x65, 0x6e, 0x63, 0x79]
}

fn s_matrix_label_bytes() -> (r: [u8; 20])
    ensures
        r@ == s_matrix_label(),
{
    let r: [u8; 20] = [0x73, 0x5f, 0x6d, 0x61, 0x74, 0x72, 0x69, 0x78, 0x5f, 0x63, 0x6f, 0x6e, 0x73, 0x69, 0x73, 0x74, 0x65, 0x6e, 0x63, 0x79];
    assert(r@ =~= s_matrix_label());
    r
}

/// The bytes of "quicksilver_inner".
pub open spec fn inner_label() -> Seq<u8> {
    seq![0x71u8, 0x75, 0x69, 0x63, 0x6b, 0x73, 0x69, 0x6c, 0x76, 0x65, 0x72, 0x5f, 0x69, 0x6e, 0x6e, 0x65, 0x72]
}

fn inner_label_bytes() -> (r: [u8; 17])
    ensures
        r@ == inner_label(),
{
    let r: [u8; 17] = [0x71, 0x75, 0x69, 0x63, 0x6b, 0x73, 0x69, 0x6c, 0x76, 0x65, 0x72, 0x5f, 0x69, 0x6e, 0x6e, 0x65, 0x72];
    assert(r@ =~= inner_label());
    r
}

/// The bytes of "quicksilver_outer".
pub open spec fn outer_label() -> Seq<u8> {
    seq![0x71u8, 0x75, 0x69, 0x63, 0x6b, 0x73, 0x69, 0x6c, 0x76, 0x65, 0x72, 0x5f, 0x6f, 0x75, 0x74, 0x65, 0x72]
}

fn outer_label_bytes() -> (r: [u8; 17])
    ensures
        r@ == outer_label(),
{
    let r: [u8; 17] = [0x71, 0x75, 0x69, 0x63, 0x6b, 0x73, 0x69, 0x6c, 0x76, 0x65, 0x72, 0x5f, 0x6f, 0x75, 0x74, 0x65, 0x72];
    assert(r@ =~= outer_label());
    r
}
/// The challenges of one session.
pub struct Challenges {
    /// One small-field VOLE delta index per VOLE instance.
    pub delta_choices: Vec<usize>,
    /// The VOLE-in-the-head delta.
    pub vith_delta: Fr,
    /// The consistency check challenge for the Q, U and V matrices.
    pub subspace_challenge: FrVec,
    /// The consistency check challenge for the S matrix.
    pub s_challenge: FrVec,
}

/// The field elements that `seed` expands to once salted with `salt`.
pub open spec fn challenge_spec(seed: Seq<u8>, salt: Seq<u8>, length: nat) -> Seq<nat> {
    expand_spec(blake3_of(seed + salt), length)
}

/// A vector of `length` field elements from a seed and a salt, which keeps two
/// uses of one seed apart.
pub fn challenge_from_seed(seed: &[u8], salt: &[u8], length: usize) -> (r: FrVec)
    requires
        length <= usize::MAX / 4,
    ensures
        r.wf(),
        r.len() == length,
        vals(r.0@) == challenge_spec(seed@, salt@, length as nat),
{
    let mut pre: Vec<u8> = Vec::new();
    append_bytes(&mut pre, seed);
    append_bytes(&mut pre, salt);
    let digest = blake3_hash(pre.as_slice());
    FrVec(expand_seed_to_Fr_vec(digest, length))
}

/// The canonical 32-byte encoding of a value below the modulus.
pub open spec fn fr_bytes(v: nat) -> Seq<u8> {
    choose|s: Seq<u8>| s.len() == 32 && crate::field::be_nat(s) == v
}

/// An element's bytes are the canonical encoding of its value.
pub proof fn lemma_fr_bytes(f: Fr)
    ensures
        f.repr@ == fr_bytes(f.val()),
{
    let s = fr_bytes(f.val());
    assert(f.repr@.len() == 32 && crate::field::be_nat(f.repr@) == f.val());
    lemma_be_nat_injective(f.repr@, s);
}

/// The matrix compressed to one value by two universal hashes drawn from the
/// seed commitment: `inner · (outer · M)`.
pub open spec fn compressed_spec(seed_comm: Seq<u8>, m: FrMatrix) -> nat {
    let inner = challenge_spec(seed_comm, inner_label(), m.rows());
    let outer = challenge_spec(seed_comm, outer_label(), m.cols());
    dot_vals(inner, vec_mat(outer, m))
}

/// The Quicksilver challenge for a committed witness matrix: its compressed
/// value, hashed and sampled into the field.
pub fn calc_quicksilver_challenge(seed_comm: &[u8; 32], witness_comm: &FrMatrix) -> (r: Fr)
    requires
        witness_comm.rows() >= 1,
        witness_comm.is_rect(witness_comm.cols()),
        witness_comm.rows() <= usize::MAX / 4,
        witness_comm.cols() <= usize::MAX / 4,
    ensures
        r.wf(),
        r.val() == sample_spec(
            blake3_of(fr_bytes(compressed_spec(seed_comm@, *witness_comm))),
            SAMPLE_ATTEMPTS as nat,
        ),
{
    let rows = witness_comm.0.len();
    let cols = witness_comm.0[0].0.len();
    let universal_inner = challenge_from_seed(seed_comm, &inner_label_bytes(), rows);
    let universal_outer = challenge_from_seed(seed_comm, &outer_label_bytes(), cols);
    let folded = universal_outer.mul_matrix(witness_comm);
    let compressed = universal_inner.dot(&folded);
    proof {
        assert forall|i: int| 0 <= i < rows implies vals(folded.0@)[i] == vec_mat(
            vals(universal_outer.0@),
            *witness_comm,
        )[i] by {
            assert(folded.at(i) == crate::linalg::dot_spec(
                universal_outer.0@,
                witness_comm.0@[i].0@,
            ));
        }
        assert(vals(folded.0@) =~= vec_mat(vals(universal_outer.0@), *witness_comm));
        lemma_fr_bytes(compressed);
    }
    let digest = blake3_hash(&compressed.to_repr());
    rejection_sample_u8s(&digest)
}

/// The entries of a list of pairs, each pair in order.
pub open spec fn pair_entries(ps: Seq<(Fr, Fr)>) -> Seq<Fr>
    decreases ps.len(),
{
    if ps.len() == 0 {
        Seq::empty()
    } else {
        pair_entries(ps.drop_last()) + seq![ps.last().0, ps.last().1]
    }
}

/// The bytes of a sequence of field elements, one encoding after another.
pub open spec fn reprs(s: Seq<Fr>) -> Seq<u8>
    decreases s.len(),
{
    if s.len() == 0 {
        Seq::empty()
    } else {
        reprs(s.drop_last()) + s.last().repr@
    }
}

/// The prover's messages in transcript order: the proof, then the public input
/// openings, then the public output openings.
pub open spec fn transcript_frs(zkp: ZKP, ins: Seq<(Fr, Fr)>, outs: Seq<(Fr, Fr)>) -> Seq<Fr> {
    seq![zkp.mul_proof.0, zkp.mul_proof.1] + pair_entries(ins) + pair_entries(outs)
}

/// The challenges that a session with these inputs yields.
pub open spec fn challenges_for(
    c: Challenges,
    seed_comm: Seq<u8>,
    zkp: ZKP,
    ins: Seq<(Fr, Fr)>,
    outs: Seq<(Fr, Fr)>,
    vole_length: nat,
    num_voles: nat,
) -> bool {
    let t = seed_comm + reprs(transcript_frs(zkp, ins, outs));
    let t2 = t + challenge_label();
    &&& c.vith_delta.wf()
    &&& c.vith_delta.val() == sample_spec(blake3_of(t), SAMPLE_ATTEMPTS as nat)
    &&& c.delta_choices@.len() == num_voles
    &&& forall|k: int|
        0 <= k < num_voles ==> #[trigger] c.delta_choices@[k] == std_rng_u32(blake3_of(t2), k as nat)
            % 2
    &&& c.subspace_challenge.wf()
    &&& vals(c.subspace_challenge.0@) == challenge_spec(t2, consistency_label(), vole_length)
    &&& c.s_challenge.wf()
    &&& vals(c.s_challenge.0@) == challenge_spec(t2, s_matrix_label(), vole_length / 2)
}

/// Appends the entries of each pair.
fn push_pairs(frs: &mut Vec<Fr>, ps: &Vec<(Fr, Fr)>)
    ensures
        final(frs)@ == old(frs)@ + pair_entries(ps@),
{
    let mut i: usize = 0;
    while i < ps.len()
        invariant
            i <= ps@.len(),
            frs@ == old(frs)@ + pair_entries(ps@.take(i as int)),
        decreases ps@.len() - i,
    {
        let (a, b) = ps[i];
        frs.push(a);
        frs.push(b);
        proof {
            assert(ps@.take(i + 1).drop_last() =~= ps@.take(i as int));
            assert(frs@ =~= old(frs)@ + pair_entries(ps@.take(i + 1)));
        }
        i = i + 1;
    }
    assert(ps@.take(ps@.len() as int) =~= ps@);
}

/// The challenges of a session, from the seed commitment, the proof and the
/// public openings; `vole_length` must be even. Both parties compute the same.
pub fn calc_other_challenges(
    seed_comm: &[u8; 32],
    _witness_comm: &FrMatrix,
    zkp: &ZKP,
    vole_length: usize,
    num_voles: usize,
    public_inputs: &Vec<(Fr, Fr)>,
    public_outputs: &Vec<(Fr, Fr)>,
) -> (r: Challenges)
    requires
        vole_length % 2 == 0,
        vole_length <= usize::MAX / 4,
    ensures
        challenges_for(r, seed_comm@, *zkp, public_inputs@, public_outputs@, vole_length as nat, num_voles as nat),
{
    let mut frs: Vec<Fr> = vec![zkp.mul_proof.0, zkp.mul_proof.1];
    push_pairs(&mut frs, public_inputs);
    push_pairs(&mut frs, public_outputs);
    proof {
        assert(frs@ =~= transcript_frs(*zkp, public_inputs@, public_outputs@));
    }
    let mut concatted: Vec<u8> = Vec::new();
    append_bytes(&mut concatted, seed_comm);
    let mut i: usize = 0;
    while i < frs.len()
        invariant
            i <= frs@.len(),
            concatted@ == seed_comm@ + reprs(frs@.take(i as int)),
        decreases frs@.len() - i,
    {
        let bytes = frs[i].to_repr();
        append_bytes(&mut concatted, &bytes);
        proof {
            assert(frs@.take(i + 1).drop_last() =~= frs@.take(i as int));
            assert(concatted@ =~= seed_comm@ + reprs(frs@.take(i + 1)));
        }
        i = i + 1;
    }
    assert(frs@.take(frs@.len() as int) =~= frs@);
    let delta_first_try = blake3_hash(concatted.as_slice());
    let vith_delta = rejection_sample_u8s(&delta_first_try);
    append_bytes(&mut concatted, &challenge_label_bytes());
    let subspace_vole_delta_seed = blake3_hash(concatted.as_slice());
    let words = std_rng_u32_words(&subspace_vole_delta_seed, num_voles);
    let mut delta_choices: Vec<usize> = Vec::with_capacity(num_voles);
    let mut k: usize = 0;
    while k < num_voles
        invariant
            words@.len() == num_voles,
            k <= num_voles,
            delta_choices@.len() == k,
            forall|j: int| 0 <= j < k ==> #[trigger] delta_choices@[j] == words@[j] % 2,
        decreases num_voles - k,
    {
        delta_choices.push((words[k] % 2) as usize);
        k = k + 1;
    }
    let subspace_challenge = challenge_from_seed(
        concatted.as_slice(),
        &consistency_label_bytes(),
        vole_length,
    );
    let s_challenge = challenge_from_seed(concatted.as_slice(), &s_matrix_label_bytes(), vole_length / 2);
    Challenges { delta_choices, vith_delta, subspace_challenge, s_challenge }
}

/// Two sessions on the same commitment, transcript and lengths get the same
/// challenges.
pub proof fn lemma_challenges_deterministic(
    c1: Challenges,
    c2: Challenges,
    seed_comm: Seq<u8>,
    zkp: ZKP,
    ins: Seq<(Fr, Fr)>,
    outs: Seq<(Fr, Fr)>,
    vole_length: nat,
    num_voles: nat,
)
    requires
        challenges_for(c1, seed_comm, zkp, ins, outs, vole_length, num_voles),
        challenges_for(c2, seed_comm, zkp, ins, outs, vole_length, num_voles),
    ensures
        c1.vith_delta == c2.vith_delta,
        c1.delta_choices@ == c2.delta_choices@,
        c1.subspace_challenge.0@ == c2.subspace_challenge.0@,
        c1.s_challenge.0@ == c2.s_challenge.0@,
{
    lemma_be_nat_injective(c1.vith_delta.repr@, c2.vith_delta.repr@);
    assert(c1.vith_delta.repr =~= c2.vith_delta.repr);
    assert(c1.delta_choices@ =~= c2.delta_choices@);
    lemma_vals_injective(c1.subspace_challenge.0@, c2.subspace_challenge.0@);
    lemma_vals_injective(c1.s_challenge.0@, c2.s_challenge.0@);
}

} // verus!
