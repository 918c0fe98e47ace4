//! Expansion of a 32-byte seed into field elements, and the commitment to a
//! pair of seeds with its one-of-two opening.
use crate::field::{be_nat, lemma_be_nat_append, modulus, pow256, Fr};
use rand::rngs::StdRng;
use rand::{RngCore, SeedableRng};
use crate::linalg::vals;
use vstd::prelude::*;

verus! {

/// The BLAKE3 digest of a byte string.
pub uninterp spec fn blake3_of(input: Seq<u8>) -> Seq<u8>;

/// Word `index` of the `u64` stream of a `StdRng` seeded with `seed`.
pub uninterp spec fn std_rng_u64(seed: Seq<u8>, index: nat) -> u64;

/// Relies on blake3::hash: the 32-byte digest, a function of the input alone.
#[verifier::external_body]
pub(crate) fn blake3_hash(input: &[u8]) -> (r: [u8; 32])
    ensures
        r@ == blake3_of(input@),
{
    *blake3::hash(input).as_bytes()
}

/// Relies on rand's `StdRng::from_seed` and `next_u64`: the generator is
/// deterministic in its seed, so word `k` of what it yields depends on the seed
/// and `k` alone.
#[verifier::external_body]
fn std_rng_u64_words(seed: &[u8; 32], count: usize) -> (r: Vec<u64>)
    ensures
        r@.len() == count,
        forall|k: int| 0 <= k < count ==> r@[k] == std_rng_u64(seed@, k as nat),
{
    let mut rng = StdRng::from_seed(*seed);
    (0..count).map(|_| rng.next_u64()).collect()
}

/// Word `index` of the `u32` stream of a `StdRng` seeded with `seed`.
pub uninterp spec fn std_rng_u32(seed: Seq<u8>, index: nat) -> u32;

/// Relies on rand's `StdRng::from_seed` and `next_u32`: the generator is
/// deterministic in its seed, so word `k` of what it yields depends on the seed
/// and `k` alone.
#[verifier::external_body]
pub(crate) fn std_rng_u32_words(seed: &[u8; 32], count: usize) -> (r: Vec<u32>)
    ensures
        r@.len() == count,
        forall|k: int| 0 <= k < count ==> r@[k] == std_rng_u32(seed@, k as nat),
{
    let mut rng = StdRng::from_seed(*seed);
    (0..count).map(|_| rng.next_u32()).collect()
}

/// 2^64.
pub open spec fn word_base() -> nat {
    0x10000000000000000
}

/// The number denoted by four big-endian 64-bit words.
pub open spec fn limbs_val(x: Seq<u64>) -> nat {
    ((x[0] as nat * word_base() + x[1] as nat) * word_base() + x[2] as nat) * word_base()
        + x[3] as nat
}

/// The modulus as four big-endian words.
pub open spec fn modulus_limbs() -> Seq<u64> {
    seq![0x30644E72E131A029u64, 0xB85045B68181585D, 0x2833E84879B97091, 0x43E1F593F0000001]
}

/// The mask that clears the six most significant bits of a word.
pub const TOP_MASK: u64 = 0x03FF_FFFF_FFFF_FFFF;

/// Candidate `k` of the expansion of `seed`: words `4k .. 4k + 4` of the stream,
/// with the top six bits of the first cleared.
pub open spec fn candidate(seed: Seq<u8>, k: nat) -> Seq<u64> {
    seq![
        std_rng_u64(seed, 4 * k) & TOP_MASK,
        std_rng_u64(seed, 4 * k + 1),
        std_rng_u64(seed, 4 * k + 2),
        std_rng_u64(seed, 4 * k + 3),
    ]
}

/// The values of the first `n` field elements that a seed expands to.
pub open spec fn expand_spec(seed: Seq<u8>, n: nat) -> Seq<nat> {
    Seq::new(n, |k: int| limbs_val(candidate(seed, k as nat)))
}

proof fn lemma_lex(ha: nat, la: nat, hb: nat, lb: nat)
    requires
        la < word_base(),
        lb < word_base(),
    ensures
        (ha * word_base() + la >= hb * word_base() + lb) == (ha > hb || (ha == hb && la >= lb)),
{
    let b = word_base();
    if ha > hb {
        assert(ha * b + la >= hb * b + lb) by (nonlinear_arith)
            requires
                ha > hb,
                lb < b,
        ;
    } else if ha < hb {
        assert(ha * b + la < hb * b + lb) by (nonlinear_arith)
            requires
                ha < hb,
                la < b,
        ;
    }
}

proof fn lemma_modulus_limbs()
    ensures
        limbs_val(modulus_limbs()) == modulus(),
{
}

/// Whether four big-endian words denote a number at or above the modulus.
pub fn u64s_overflow_field(x: &[u64; 4]) -> (r: bool)
    ensures
        r == (limbs_val(x@) >= modulus()),
{
    let m0: u64 = 0x30644E72E131A029;
    let m1: u64 = 0xB85045B68181585D;
    let m2: u64 = 0x2833E84879B97091;
    let m3: u64 = 0x43E1F593F0000001;
    let r = (x[0] > m0) || (x[0] == m0 && x[1] > m1) || (x[0] == m0 && x[1] == m1 && x[2] > m2)
        || (x[0] == m0 && x[1] == m1 && x[2] == m2 && x[3] >= m3);
    proof {
        let b = word_base();
        let a1 = x@[0] as nat;
        let a2 = a1 * b + x@[1] as nat;
        let a3 = a2 * b + x@[2] as nat;
        let pre1 = m0 as nat;
        let pre2 = pre1 * b + m1 as nat;
        let pre3 = pre2 * b + m2 as nat;
        lemma_modulus_limbs();
        lemma_lex(a3, x@[3] as nat, pre3, m3 as nat);
        lemma_lex(a2, x@[2] as nat, pre2, m2 as nat);
        lemma_lex(a1, x@[1] as nat, pre1, m1 as nat);
        if a2 == pre2 {
            assert(a1 == pre1 && x@[1] == m1) by {
                lemma_lex(a1, x@[1] as nat, pre1, m1 as nat);
                lemma_lex(pre1, m1 as nat, a1, x@[1] as nat);
            }
        }
        if a3 == pre3 {
            assert(a2 == pre2 && x@[2] == m2) by {
                lemma_lex(a2, x@[2] as nat, pre2, m2 as nat);
                lemma_lex(pre2, m2 as nat, a2, x@[2] as nat);
            }
        }
    }
    r
}

/// Appends bytes to a vector.
pub(crate) fn append_bytes(v: &mut Vec<u8>, b: &[u8])
    ensures
        final(v)@ == old(v)@ + b@,
{
    let mut i: usize = 0;
    while i < b.len()
        invariant
            i <= b@.len(),
            v@ == old(v)@ + b@.take(i as int),
        decreases b@.len() - i,
    {
        v.push(b[i]);
        i = i + 1;
        assert(b@.take(i as int) =~= b@.take(i - 1).push(b@[i - 1]));
    }
    assert(b@.take(b@.len() as int) =~= b@);
}

/// The field element that four big-endian words denote, reduced modulo the
/// field's order.
pub fn unchecked_fr_from_be_u64_slice(from: &[u64; 4]) -> (r: Fr)
    ensures
        r.wf(),
        r.val() == limbs_val(from@) % modulus(),
{
    let b0 = crate::field::u64_to_be_bytes(from[0]);
    let b1 = crate::field::u64_to_be_bytes(from[1]);
    let b2 = crate::field::u64_to_be_bytes(from[2]);
    let b3 = crate::field::u64_to_be_bytes(from[3]);
    let mut bytes: Vec<u8> = Vec::with_capacity(32);
    append_bytes(&mut bytes, &b0);
    append_bytes(&mut bytes, &b1);
    append_bytes(&mut bytes, &b2);
    append_bytes(&mut bytes, &b3);
    proof {
        assert(pow256(8) == word_base()) by {
            reveal_with_fuel(pow256, 9);
        }
        let s1 = b0@;
        let s2 = s1 + b1@;
        let s3 = s2 + b2@;
        lemma_be_nat_append(s1, b1@);
        lemma_be_nat_append(s2, b2@);
        lemma_be_nat_append(s3, b3@);
        assert(bytes@ =~= s3 + b3@);
    }
    Fr::reduce(&bytes)
}

/// Expands a seed into `num_outputs` field elements. Each is drawn as four
/// big-endian words of a `StdRng` seeded with `seed`, the top six bits cleared,
/// and redrawn while at or above the modulus; the mask keeps every draw below
/// 2^250, so none is redrawn.
#[allow(non_snake_case)]
pub fn expand_seed_to_Fr_vec(seed: [u8; 32], num_outputs: usize) -> (r: Vec<Fr>)
    requires
        num_outputs <= usize::MAX / 4,
    ensures
        r@.len() == num_outputs,
        crate::linalg::all_wf(r@),
        vals(r@) == expand_spec(seed@, num_outputs as nat),
{
    let words = std_rng_u64_words(&seed, 4 * num_outputs);
    let mut out: Vec<Fr> = Vec::with_capacity(num_outputs);
    let mut next: usize = 0;
    while out.len() < num_outputs
        invariant
            num_outputs <= usize::MAX / 4,
            words@.len() == 4 * num_outputs,
            forall|k: int| 0 <= k < 4 * num_outputs ==> words@[k] == std_rng_u64(seed@, k as nat),
            next == out@.len(),
            next <= num_outputs,
            crate::linalg::all_wf(out@),
            forall|k: int|
                0 <= k < next ==> (#[trigger] out@[k]).val() == limbs_val(
                    candidate(seed@, k as nat),
                ),
        decreases num_outputs - next,
    {
        let cand: [u64; 4] = [
            words[4 * next] & TOP_MASK,
            words[4 * next + 1],
            words[4 * next + 2],
            words[4 * next + 3],
        ];
        proof {
            let w = words@[4 * next as int];
            assert(w & TOP_MASK <= TOP_MASK) by (bit_vector);
            assert(cand@ =~= candidate(seed@, next as nat));
            lemma_masked_in_field(cand@);
        }
        if !u64s_overflow_field(&cand) {
            let f = unchecked_fr_from_be_u64_slice(&cand);
            proof {
                vstd::arithmetic::div_mod::lemma_small_mod(
                    limbs_val(cand@),
                    modulus(),
                );
            }
            out.push(f);
            next = next + 1;
        }
    }
    proof {
        assert(vals(out@) =~= expand_spec(seed@, num_outputs as nat));
    }
    out
}

/// Four words whose first has its top six bits clear denote a number below the
/// modulus.
proof fn lemma_masked_in_field(x: Seq<u64>)
    requires
        x.len() == 4,
        x[0] <= TOP_MASK,
    ensures
        limbs_val(x) < modulus(),
{
    let b = word_base();
    let t = x[0] as nat * b + x[1] as nat;
    assert(t < (TOP_MASK as nat + 1) * b) by (nonlinear_arith)
        requires
            x[0] as nat <= TOP_MASK as nat,
            x[1] < b,
            t == x[0] as nat * b + x[1] as nat,
    ;
    let u = t * b + x[2] as nat;
    assert(u < (TOP_MASK as nat + 1) * b * b) by (nonlinear_arith)
        requires
            t < (TOP_MASK as nat + 1) * b,
            x[2] < b,
            u == t * b + x[2] as nat,
    ;
    assert(u * b + (x[3] as nat) < (TOP_MASK as nat + 1) * b * b * b) by (nonlinear_arith)
        requires
            u < (TOP_MASK as nat + 1) * b * b,
            x[3] < b,
    ;
}

/// The commitment to a pair of seeds: the hash of their two hashes, in order.
pub open spec fn commit_spec(seed0: Seq<u8>, seed1: Seq<u8>) -> Seq<u8> {
    blake3_of(blake3_of(seed0) + blake3_of(seed1))
}

/// Commits to two seeds.
pub fn commit_seeds(seed0: &Vec<u8>, seed1: &Vec<u8>) -> (r: Vec<u8>)
    ensures
        r@ == commit_spec(seed0@, seed1@),
{
    let h0 = blake3_hash(seed0.as_slice());
    let h1 = blake3_hash(seed1.as_slice());
    let mut pre: Vec<u8> = Vec::with_capacity(64);
    append_bytes(&mut pre, &h0);
    append_bytes(&mut pre, &h1);
    let d = blake3_hash(pre.as_slice());
    let mut out: Vec<u8> = Vec::with_capacity(32);
    append_bytes(&mut out, &d);
    assert(out@ =~= d@);
    out
}

/// The opening of one committed seed: the hash of the other one.
pub fn proof_for_revealed_seed(other_seed: &Vec<u8>) -> (r: [u8; 32])
    ensures
        r@ == blake3_of(other_seed@),
{
    blake3_hash(other_seed.as_slice())
}

/// What the verifier of an opening hashes: the revealed seed's hash and the
/// proof, the first at position `idx`.
pub open spec fn opening_preimage(revealed: Seq<u8>, idx: bool, proof: Seq<u8>) -> Seq<u8> {
    if idx {
        proof + blake3_of(revealed)
    } else {
        blake3_of(revealed) + proof
    }
}

/// Checks an opening of a commitment at position `revealed_seed_idx`
/// (`false` for the first seed).
pub fn verify_proof_of_revealed_seed(
    commitment: &Vec<u8>,
    revealed_seed: &Vec<u8>,
    revealed_seed_idx: bool,
    proof: &[u8; 32],
) -> (r: bool)
    ensures
        r == (blake3_of(opening_preimage(revealed_seed@, revealed_seed_idx, proof@))
            == commitment@),
{
    let digest_of_revealed = blake3_hash(revealed_seed.as_slice());
    let mut preimage: Vec<u8> = Vec::with_capacity(64);
    if revealed_seed_idx {
        append_bytes(&mut preimage, proof);
        append_bytes(&mut preimage, &digest_of_revealed);
    } else {
        append_bytes(&mut preimage, &digest_of_revealed);
        append_bytes(&mut preimage, proof);
    }
    assert(preimage@ =~= opening_preimage(revealed_seed@, revealed_seed_idx, proof@));
    let d = blake3_hash(preimage.as_slice());
    if commitment.len() != 32 {
        return false;
    }
    let mut i: usize = 0;
    while i < 32
        invariant
            commitment@.len() == 32,
            i <= 32,
            d@ == blake3_of(opening_preimage(revealed_seed@, revealed_seed_idx, proof@)),
            forall|j: int| 0 <= j < i ==> d@[j] == commitment@[j],
        decreases 32 - i,
    {
        if d[i] != commitment[i] {
            assert(d@[i as int] != commitment@[i as int]);
            return false;
        }
        i = i + 1;
    }
    assert(d@ =~= commitment@);
    true
}

/// An opening made from the other seed passes against the commitment to the
/// pair, at either position.
pub proof fn lemma_opening_complete(seed0: Seq<u8>, seed1: Seq<u8>)
    ensures
        blake3_of(opening_preimage(seed0, false, blake3_of(seed1))) == commit_spec(seed0, seed1),
        blake3_of(opening_preimage(seed1, true, blake3_of(seed0))) == commit_spec(seed0, seed1),
{
}

/// How many times a digest is rehashed before its sampling falls back to
/// reduction; each rehash fails with chance below 1/4.
pub const SAMPLE_ATTEMPTS: u32 = 256;

/// A digest with the two top bits of its first byte cleared.
pub open spec fn masked(d: Seq<u8>) -> Seq<u8> {
    d.update(0, d[0] & 0x3Fu8)
}

/// The field element that rejection sampling draws from a 32-byte digest: the
/// digest with its two top bits cleared, where that is below the modulus, else
/// the same taken of the digest's own hash.
pub open spec fn sample_spec(d: Seq<u8>, fuel: nat) -> nat
    decreases fuel,
{
    if be_nat(masked(d)) < modulus() || fuel == 0 {
        be_nat(masked(d)) % modulus()
    } else {
        sample_spec(blake3_of(d), (fuel - 1) as nat)
    }
}

/// Samples a field element from a digest by rejection, rehashing a digest that
/// falls at or above the modulus.
pub fn rejection_sample_u8s(digest: &[u8; 32]) -> (r: Fr)
    ensures
        r.wf(),
        r.val() == sample_spec(digest@, SAMPLE_ATTEMPTS as nat),
{
    let mut d: [u8; 32] = *digest;
    let mut tries: u32 = SAMPLE_ATTEMPTS;
    loop
        invariant
            sample_spec(d@, tries as nat) == sample_spec(digest@, SAMPLE_ATTEMPTS as nat),
        decreases tries,
    {
        let mut c: [u8; 32] = d;
        c[0] = d[0] & 0x3F;
        assert(c@ =~= masked(d@));
        let m = crate::field::modulus_bytes();
        if tries == 0 || crate::field::big_lt(&c, &m) {
            let r = Fr::reduce(&c);
            return r;
        }
        d = blake3_hash(&d);
        tries = tries - 1;
    }
}

/// Expansion yields exactly `n` elements, the same on every call, and the
/// expansion to fewer elements is a prefix of the expansion to more.
pub proof fn lemma_expand_deterministic(seed: Seq<u8>, n: nat, m: nat, r1: Seq<Fr>, r2: Seq<Fr>)
    requires
        m <= n,
        vals(r1) == expand_spec(seed, n),
        vals(r2) == expand_spec(seed, n),
    ensures
        r1.len() == n,
        r1 == r2,
        expand_spec(seed, m) == expand_spec(seed, n).take(m as int),
{
    assert(r1.len() == vals(r1).len());
    crate::linalg::lemma_vals_injective(r1, r2);
    assert(expand_spec(seed, m) =~= expand_spec(seed, n).take(m as int));
}

} // verus!
