//! The scalar field of BN254: elements held as canonical 32-byte big-endian
//! values, with arithmetic carried out by `num_bigint`.
use num_bigint::BigUint;
use vstd::prelude::*;

verus! {

/// The prime order of the field.
pub open spec fn modulus() -> nat {
    0x30644e72e131a029b85045b68181585d * (0xffffffffffffffffffffffffffffffff + 1)
        + 0x2833e84879b9709143e1f593f0000001
}

/// The number that a big-endian byte string denotes.
pub open spec fn be_nat(s: Seq<u8>) -> nat
    decreases s.len(),
{
    if s.len() == 0 {
        0
    } else {
        be_nat(s.drop_last()) * 256 + s.last() as nat
    }
}

/// The field's modulus as 32 big-endian bytes.
pub open spec fn modulus_seq() -> Seq<u8> {
    seq![
        0x30u8, 0x64, 0x4e, 0x72, 0xe1, 0x31, 0xa0, 0x29, 0xb8, 0x50, 0x45, 0xb6, 0x81, 0x81,
        0x58, 0x5d, 0x28, 0x33, 0xe8, 0x48, 0x79, 0xb9, 0x70, 0x91, 0x43, 0xe1, 0xf5, 0x93, 0xf0,
        0x00, 0x00, 0x01,
    ]
}

pub proof fn lemma_modulus_seq()
    ensures
        be_nat(modulus_seq()) == modulus(),
        modulus_seq().len() == 32,
{
    reveal_with_fuel(be_nat, 33);
    assert(be_nat(modulus_seq()) == modulus());
}

pub proof fn lemma_be_nat_append(a: Seq<u8>, b: Seq<u8>)
    ensures
        be_nat(a + b) == be_nat(a) * pow256(b.len()) + be_nat(b),
    decreases b.len(),
{
    if b.len() == 0 {
        assert(a + b =~= a);
        assert(pow256(0) == 1);
        assert(be_nat(a) * 1 == be_nat(a));
    } else {
        assert(be_nat(b) == be_nat(b.drop_last()) * 256 + b.last() as nat);
        let ab = a + b;
        assert(ab.drop_last() =~= a + b.drop_last());
        assert(ab.last() == b.last());
        lemma_be_nat_append(a, b.drop_last());
        let k = pow256(b.drop_last().len());
        assert(pow256(b.len()) == k * 256);
        assert(be_nat(ab) == (be_nat(a) * k + be_nat(b.drop_last())) * 256 + b.last() as nat);
        assert((be_nat(a) * k + be_nat(b.drop_last())) * 256 == be_nat(a) * (k * 256) + be_nat(
            b.drop_last(),
        ) * 256) by (nonlinear_arith);
    }
}

/// 256 raised to `n`.
pub open spec fn pow256(n: nat) -> nat
    decreases n,
{
    if n == 0 {
        1
    } else {
        pow256((n - 1) as nat) * 256
    }
}

pub proof fn lemma_be_nat_zeros(n: nat)
    ensures
        be_nat(Seq::new(n, |_i: int| 0u8)) == 0,
    decreases n,
{
    if n > 0 {
        let z = Seq::new(n, |_i: int| 0u8);
        assert(z.drop_last() =~= Seq::new((n - 1) as nat, |_i: int| 0u8));
        lemma_be_nat_zeros((n - 1) as nat);
    }
}

/// Two byte strings of one length denote one number only if they are equal.
pub proof fn lemma_be_nat_injective(a: Seq<u8>, b: Seq<u8>)
    requires
        a.len() == b.len(),
        be_nat(a) == be_nat(b),
    ensures
        a == b,
    decreases a.len(),
{
    if a.len() > 0 {
        let x = be_nat(a.drop_last());
        let y = be_nat(b.drop_last());
        let la = a.last() as nat;
        let lb = b.last() as nat;
        assert(x == y && la == lb) by (nonlinear_arith)
            requires
                x * 256 + la == y * 256 + lb,
                la < 256,
                lb < 256,
        ;
        lemma_be_nat_injective(a.drop_last(), b.drop_last());
        assert(a =~= a.drop_last().push(a.last()));
        assert(b =~= b.drop_last().push(b.last()));
    }
}

/// Relies on num_bigint: `BigUint` addition of two big-endian byte strings.
#[verifier::external_body]
fn big_add(a: &[u8], b: &[u8]) -> (r: Vec<u8>)
    ensures
        be_nat(r@) == be_nat(a@) + be_nat(b@),
{
    (BigUint::from_bytes_be(a) + BigUint::from_bytes_be(b)).to_bytes_be()
}

/// Relies on num_bigint: `BigUint` subtraction, which panics below zero.
#[verifier::external_body]
fn big_sub(a: &[u8], b: &[u8]) -> (r: Vec<u8>)
    requires
        be_nat(a@) >= be_nat(b@),
    ensures
        be_nat(r@) == be_nat(a@) - be_nat(b@),
{
    (BigUint::from_bytes_be(a) - BigUint::from_bytes_be(b)).to_bytes_be()
}

/// Relies on num_bigint: `BigUint` multiplication.
#[verifier::external_body]
fn big_mul(a: &[u8], b: &[u8]) -> (r: Vec<u8>)
    ensures
        be_nat(r@) == be_nat(a@) * be_nat(b@),
{
    (BigUint::from_bytes_be(a) * BigUint::from_bytes_be(b)).to_bytes_be()
}

/// Relies on num_bigint: `BigUint` remainder, which panics on a zero divisor. The
/// shortest big-endian form of a value below `m` has no more bytes than `m`.
#[verifier::external_body]
fn big_rem(a: &[u8], m: &[u8]) -> (r: Vec<u8>)
    requires
        be_nat(m@) > 0,
    ensures
        be_nat(r@) == be_nat(a@) % be_nat(m@),
        r@.len() <= m@.len(),
{
    (BigUint::from_bytes_be(a) % BigUint::from_bytes_be(m)).to_bytes_be()
}

/// Relies on num_bigint: `BigUint` comparison.
#[verifier::external_body]
pub(crate) fn big_lt(a: &[u8], b: &[u8]) -> (r: bool)
    ensures
        r == (be_nat(a@) < be_nat(b@)),
{
    BigUint::from_bytes_be(a) < BigUint::from_bytes_be(b)
}

/// Relies on `u64::to_be_bytes`: the big-endian bytes of an integer.
#[verifier::external_body]
pub(crate) fn u64_to_be_bytes(x: u64) -> (r: [u8; 8])
    ensures
        be_nat(r@) == x,
{
    x.to_be_bytes()
}

/// Relies on `u128::to_be_bytes`: the big-endian bytes of an integer.
#[verifier::external_body]
fn u128_to_be_bytes(x: u128) -> (r: [u8; 16])
    ensures
        be_nat(r@) == x,
{
    x.to_be_bytes()
}

/// The modulus as a byte array.
pub fn modulus_bytes() -> (r: [u8; 32])
    ensures
        r@ == modulus_seq(),
        be_nat(r@) == modulus(),
{
    let r: [u8; 32] = [
        0x30, 0x64, 0x4e, 0x72, 0xe1, 0x31, 0xa0, 0x29, 0xb8, 0x50, 0x45, 0xb6, 0x81, 0x81, 0x58,
        0x5d, 0x28, 0x33, 0xe8, 0x48, 0x79, 0xb9, 0x70, 0x91, 0x43, 0xe1, 0xf5, 0x93, 0xf0, 0x00,
        0x00, 0x01,
    ];
    proof {
        assert(r@ =~= modulus_seq());
        lemma_modulus_seq();
    }
    r
}

/// Places a short big-endian string at the end of 32 zero bytes.
fn pad32(b: &[u8]) -> (r: [u8; 32])
    requires
        b@.len() <= 32,
    ensures
        be_nat(r@) == be_nat(b@),
{
    let n = b.len();
    let mut r: [u8; 32] = [0u8; 32];
    let off: usize = 32 - n;
    let mut i: usize = 0;
    while i < n
        invariant
            n == b@.len(),
            off + n == 32,
            i <= n,
            forall|j: int| 0 <= j < off ==> r@[j] == 0u8,
            forall|j: int| 0 <= j < i ==> r@[off + j] == b@[j],
        decreases n - i,
    {
        r[off + i] = b[i];
        i = i + 1;
    }
    proof {
        let z = Seq::new(off as nat, |_i: int| 0u8);
        assert(r@ =~= z + b@);
        lemma_be_nat_append(z, b@);
        lemma_be_nat_zeros(off as nat);
    }
    r
}

/// An element of the field: its value, in canonical 32-byte big-endian form.
#[derive(Clone, Copy, Debug)]
pub struct Fr {
    pub repr: [u8; 32],
}

impl Fr {
    /// The element's value as a number.
    pub open spec fn val(self) -> nat {
        be_nat(self.repr@)
    }

    /// The value is below the modulus.
    pub open spec fn wf(self) -> bool {
        self.val() < modulus()
    }

    /// Reduces a big-endian string modulo the field's order.
    pub(crate) fn reduce(b: &[u8]) -> (r: Fr)
        ensures
            r.wf(),
            r.val() == be_nat(b@) % modulus(),
    {
        let m = modulus_bytes();
        let s = big_rem(b, &m);
        Fr { repr: pad32(&s) }
    }

    pub fn zero() -> (r: Fr)
        ensures
            r.wf(),
            r.val() == 0,
    {
        let r = Fr { repr: [0u8; 32] };
        proof {
            assert(r.repr@ =~= Seq::new(32, |_i: int| 0u8));
            lemma_be_nat_zeros(32);
        }
        r
    }

    pub fn one() -> (r: Fr)
        ensures
            r.wf(),
            r.val() == 1,
    {
        Fr::from_u64(1)
    }

    pub fn from_u64(x: u64) -> (r: Fr)
        ensures
            r.wf(),
            r.val() == x,
    {
        let b = u64_to_be_bytes(x);
        let r = Fr { repr: pad32(&b) };
        assert(x < modulus());
        r
    }

    pub fn from_u128(x: u128) -> (r: Fr)
        ensures
            r.wf(),
            r.val() == x as nat % modulus(),
    {
        let b = u128_to_be_bytes(x);
        Fr::reduce(&b)
    }

    /// The canonical 32-byte big-endian encoding.
    pub fn to_repr(&self) -> (r: [u8; 32])
        ensures
            r@ == self.repr@,
            be_nat(r@) == self.val(),
    {
        self.repr
    }

    /// Reads a canonical encoding: `None` where the value is not below the modulus.
    pub fn from_repr(repr: [u8; 32]) -> (r: Option<Fr>)
        ensures
            r is Some <==> be_nat(repr@) < modulus(),
            r matches Some(f) ==> f.repr@ == repr@ && f.wf(),
    {
        let m = modulus_bytes();
        if big_lt(&repr, &m) {
            Some(Fr { repr })
        } else {
            None
        }
    }

    pub fn add(&self, o: &Fr) -> (r: Fr)
        ensures
            r.wf(),
            r.val() == (self.val() + o.val()) % modulus(),
    {
        let s = big_add(&self.repr, &o.repr);
        Fr::reduce(&s)
    }

    pub fn mul(&self, o: &Fr) -> (r: Fr)
        ensures
            r.wf(),
            r.val() == (self.val() * o.val()) % modulus(),
    {
        let s = big_mul(&self.repr, &o.repr);
        Fr::reduce(&s)
    }

    pub fn neg(&self) -> (r: Fr)
        requires
            self.wf(),
        ensures
            r.wf(),
            r.val() == (modulus() - self.val()) % (modulus() as int),
    {
        let m = modulus_bytes();
        let s = big_sub(&m, &self.repr);
        Fr::reduce(&s)
    }

    pub fn sub(&self, o: &Fr) -> (r: Fr)
        requires
            o.wf(),
        ensures
            r.wf(),
            r.val() == (self.val() - o.val()) % (modulus() as int),
    {
        let n = o.neg();
        let r = self.add(&n);
        proof {
            lemma_sub_mod(self.val() as int, o.val() as int, modulus() as int);
        }
        r
    }

    pub fn is_zero(&self) -> (r: bool)
        requires
            self.wf(),
        ensures
            r == (self.val() == 0),
    {
        let z = Fr::zero();
        let r = self.eq(&z);
        proof {
            if self.val() == 0 {
                lemma_be_nat_injective(self.repr@, z.repr@);
            }
        }
        r
    }

    pub fn is_one(&self) -> (r: bool)
        requires
            self.wf(),
        ensures
            r == (self.val() == 1),
    {
        let o = Fr::one();
        let r = self.eq(&o);
        proof {
            if self.val() == 1 {
                lemma_be_nat_injective(self.repr@, o.repr@);
            }
        }
        r
    }
}

proof fn lemma_sub_mod(a: int, b: int, m: int)
    requires
        m > 0,
        0 <= b < m,
        a >= 0,
    ensures
        (a + (m - b) % m) % m == (a - b) % m,
{
    vstd::arithmetic::div_mod::lemma_add_mod_noop_right(a, m - b, m);
    vstd::arithmetic::div_mod::lemma_mod_add_multiples_vanish(a - b, m);
    assert(a + (m - b) == m + (a - b));
}

impl PartialEq for Fr {
    fn eq(&self, o: &Fr) -> (r: bool) {
        let mut i: usize = 0;
        while i < 32
            invariant
                i <= 32,
                forall|j: int| 0 <= j < i ==> self.repr@[j] == o.repr@[j],
            decreases 32 - i,
        {
            if self.repr[i] != o.repr[i] {
                return false;
            }
            i = i + 1;
        }
        assert(self.repr@ =~= o.repr@);
        true
    }
}

impl vstd::std_specs::cmp::PartialEqSpecImpl for Fr {
    open spec fn obeys_eq_spec() -> bool {
        true
    }

    open spec fn eq_spec(&self, o: &Fr) -> bool {
        self.repr@ == o.repr@
    }
}

impl Eq for Fr {
}

impl From<u64> for Fr {
    fn from(x: u64) -> (r: Fr) {
        let r = Fr::from_u64(x);
        proof {
            let c = choose|f: Fr| f.val() == x as nat;
            assert(r.val() == x as nat);
            lemma_be_nat_injective(r.repr@, c.repr@);
            assert(r.repr =~= c.repr);
        }
        r
    }
}

impl vstd::std_specs::convert::FromSpecImpl<u64> for Fr {
    open spec fn obeys_from_spec() -> bool {
        true
    }

    /// The element whose value is `x`.
    open spec fn from_spec(x: u64) -> Fr {
        choose|f: Fr| f.val() == x as nat
    }
}

} // verus!
