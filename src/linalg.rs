//! Vectors and row-oriented matrices of field elements.
use crate::field::{lemma_be_nat_injective, modulus, Fr};
use vstd::prelude::*;

verus! {

/// Every element is a canonical field element.
pub open spec fn all_wf(s: Seq<Fr>) -> bool {
    forall|i: int| 0 <= i < s.len() ==> (#[trigger] s[i]).wf()
}

/// The values of a sequence of field elements.
pub open spec fn vals(s: Seq<Fr>) -> Seq<nat> {
    s.map_values(|f: Fr| f.val())
}

/// The sum of the products of matching entries, reduced modulo the field's order.
pub open spec fn dot_vals(a: Seq<nat>, b: Seq<nat>) -> nat
    decreases a.len(),
{
    if a.len() == 0 || b.len() == 0 {
        0
    } else {
        (dot_vals(a.drop_last(), b.drop_last()) + a.last() * b.last()) % modulus()
    }
}

/// The dot product of two sequences of field elements.
pub open spec fn dot_spec(a: Seq<Fr>, b: Seq<Fr>) -> nat {
    dot_vals(vals(a), vals(b))
}

/// `a * b` in the field.
pub open spec fn fmul(a: nat, b: nat) -> nat {
    (a * b) % modulus()
}

/// `a + b` in the field.
pub open spec fn fadd(a: nat, b: nat) -> nat {
    (a + b) % modulus()
}

/// `a - b` in the field.
pub open spec fn fsub(a: nat, b: nat) -> nat {
    ((a - b) % (modulus() as int)) as nat
}

/// A vector of field elements.
#[derive(Clone, Debug)]
pub struct FrVec(pub Vec<Fr>);

/// A vector's dot product with another of its kind.
pub trait DotProduct: Sized {
    type Inner;

    spec fn dot_requires(&self, rhs: &Self) -> bool;

    spec fn dot_ensures(&self, rhs: &Self, r: Self::Inner) -> bool;

    fn dot(&self, rhs: &Self) -> (r: Self::Inner)
        requires
            self.dot_requires(rhs),
        ensures
            self.dot_ensures(rhs, r),
    ;
}

impl FrVec {
    pub open spec fn wf(&self) -> bool {
        all_wf(self.0@)
    }

    pub open spec fn len(&self) -> nat {
        self.0@.len()
    }

    /// Equal lengths and equal entries.
    pub open spec fn same(&self, rhs: &FrVec) -> bool {
        self.len() == rhs.len() && forall|j: int|
            0 <= j < self.len() ==> self.0@[j].repr@ == rhs.0@[j].repr@
    }

    /// The value of entry `i`.
    pub open spec fn at(&self, i: int) -> nat {
        self.0@[i].val()
    }

    /// Entrywise sum.
    pub fn add(&self, rhs: &FrVec) -> (r: FrVec)
        requires
            self.len() == rhs.len(),
        ensures
            r.wf(),
            r.len() == self.len(),
            forall|i: int| 0 <= i < r.len() ==> r.at(i) == fadd(self.at(i), rhs.at(i)),
    {
        let n = self.0.len();
        let mut out: Vec<Fr> = Vec::with_capacity(n);
        let mut i: usize = 0;
        while i < n
            invariant
                n == self.len(),
                n == rhs.len(),
                i <= n,
                out@.len() == i,
                all_wf(out@),
                forall|j: int| 0 <= j < i ==> out@[j].val() == fadd(self.at(j), rhs.at(j)),
            decreases n - i,
        {
            out.push(self.0[i].add(&rhs.0[i]));
            i = i + 1;
        }
        FrVec(out)
    }

    /// Entrywise difference.
    pub fn sub(&self, rhs: &FrVec) -> (r: FrVec)
        requires
            self.len() == rhs.len(),
            rhs.wf(),
        ensures
            r.wf(),
            r.len() == self.len(),
            forall|i: int| 0 <= i < r.len() ==> r.at(i) == fsub(self.at(i), rhs.at(i)),
    {
        let n = self.0.len();
        let mut out: Vec<Fr> = Vec::with_capacity(n);
        let mut i: usize = 0;
        while i < n
            invariant
                n == self.len(),
                n == rhs.len(),
                rhs.wf(),
                i <= n,
                out@.len() == i,
                all_wf(out@),
                forall|j: int| 0 <= j < i ==> out@[j].val() == fsub(self.at(j), rhs.at(j)),
            decreases n - i,
        {
            assert(rhs.0@[i as int].wf());
            out.push(self.0[i].sub(&rhs.0[i]));
            i = i + 1;
        }
        FrVec(out)
    }

    /// Subtracts `rhs` entry by entry, in place.
    pub fn sub_assign(&mut self, rhs: &FrVec)
        requires
            old(self).len() == rhs.len(),
            rhs.wf(),
        ensures
            final(self).wf(),
            final(self).len() == old(self).len(),
            forall|i: int|
                0 <= i < final(self).len() ==> final(self).at(i) == fsub(old(self).at(i), rhs.at(i)),
    {
        let r = self.sub(rhs);
        *self = r;
    }

    /// Entrywise product.
    pub fn mul(&self, rhs: &FrVec) -> (r: FrVec)
        requires
            self.len() == rhs.len(),
        ensures
            r.wf(),
            r.len() == self.len(),
            forall|i: int| 0 <= i < r.len() ==> r.at(i) == fmul(self.at(i), rhs.at(i)),
    {
        let n = self.0.len();
        let mut out: Vec<Fr> = Vec::with_capacity(n);
        let mut i: usize = 0;
        while i < n
            invariant
                n == self.len(),
                n == rhs.len(),
                i <= n,
                out@.len() == i,
                all_wf(out@),
                forall|j: int| 0 <= j < i ==> out@[j].val() == fmul(self.at(j), rhs.at(j)),
            decreases n - i,
        {
            out.push(self.0[i].mul(&rhs.0[i]));
            i = i + 1;
        }
        FrVec(out)
    }

    /// Entrywise negation.
    pub fn neg(&self) -> (r: FrVec)
        requires
            self.wf(),
        ensures
            r.wf(),
            r.len() == self.len(),
            forall|i: int| 0 <= i < r.len() ==> r.at(i) == fsub(0, self.at(i)),
    {
        let n = self.0.len();
        let mut out: Vec<Fr> = Vec::with_capacity(n);
        let mut i: usize = 0;
        while i < n
            invariant
                n == self.len(),
                self.wf(),
                i <= n,
                out@.len() == i,
                all_wf(out@),
                forall|j: int| 0 <= j < i ==> out@[j].val() == fsub(0, self.at(j)),
            decreases n - i,
        {
            assert(self.0@[i as int].wf());
            let x = self.0[i].neg();
            proof {
                let m = modulus() as int;
                let v = self.at(i as int) as int;
                vstd::arithmetic::div_mod::lemma_mod_add_multiples_vanish(0 - v, m);
                assert(m - v == m + (0 - v));
            }
            out.push(x);
            i = i + 1;
        }
        FrVec(out)
    }

    /// Every entry times one scalar.
    pub fn scalar_mul(&self, rhs: &Fr) -> (r: FrVec)
        ensures
            r.wf(),
            r.len() == self.len(),
            forall|i: int| 0 <= i < r.len() ==> r.at(i) == fmul(self.at(i), rhs.val()),
    {
        let n = self.0.len();
        let mut out: Vec<Fr> = Vec::with_capacity(n);
        let mut i: usize = 0;
        while i < n
            invariant
                n == self.len(),
                i <= n,
                out@.len() == i,
                all_wf(out@),
                forall|j: int| 0 <= j < i ==> out@[j].val() == fmul(self.at(j), rhs.val()),
            decreases n - i,
        {
            out.push(self.0[i].mul(rhs));
            i = i + 1;
        }
        FrVec(out)
    }

    /// Entry `i` of the product with a matrix is the dot product with row `i`.
    pub fn mul_matrix(&self, m: &FrMatrix) -> (r: FrVec)
        requires
            forall|i: int| 0 <= i < m.rows() ==> (#[trigger] m.0@[i]).len() == self.len(),
        ensures
            r.wf(),
            r.len() == m.rows(),
            forall|i: int| 0 <= i < r.len() ==> r.at(i) == dot_spec(self.0@, m.0@[i].0@),
    {
        let n = m.0.len();
        let mut out: Vec<Fr> = Vec::with_capacity(n);
        let mut i: usize = 0;
        while i < n
            invariant
                n == m.rows(),
                forall|i: int| 0 <= i < m.rows() ==> (#[trigger] m.0@[i]).len() == self.len(),
                i <= n,
                out@.len() == i,
                all_wf(out@),
                forall|j: int| 0 <= j < i ==> out@[j].val() == dot_spec(self.0@, m.0@[j].0@),
            decreases n - i,
        {
            assert(m.0@[i as int].len() == self.len());
            out.push(self.dot(&m.0[i]));
            i = i + 1;
        }
        FrVec(out)
    }
}

impl DotProduct for FrVec {
    type Inner = Fr;

    open spec fn dot_requires(&self, rhs: &Self) -> bool {
        self.len() == rhs.len()
    }

    open spec fn dot_ensures(&self, rhs: &Self, r: Fr) -> bool {
        r.wf() && r.val() == dot_spec(self.0@, rhs.0@)
    }

    fn dot(&self, rhs: &Self) -> (r: Fr) {
        let n = self.0.len();
        let mut acc = Fr::zero();
        let mut i: usize = 0;
        while i < n
            invariant
                n == self.len(),
                n == rhs.len(),
                i <= n,
                acc.wf(),
                acc.val() == dot_spec(self.0@.take(i as int), rhs.0@.take(i as int)),
            decreases n - i,
        {
            let p = self.0[i].mul(&rhs.0[i]);
            let next = acc.add(&p);
            proof {
                let a = self.0@.take(i + 1);
                let b = rhs.0@.take(i + 1);
                assert(vals(a).drop_last() =~= vals(self.0@.take(i as int)));
                assert(vals(b).drop_last() =~= vals(rhs.0@.take(i as int)));
                vstd::arithmetic::div_mod::lemma_add_mod_noop_right(
                    acc.val() as int,
                    (self.0@[i as int].val() * rhs.0@[i as int].val()) as int,
                    modulus() as int,
                );
            }
            acc = next;
            i = i + 1;
        }
        proof {
            assert(self.0@.take(n as int) =~= self.0@);
            assert(rhs.0@.take(n as int) =~= rhs.0@);
        }
        acc
    }
}

impl PartialEq for FrVec {
    fn eq(&self, rhs: &FrVec) -> (r: bool) {
        if self.0.len() != rhs.0.len() {
            return false;
        }
        let n = self.0.len();
        let mut i: usize = 0;
        while i < n
            invariant
                n == self.len(),
                n == rhs.len(),
                i <= n,
                forall|j: int| 0 <= j < i ==> self.0@[j].repr@ == rhs.0@[j].repr@,
            decreases n - i,
        {
            if self.0[i] != rhs.0[i] {
                return false;
            }
            i = i + 1;
        }
        true
    }
}

impl vstd::std_specs::cmp::PartialEqSpecImpl for FrVec {
    open spec fn obeys_eq_spec() -> bool {
        true
    }

    open spec fn eq_spec(&self, rhs: &FrVec) -> bool {
        self.same(rhs)
    }
}

/// A matrix held as its rows.
#[derive(Clone, Debug)]
pub struct FrMatrix(pub Vec<FrVec>);

impl FrMatrix {
    pub open spec fn rows(&self) -> nat {
        self.0@.len()
    }

    /// Entry `(i, j)`: column `j` of row `i`.
    pub open spec fn entry(&self, i: int, j: int) -> Fr {
        self.0@[i].0@[j]
    }

    /// Every row has `cols` entries.
    pub open spec fn is_rect(&self, cols: nat) -> bool {
        forall|i: int| 0 <= i < self.rows() ==> (#[trigger] self.0@[i]).len() == cols
    }

    /// The number of entries in each row of a matrix with at least one row.
    pub open spec fn cols(&self) -> nat {
        self.0@[0].len()
    }

    /// Row `i` of `self` is column `i` of `m`, a matrix with at least one row.
    pub open spec fn is_transpose_of(&self, m: &FrMatrix) -> bool {
        &&& self.rows() == m.cols()
        &&& self.is_rect(m.rows())
        &&& forall|i: int, j: int|
            0 <= i < self.rows() && 0 <= j < m.rows() ==> #[trigger] self.entry(i, j) == m.entry(
                j,
                i,
            )
    }

    /// The transpose: row `i` of the result is column `i` of `self`.
    pub fn transpose(&self) -> (r: FrMatrix)
        requires
            self.rows() >= 1,
            self.is_rect(self.cols()),
        ensures
            r.is_transpose_of(self),
    {
        let outer_len = self.0.len();
        let inner_len = self.0[0].0.len();
        let mut res: Vec<FrVec> = Vec::with_capacity(inner_len);
        let mut i: usize = 0;
        while i < inner_len
            invariant
                outer_len == self.rows(),
                inner_len == self.cols(),
                self.is_rect(self.cols()),
                i <= inner_len,
                res@.len() == i,
                forall|k: int| 0 <= k < i ==> (#[trigger] res@[k]).len() == outer_len,
                forall|k: int, j: int|
                    0 <= k < i && 0 <= j < outer_len ==> #[trigger] res@[k].0@[j] == self.entry(
                        j,
                        k,
                    ),
            decreases inner_len - i,
        {
            let mut new: Vec<Fr> = Vec::with_capacity(outer_len);
            let mut j: usize = 0;
            while j < outer_len
                invariant
                    outer_len == self.rows(),
                    inner_len == self.cols(),
                    self.is_rect(self.cols()),
                    i < inner_len,
                    j <= outer_len,
                    new@.len() == j,
                    forall|t: int| 0 <= t < j ==> #[trigger] new@[t] == self.entry(t, i as int),
                decreases outer_len - j,
            {
                assert(self.0@[j as int].len() == inner_len);
                new.push(self.0[j].0[i]);
                j = j + 1;
            }
            res.push(FrVec(new));
            i = i + 1;
        }
        FrMatrix(res)
    }

    /// `(rows, columns)` of a matrix with at least one row.
    pub fn dim(&self) -> (r: (usize, usize))
        requires
            self.rows() >= 1,
        ensures
            r.0 == self.rows(),
            r.1 == self.cols(),
    {
        (self.0.len(), self.0[0].0.len())
    }
}

impl PartialEq for FrMatrix {
    fn eq(&self, rhs: &FrMatrix) -> (r: bool) {
        if self.0.len() != rhs.0.len() {
            return false;
        }
        let n = self.0.len();
        let mut i: usize = 0;
        while i < n
            invariant
                n == self.rows(),
                n == rhs.rows(),
                i <= n,
                forall|j: int| 0 <= j < i ==> (#[trigger] self.0@[j]).same(&rhs.0@[j]),
            decreases n - i,
        {
            if self.0[i] != rhs.0[i] {
                return false;
            }
            i = i + 1;
        }
        true
    }
}

impl vstd::std_specs::cmp::PartialEqSpecImpl for FrMatrix {
    open spec fn obeys_eq_spec() -> bool {
        true
    }

    open spec fn eq_spec(&self, rhs: &FrMatrix) -> bool {
        self.rows() == rhs.rows() && forall|j: int|
            0 <= j < self.rows() ==> (#[trigger] self.0@[j]).same(&rhs.0@[j])
    }
}

/// Transposing twice gives back a matrix with at least one row and one column.
pub proof fn lemma_transpose_involution(m: FrMatrix, t: FrMatrix, tt: FrMatrix)
    requires
        m.rows() >= 1,
        m.cols() >= 1,
        m.is_rect(m.cols()),
        t.is_transpose_of(&m),
        tt.is_transpose_of(&t),
    ensures
        tt.rows() == m.rows(),
        tt.is_rect(m.cols()),
        forall|i: int, j: int|
            0 <= i < m.rows() && 0 <= j < m.cols() ==> #[trigger] tt.entry(i, j) == m.entry(i, j),
{
    assert(t.0@[0].len() == m.rows());
    assert forall|i: int, j: int| 0 <= i < m.rows() && 0 <= j < m.cols() implies #[trigger] tt.entry(
        i,
        j,
    ) == m.entry(i, j) by {
        assert(tt.entry(i, j) == t.entry(j, i));
        assert(t.entry(j, i) == m.entry(i, j));
    }
}

/// Field elements of equal values are equal.
pub proof fn lemma_vals_injective(a: Seq<Fr>, b: Seq<Fr>)
    requires
        vals(a) == vals(b),
    ensures
        a == b,
{
    assert(a.len() == vals(a).len());
    assert(b.len() == vals(b).len());
    assert forall|i: int| 0 <= i < a.len() implies a[i] == b[i] by {
        assert(vals(a)[i] == a[i].val());
        assert(vals(b)[i] == b[i].val());
        lemma_be_nat_injective(a[i].repr@, b[i].repr@);
        assert(a[i].repr =~= b[i].repr);
    }
    assert(a =~= b);
}

} // verus!
