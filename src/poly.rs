//! Circle domains, evaluations on them, and the polynomials they determine.
//!
//! A domain of size `n` is a half coset `H` of size `n/2` together with its
//! conjugate. A polynomial on it is `p(x) + y q(x)` with `deg p, q < n/2`;
//! it is kept as the values of `p` and `q` at the `x` coordinates of `H`, and
//! evaluated anywhere by Lagrange interpolation in `x`.
use crate::circle::{circle_gen_spec, cp_mul, PointV, idx_mod, coset_index, CirclePoint, CirclePointIndex, Coset, CIRCLE_LOG_ORDER, CIRCLE_ORDER};
use crate::fields::{qm_add, qm_inv, qm_mul, qm_one, qm_sub, qm_zero, QM31, QmV};
use vstd::prelude::*;

verus! {

/// A circle domain: `half_coset` and its conjugate.
#[derive(Clone, Copy, Debug, PartialEq, Eq, Structural)]
pub struct CircleDomain {
    pub half_coset: Coset,
}

/// Index of the `i`-th point of the domain with half coset `h` of size `hs`.
pub open spec fn domain_index(h: Coset, hs: int, i: int) -> int {
    if i < hs {
        coset_index(h.initial_index.0, h.step_size.0, i)
    } else {
        idx_mod(CIRCLE_ORDER - coset_index(h.initial_index.0, h.step_size.0, i - hs))
    }
}

impl CircleDomain {
    pub open spec fn wf(&self) -> bool {
        &&& self.half_coset.wf()
        &&& self.half_coset.log_size < 30
    }

    pub open spec fn half_size(&self) -> int {
        vstd::arithmetic::power2::pow2(self.half_coset.log_size as nat) as int
    }

    pub open spec fn index_spec(&self, i: int) -> int {
        domain_index(self.half_coset, self.half_size(), i)
    }

    pub fn new(half_coset: Coset) -> (r: CircleDomain)
        ensures
            r.half_coset == half_coset,
    {
        CircleDomain { half_coset }
    }

    /// The domain on which constraint quotients of a trace of size
    /// `2^(log_size - 1)` are evaluated: the coset of the generator.
    pub fn constraint_evaluation_domain(log_size: u32) -> (r: CircleDomain)
        requires
            1 <= log_size <= 30,
        ensures
            r.wf(),
            r.half_coset.initial_index.0 == 1,
            r.half_coset.log_size == log_size - 1,
    {
        CircleDomain::new(Coset::new(CirclePointIndex::generator(), log_size - 1))
    }

    pub fn log_size(&self) -> (r: u32)
        requires
            self.wf(),
        ensures
            r == self.half_coset.log_size + 1,
    {
        self.half_coset.log_size + 1
    }

    pub fn half_len(&self) -> (r: usize)
        requires
            self.wf(),
        ensures
            r == self.half_size(),
            r < 0x4000_0000,
    {
        proof {
            vstd::arithmetic::power2::lemma2_to64();
            vstd::arithmetic::power2::lemma_pow2_strictly_increases(self.half_coset.log_size as nat, 30);
        }
        self.half_coset.size()
    }

    pub fn size(&self) -> (r: usize)
        requires
            self.wf(),
        ensures
            r == 2 * self.half_size(),
    {
        2 * self.half_len()
    }

    /// The index of the `i`-th point: first the half coset, then its conjugate.
    pub fn index_at(&self, i: usize) -> (r: CirclePointIndex)
        requires
            self.wf(),
        ensures
            r.0 == self.index_spec(i as int),
    {
        let h = self.half_len();
        if i < h {
            self.half_coset.index_at(i)
        } else {
            self.half_coset.index_at(i - h).neg()
        }
    }

    /// The `i`-th point.
    pub open spec fn point_spec(&self, i: int) -> PointV {
        cp_mul(circle_gen_spec(), self.index_spec(i) as nat)
    }

    pub fn at(&self, i: usize) -> (r: CirclePoint)
        requires
            self.wf(),
        ensures
            r@ == self.point_spec(i as int),
    {
        self.index_at(i).to_point()
    }

    /// The indices of all points, in domain order.
    pub fn iter_indices(&self) -> (r: Vec<CirclePointIndex>)
        requires
            self.wf(),
        ensures
            r@.len() == 2 * self.half_size(),
            forall|i: int| 0 <= i < r@.len() ==> r@[i].0 == #[trigger] self.index_spec(i),
    {
        let n = self.size();
        let mut r: Vec<CirclePointIndex> = Vec::new();
        let mut i: usize = 0;
        while i < n
            invariant
                self.wf(),
                n == 2 * self.half_size(),
                i <= n,
                r@.len() == i,
                forall|j: int| 0 <= j < i ==> r@[j].0 == #[trigger] self.index_spec(j),
            decreases n - i,
        {
            r.push(self.index_at(i));
            i = i + 1;
        }
        r
    }

    /// The position of the point with index `index` in the domain.
    pub fn find(&self, index: CirclePointIndex) -> (r: Option<usize>)
        requires
            self.wf(),
        ensures
            r matches Some(i) ==> i < 2 * self.half_size() && self.index_spec(i as int) == idx_mod(index.0 as int),
            r is None ==> forall|i: int| 0 <= i < 2 * self.half_size() ==> #[trigger] self.index_spec(i) != idx_mod(index.0 as int),
    {
        let n = self.size();
        let target = index.0 % CIRCLE_ORDER;
        let mut i: usize = 0;
        while i < n
            invariant
                self.wf(),
                n == 2 * self.half_size(),
                i <= n,
                target == idx_mod(index.0 as int),
                forall|j: int| 0 <= j < i ==> #[trigger] self.index_spec(j) != target,
            decreases n - i,
        {
            if self.index_at(i).0 == target {
                return Some(i);
            }
            i = i + 1;
        }
        None
    }
}

/// A canonic coset: the odd multiples of the generator of order
/// `2^(log_size + 1)`, the natural domain of a trace of size `2^log_size`.
#[derive(Clone, Copy, Debug, PartialEq, Eq, Structural)]
pub struct CanonicCoset {
    pub coset: Coset,
}

impl CanonicCoset {
    pub open spec fn wf(&self) -> bool {
        &&& self.coset.wf()
        &&& 1 <= self.coset.log_size < 30
        &&& self.coset.initial_index.0 as int * vstd::arithmetic::power2::pow2(self.coset.log_size as nat + 1)
            == CIRCLE_ORDER
    }

    pub fn new(log_size: u32) -> (r: CanonicCoset)
        requires
            1 <= log_size < 30,
        ensures
            r.wf(),
            r.coset.log_size == log_size,
    {
        CanonicCoset { coset: Coset::odds(log_size) }
    }

    pub fn log_size(&self) -> (r: u32)
        ensures
            r == self.coset.log_size,
    {
        self.coset.log_size
    }

    pub fn size(&self) -> (r: usize)
        requires
            self.wf(),
        ensures
            r == vstd::arithmetic::power2::pow2(self.coset.log_size as nat),
    {
        self.coset.size()
    }

    pub fn index_at(&self, i: usize) -> (r: CirclePointIndex)
        ensures
            r.0 == coset_index(self.coset.initial_index.0, self.coset.step_size.0, i as int),
    {
        self.coset.index_at(i)
    }

    pub fn initial_index(&self) -> (r: CirclePointIndex)
        ensures
            r == self.coset.initial_index,
    {
        self.coset.initial_index
    }

    /// The same points as a circle domain.
    pub fn circle_domain(&self) -> (r: CircleDomain)
        requires
            self.wf(),
        ensures
            r.wf(),
            r.half_coset.log_size + 1 == self.coset.log_size,
            r.half_coset.initial_index == self.coset.initial_index,
    {
        let r = CircleDomain::new(Coset::half_odds(self.coset.log_size - 1));
        proof {
            let a = r.half_coset.initial_index.0 as int;
            let b = self.coset.initial_index.0 as int;
            let p = vstd::arithmetic::power2::pow2(self.coset.log_size as nat + 1) as int;
            assert((self.coset.log_size - 1) as nat + 2 == self.coset.log_size as nat + 1);
            vstd::arithmetic::power2::lemma_pow2_pos(self.coset.log_size as nat + 1);
            assert(a == b) by (nonlinear_arith)
                requires
                    a * p == b * p,
                    p > 0,
            ;
        }
        r
    }

    /// A domain of size `2^log_size` on which the trace is extended: the coset
    /// of the generator, shifted by this coset's offset.
    pub fn evaluation_domain(&self, log_size: u32) -> (r: CircleDomain)
        requires
            self.wf(),
            self.coset.log_size < log_size <= 30,
        ensures
            r.wf(),
            r.half_coset.log_size == log_size - 1,
            r.half_coset.initial_index.0 == idx_mod(1 + self.coset.initial_index.0),
    {
        let g = CirclePointIndex::subgroup_gen(self.coset.log_size + 1);
        proof {
            let a = g.0 as int;
            let b = self.coset.initial_index.0 as int;
            let p = vstd::arithmetic::power2::pow2(self.coset.log_size as nat + 1) as int;
            vstd::arithmetic::power2::lemma_pow2_pos(self.coset.log_size as nat + 1);
            assert(a == b) by (nonlinear_arith)
                requires
                    a * p == b * p,
                    p > 0,
            ;
        }
        let initial = CirclePointIndex::generator().add(g);
        CircleDomain::new(Coset::new(initial, log_size - 1))
    }
}

/// Values on the points of a domain, in domain order.
#[derive(Clone, Debug)]
pub struct CircleEvaluation {
    pub domain: CircleDomain,
    pub values: Vec<QM31>,
}

impl CircleEvaluation {
    pub open spec fn wf(&self) -> bool {
        &&& self.domain.wf()
        &&& self.values@.len() == 2 * self.domain.half_size()
    }

    pub fn new(domain: CircleDomain, values: Vec<QM31>) -> (r: CircleEvaluation)
        ensures
            r.domain == domain,
            r.values@ == values@,
    {
        CircleEvaluation { domain, values }
    }

    /// Values given in the order of the canonic coset's points, rearranged to
    /// the order of its circle domain: the even positions ascending, then the
    /// odd positions descending.
    pub fn new_canonical_ordered(coset: CanonicCoset, values: Vec<QM31>) -> (r: CircleEvaluation)
        requires
            coset.wf(),
            values@.len() == vstd::arithmetic::power2::pow2(coset.coset.log_size as nat),
        ensures
            r.wf(),
            r.domain.half_coset.log_size + 1 == coset.coset.log_size,
            r.domain.half_coset.initial_index == coset.coset.initial_index,
            r.values@.len() == values@.len(),
            forall|i: int| 0 <= i < values@.len() / 2 ==> #[trigger] r.values@[i] == values@[2 * i],
            forall|i: int| values@.len() / 2 <= i < values@.len() ==> #[trigger] r.values@[i]
                == values@[values@.len() - 1 - 2 * (i - values@.len() / 2)],
    {
        let domain = coset.circle_domain();
        let n = values.len();
        let h = domain.half_len();
        proof {
            vstd::arithmetic::power2::lemma_pow2_unfold(coset.coset.log_size as nat);
        }
        let mut out: Vec<QM31> = Vec::new();
        let mut i: usize = 0;
        while i < h
            invariant
                n == values@.len(),
                n == 2 * h,
                i <= h,
                out@.len() == i,
                forall|j: int| 0 <= j < i ==> #[trigger] out@[j] == values@[2 * j],
            decreases h - i,
        {
            out.push(values[2 * i]);
            i = i + 1;
        }
        let mut i: usize = 0;
        while i < h
            invariant
                n == values@.len(),
                n == 2 * h,
                i <= h,
                out@.len() == h + i,
                forall|j: int| 0 <= j < h ==> #[trigger] out@[j] == values@[2 * j],
                forall|j: int| h <= j < h + i ==> #[trigger] out@[j] == values@[n - 1 - 2 * (j - h)],
            decreases h - i,
        {
            out.push(values[n - 1 - 2 * i]);
            i = i + 1;
        }
        CircleEvaluation { domain, values: out }
    }

    /// The value at the point with index `index`, which must lie in the domain.
    pub fn get_at(&self, index: CirclePointIndex) -> (r: QM31)
        requires
            self.wf(),
            exists|i: int| 0 <= i < 2 * self.domain.half_size() && #[trigger] self.domain.index_spec(i) == idx_mod(index.0 as int),
        ensures
            exists|i: int| 0 <= i < self.values@.len() && self.domain.index_spec(i) == idx_mod(index.0 as int) && r == self.values@[i],
    {
        match self.domain.find(index) {
            Some(i) => self.values[i],
            None => {
                proof {
                    let i = choose|i: int| 0 <= i < 2 * self.domain.half_size() && #[trigger] self.domain.index_spec(i) == idx_mod(index.0 as int);
                    assert(self.domain.index_spec(i) != idx_mod(index.0 as int));
                }
                QM31::zero()
            }
        }
    }
}


/// `prod_{m < len, m != k} (x - xs[m])`.
pub open spec fn prod_except(xs: Seq<QmV>, k: int, x: QmV, len: nat) -> QmV
    decreases len,
{
    if len == 0 {
        qm_one()
    } else {
        let p = prod_except(xs, k, x, (len - 1) as nat);
        if len - 1 == k {
            p
        } else {
            qm_mul(p, qm_sub(x, xs[len - 1]))
        }
    }
}

/// `sum_{k < len} w[k] v[k] prod_except(xs, k, x)`: the polynomial through the
/// nodes `xs` with values `v`, when `w` are the barycentric weights.
pub open spec fn lagrange(xs: Seq<QmV>, w: Seq<QmV>, v: Seq<QmV>, x: QmV, len: nat) -> QmV
    decreases len,
{
    if len == 0 {
        qm_zero()
    } else {
        let k = len - 1;
        qm_add(
            lagrange(xs, w, v, x, k as nat),
            qm_mul(qm_mul(w[k], v[k]), prod_except(xs, k, x, xs.len())),
        )
    }
}

/// A polynomial `p(x) + y q(x)`, held as the values of `p` and `q` at the
/// nodes `xs` with the barycentric weights of those nodes.
#[derive(Clone, Debug)]
pub struct CirclePoly {
    pub xs: Vec<QM31>,
    pub weights: Vec<QM31>,
    pub even: Vec<QM31>,
    pub odd: Vec<QM31>,
}

pub open spec fn qseq(v: Seq<QM31>) -> Seq<QmV> {
    v.map_values(|e: QM31| e@)
}

fn prod_except_exec(xs: &Vec<QM31>, k: usize, x: QM31) -> (r: QM31)
    ensures
        r@ == prod_except(qseq(xs@), k as int, x@, xs@.len()),
{
    let mut p = QM31::one();
    let mut m: usize = 0;
    while m < xs.len()
        invariant
            m <= xs@.len(),
            p@ == prod_except(qseq(xs@), k as int, x@, m as nat),
        decreases xs@.len() - m,
    {
        if m != k {
            p = p.mul(x.sub(xs[m]));
        }
        m = m + 1;
    }
    p
}

fn lagrange_exec(xs: &Vec<QM31>, w: &Vec<QM31>, v: &Vec<QM31>, x: QM31) -> (r: QM31)
    requires
        w@.len() == xs@.len(),
        v@.len() == xs@.len(),
    ensures
        r@ == lagrange(qseq(xs@), qseq(w@), qseq(v@), x@, xs@.len()),
{
    let mut s = QM31::zero();
    let mut k: usize = 0;
    while k < xs.len()
        invariant
            k <= xs@.len(),
            w@.len() == xs@.len(),
            v@.len() == xs@.len(),
            s@ == lagrange(qseq(xs@), qseq(w@), qseq(v@), x@, k as nat),
        decreases xs@.len() - k,
    {
        let t = w[k].mul(v[k]).mul(prod_except_exec(xs, k, x));
        s = s.add(t);
        k = k + 1;
    }
    s
}

/// The barycentric weights `1 / prod_{m != k} (xs[k] - xs[m])` of the nodes.
fn barycentric_weights(xs: &Vec<QM31>) -> (r: Vec<QM31>)
    ensures
        r@.len() == xs@.len(),
        forall|k: int| 0 <= k < xs@.len() ==> (#[trigger] r@[k])@ == qm_inv(
            prod_except(qseq(xs@), k, xs@[k]@, xs@.len()),
        ),
{
    let mut weights: Vec<QM31> = Vec::new();
    let mut k: usize = 0;
    while k < xs.len()
        invariant
            k <= xs@.len(),
            weights@.len() == k,
            forall|j: int| 0 <= j < k ==> (#[trigger] weights@[j])@ == qm_inv(
                prod_except(qseq(xs@), j, xs@[j]@, xs@.len()),
            ),
        decreases xs@.len() - k,
    {
        weights.push(prod_except_exec(xs, k, xs[k]).inverse());
        k = k + 1;
    }
    weights
}

impl CirclePoly {
    pub open spec fn wf(&self) -> bool {
        &&& self.weights@.len() == self.xs@.len()
        &&& self.even@.len() == self.xs@.len()
        &&& self.odd@.len() == self.xs@.len()
    }

    /// The value `p(x) + y q(x)` at `(x, y)`.
    pub open spec fn eval_spec(&self, x: QmV, y: QmV) -> QmV {
        let xs = qseq(self.xs@);
        let w = qseq(self.weights@);
        qm_add(
            lagrange(xs, w, qseq(self.even@), x, xs.len()),
            qm_mul(y, lagrange(xs, w, qseq(self.odd@), x, xs.len())),
        )
    }

    pub fn eval_at_point(&self, point: CirclePoint) -> (r: QM31)
        requires
            self.wf(),
        ensures
            r@ == self.eval_spec(point@.0, point@.1),
    {
        let p = lagrange_exec(&self.xs, &self.weights, &self.even, point.x);
        let q = lagrange_exec(&self.xs, &self.weights, &self.odd, point.x);
        p.add(point.y.mul(q))
    }

    /// The values at every point of `domain`, in domain order.
    pub fn evaluate(&self, domain: CircleDomain) -> (r: CircleEvaluation)
        requires
            self.wf(),
            domain.wf(),
        ensures
            r.wf(),
            r.domain == domain,
            forall|i: int| 0 <= i < r.values@.len() ==> (#[trigger] r.values@[i])@ == self.eval_spec(
                domain.point_spec(i).0,
                domain.point_spec(i).1,
            ),
    {
        let n = domain.size();
        let mut values: Vec<QM31> = Vec::new();
        let mut i: usize = 0;
        while i < n
            invariant
                self.wf(),
                domain.wf(),
                n == 2 * domain.half_size(),
                i <= n,
                values@.len() == i,
                forall|j: int| 0 <= j < i ==> (#[trigger] values@[j])@ == self.eval_spec(
                    domain.point_spec(j).0,
                    domain.point_spec(j).1,
                ),
            decreases n - i,
        {
            values.push(self.eval_at_point(domain.at(i)));
            i = i + 1;
        }
        CircleEvaluation { domain, values }
    }
}

impl CircleEvaluation {
    /// `p` is the polynomial through these values: its nodes are the x
    /// coordinates of the half coset, its `p` and `q` values are recovered from
    /// each point and its conjugate, and its weights are the barycentric
    /// weights of the nodes.
    pub open spec fn interpolated_by(&self, r: CirclePoly) -> bool {
        &&& r.wf()
        &&& r.xs@.len() == self.domain.half_size()
        &&& forall|k: int| 0 <= k < r.xs@.len() ==> {
            let h = self.domain.half_size();
            let two = qm_add(qm_one(), qm_one());
            &&& (#[trigger] r.xs@[k])@ == self.domain.point_spec(k).0
            &&& r.even@[k]@ == qm_mul(qm_add(self.values@[k]@, self.values@[k + h]@), qm_inv(two))
            &&& r.odd@[k]@ == qm_mul(
                qm_sub(self.values@[k]@, self.values@[k + h]@),
                qm_inv(qm_mul(two, self.domain.point_spec(k).1)),
            )
            &&& r.weights@[k]@ == qm_inv(prod_except(qseq(r.xs@), k, r.xs@[k]@, r.xs@.len()))
        }
    }

    /// The polynomial `p(x) + y q(x)`, `deg p, q < n/2`, that takes these
    /// values. At the half-coset point `(x_k, y_k)` and its conjugate:
    /// `p(x_k) = (v_k + v'_k) / 2` and `q(x_k) = (v_k - v'_k) / (2 y_k)`.
    pub fn interpolate(&self) -> (r: CirclePoly)
        requires
            self.wf(),
        ensures
            self.interpolated_by(r),
    {
        let h = self.domain.half_len();
        let two = QM31::one().add(QM31::one());
        let half = two.inverse();
        let mut xs: Vec<QM31> = Vec::new();
        let mut even: Vec<QM31> = Vec::new();
        let mut odd: Vec<QM31> = Vec::new();
        let mut k: usize = 0;
        while k < h
            invariant
                self.wf(),
                h == self.domain.half_size(),
                h < 0x4000_0000,
                k <= h,
                xs@.len() == k,
                even@.len() == k,
                odd@.len() == k,
                two@ == qm_add(qm_one(), qm_one()),
                half@ == qm_inv(two@),
                forall|j: int| 0 <= j < k ==> {
                    &&& (#[trigger] xs@[j])@ == self.domain.point_spec(j).0
                    &&& even@[j]@ == qm_mul(qm_add(self.values@[j]@, self.values@[j + h]@), qm_inv(two@))
                    &&& odd@[j]@ == qm_mul(
                        qm_sub(self.values@[j]@, self.values@[j + h]@),
                        qm_inv(qm_mul(two@, self.domain.point_spec(j).1)),
                    )
                },
            decreases h - k,
        {
            let pt = self.domain.at(k);
            let a = self.values[k];
            let b = self.values[k + h];
            xs.push(pt.x);
            even.push(a.add(b).mul(half));
            odd.push(a.sub(b).div(two.mul(pt.y)));
            k = k + 1;
        }
        let weights = barycentric_weights(&xs);
        CirclePoly { xs, weights, even, odd }
    }
}

} // verus!
