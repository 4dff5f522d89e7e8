//! A small AIR: the "Fibonacci squared" sequence `a_{i+2} = a_i^2 + a_{i+1}^2`,
//! starting `1, 1`, whose last element is claimed.
use crate::circle::{idx_mod, circle_gen_spec, coset_index, cp_mul, CirclePointIndex, Coset};
use crate::constraints::{
    coset_vanishing, coset_vanishing_spec, excluder_spec, point_excluder, point_vanishing,
    point_vanishing_spec, PolyOracle,
};
use crate::fields::{madd, mmul, qm_add, qm_embed, qm_inv, qm_mul, qm_pow, qm_sub, M31, QM31, QmV};
use crate::poly::{CanonicCoset, CircleDomain, CircleEvaluation};
use vstd::prelude::*;

verus! {

/// The `n`-th element of the sequence.
pub open spec fn fib_sq(n: nat) -> int
    decreases n,
{
    if n < 2 {
        1
    } else {
        let a = fib_sq((n - 2) as nat);
        let b = fib_sq((n - 1) as nat);
        madd(mmul(a, a), mmul(b, b))
    }
}

/// One position of a mask: a column and a row offset.
#[derive(Clone, Copy, Debug, PartialEq, Eq, Structural)]
pub struct MaskItem {
    pub column_index: usize,
    pub offset: usize,
}

/// The positions a constraint reads.
#[derive(Clone, Debug)]
pub struct Mask {
    pub items: Vec<MaskItem>,
}

pub struct Fibonacci {
    pub trace_coset: CanonicCoset,
    pub eval_domain: CircleDomain,
    pub constraint_coset: Coset,
    pub constraint_eval_domain: CircleDomain,
    pub claim: M31,
}

impl Fibonacci {
    pub open spec fn wf(&self) -> bool {
        &&& self.trace_coset.wf()
        &&& self.trace_coset.coset.log_size <= 29
        &&& self.constraint_coset.wf()
        &&& self.constraint_coset.log_size == self.trace_coset.coset.log_size
        &&& self.eval_domain.wf()
        &&& self.constraint_eval_domain.wf()
    }

    /// Index of the `k`-th point of the trace coset.
    pub open spec fn trace_index(&self, k: int) -> CirclePointIndex {
        CirclePointIndex(
            coset_index(self.trace_coset.coset.initial_index.0, self.trace_coset.coset.step_size.0, k) as u64,
        )
    }

    /// The `k`-th point of the constraint coset.
    pub open spec fn constraint_point(&self, k: int) -> (QmV, QmV) {
        cp_mul(
            circle_gen_spec(),
            coset_index(self.constraint_coset.initial_index.0, self.constraint_coset.step_size.0, k) as nat,
        )
    }

    pub open spec fn n_constraint_points(&self) -> int {
        vstd::arithmetic::power2::pow2(self.constraint_coset.log_size as nat) as int
    }

    /// `s` is the step constraint `a_0^2 + a_1^2 - a_2` of values the trace yields.
    pub open spec fn step_value<O: PolyOracle>(&self, trace: O, s: QmV) -> bool {
        exists|a: QM31, b: QM31, c: QM31|
            #[trigger] trace.yields(self.trace_index(0), a) && #[trigger] trace.yields(self.trace_index(1), b)
                && #[trigger] trace.yields(self.trace_index(2), c) && s == qm_sub(
                qm_add(qm_mul(a@, a@), qm_mul(b@, b@)),
                c@,
            )
    }

    /// `s` is the boundary constraint `a_0 - value` of a value the trace yields.
    pub open spec fn boundary_value<O: PolyOracle>(&self, trace: O, value: M31, s: QmV) -> bool {
        exists|a: QM31| #[trigger] trace.yields(self.trace_index(0), a) && s == qm_sub(a@, qm_embed(value@))
    }

    /// `q` is the step constraint times the excluders of the last two
    /// constraint points, over the vanishing function of the constraint coset.
    pub open spec fn step_quotient_value<O: PolyOracle>(&self, trace: O, q: QmV) -> bool {
        exists|s: QmV|
            #[trigger] self.step_value(trace, s) && q == qm_mul(
                qm_mul(
                    qm_mul(s, excluder_spec(self.constraint_point(self.n_constraint_points() - 2), trace.point_spec())),
                    excluder_spec(self.constraint_point(self.n_constraint_points() - 1), trace.point_spec()),
                ),
                qm_inv(
                    coset_vanishing_spec(
                        cp_mul(circle_gen_spec(), self.constraint_coset.initial_index.0 as nat),
                        cp_mul(circle_gen_spec(), (self.constraint_coset.step_size.0 / 2) as nat),
                        self.constraint_coset.log_size as nat,
                        trace.point_spec(),
                    ),
                ),
            )
    }

    /// `q` is the boundary constraint over the vanishing function of the
    /// constraint point `point_index`.
    pub open spec fn boundary_quotient_value<O: PolyOracle>(
        &self,
        trace: O,
        point_index: int,
        value: M31,
        q: QmV,
    ) -> bool {
        exists|s: QmV|
            #[trigger] self.boundary_value(trace, value, s) && q == qm_mul(
                s,
                qm_inv(point_vanishing_spec(self.constraint_point(point_index), trace.point_spec())),
            )
    }

    /// The AIR for a trace of size `2^n_bits` whose last element is `claim`.
    pub fn new(n_bits: usize, claim: M31) -> (r: Fibonacci)
        requires
            1 <= n_bits <= 29,
        ensures
            r.wf(),
            r.claim == claim,
            r.trace_coset.coset.log_size == n_bits,
            r.constraint_coset.initial_index.0 == 0,
            r.constraint_coset.log_size == n_bits,
            r.eval_domain.half_coset.log_size == n_bits,
            r.eval_domain.half_coset.initial_index.0 == idx_mod(1 + r.trace_coset.coset.initial_index.0),
            r.constraint_eval_domain.half_coset.log_size == n_bits,
            r.constraint_eval_domain.half_coset.initial_index.0 == 1,
    {
        let n = n_bits as u32;
        let trace_coset = CanonicCoset::new(n);
        let eval_domain = trace_coset.evaluation_domain(n + 1);
        let constraint_coset = Coset::subgroup(n);
        let constraint_eval_domain = CircleDomain::constraint_evaluation_domain(n + 1);
        Fibonacci { trace_coset, eval_domain, constraint_coset, constraint_eval_domain, claim }
    }

    /// The sequence on the trace coset, as an evaluation on its circle domain.
    pub fn get_trace(&self) -> (r: CircleEvaluation)
        requires
            self.wf(),
        ensures
            r.wf(),
            r.domain.half_coset.log_size + 1 == self.trace_coset.coset.log_size,
            r.domain.half_coset.initial_index == self.trace_coset.coset.initial_index,
            forall|i: int| 0 <= i < r.values@.len() / 2 ==> #[trigger] r.values@[i]@ == qm_embed(fib_sq((2 * i) as nat)),
            forall|i: int| r.values@.len() / 2 <= i < r.values@.len() ==> #[trigger] r.values@[i]@
                == qm_embed(fib_sq((r.values@.len() - 1 - 2 * (i - r.values@.len() / 2)) as nat)),
    {
        let n = self.trace_coset.size();
        let mut fs: Vec<M31> = Vec::new();
        let mut vals: Vec<QM31> = Vec::new();
        let mut i: usize = 0;
        while i < n
            invariant
                i <= n,
                fs@.len() == i,
                vals@.len() == i,
                forall|j: int| 0 <= j < i ==> #[trigger] fs@[j]@ == fib_sq(j as nat),
                forall|j: int| 0 <= j < i ==> #[trigger] vals@[j]@ == qm_embed(fib_sq(j as nat)),
            decreases n - i,
        {
            let v = if i < 2 {
                M31::one()
            } else {
                let a = fs[i - 2];
                let b = fs[i - 1];
                a.square().add(b.square())
            };
            fs.push(v);
            vals.push(QM31::from_base(v));
            i = i + 1;
        }
        CircleEvaluation::new_canonical_ordered(self.trace_coset, vals)
    }

    pub fn eval_step_constraint<O: PolyOracle + Copy>(&self, trace: O) -> (r: QM31)
        requires
            trace.covers(self.trace_index(0)),
            trace.covers(self.trace_index(1)),
            trace.covers(self.trace_index(2)),
        ensures
            self.step_value(trace, r@),
    {
        let a = trace.get_at(self.trace_coset.index_at(0));
        let b = trace.get_at(self.trace_coset.index_at(1));
        let c = trace.get_at(self.trace_coset.index_at(2));
        let r = a.square().add(b.square()).sub(c);
        assert(trace.yields(self.trace_index(0), a) && trace.yields(self.trace_index(1), b)
            && trace.yields(self.trace_index(2), c));
        r
    }

    pub fn eval_step_quotient<O: PolyOracle + Copy>(&self, trace: O) -> (r: QM31)
        requires
            self.wf(),
            2 <= self.n_constraint_points(),
            trace.covers(self.trace_index(0)),
            trace.covers(self.trace_index(1)),
            trace.covers(self.trace_index(2)),
        ensures
            self.step_quotient_value(trace, r@),
    {
        let size = self.constraint_coset.size();
        let excluded0 = self.constraint_coset.at(size - 2);
        let excluded1 = self.constraint_coset.at(size - 1);
        let s = self.eval_step_constraint(trace);
        let pt = trace.point();
        let num = s.mul(point_excluder(excluded0, pt)).mul(point_excluder(excluded1, pt));
        let denom = coset_vanishing(self.constraint_coset, pt);
        let r = num.div(denom);
        assert(self.step_value(trace, s@));
        r
    }

    pub fn eval_boundary_constraint<O: PolyOracle + Copy>(&self, trace: O, value: M31) -> (r: QM31)
        requires
            trace.covers(self.trace_index(0)),
        ensures
            self.boundary_value(trace, value, r@),
    {
        let a = trace.get_at(self.trace_coset.index_at(0));
        let r = a.sub(QM31::from_base(value));
        assert(trace.yields(self.trace_index(0), a));
        r
    }

    pub fn eval_boundary_quotient<O: PolyOracle + Copy>(&self, trace: O, point_index: usize, value: M31) -> (r: QM31)
        requires
            trace.covers(self.trace_index(0)),
        ensures
            self.boundary_quotient_value(trace, point_index as int, value, r@),
    {
        let s = self.eval_boundary_constraint(trace, value);
        let denom = point_vanishing(self.constraint_coset.at(point_index), trace.point());
        let r = s.div(denom);
        assert(self.boundary_value(trace, value, s@));
        r
    }

    /// The three quotients combined with the powers `1, c, c^2` of
    /// `random_coeff`: step, first element 1, last element the claim.
    pub fn eval_quotient<O: PolyOracle + Copy>(&self, random_coeff: QM31, trace: O) -> (r: QM31)
        requires
            self.wf(),
            2 <= self.n_constraint_points(),
            trace.covers(self.trace_index(0)),
            trace.covers(self.trace_index(1)),
            trace.covers(self.trace_index(2)),
        ensures
            exists|s: QmV, b0: QmV, b1: QmV|
                #[trigger] self.step_quotient_value(trace, s)
                    && #[trigger] self.boundary_quotient_value(trace, 0, M31(1), b0)
                    && #[trigger] self.boundary_quotient_value(trace, self.n_constraint_points() - 1, self.claim, b1)
                    && r@ == qm_add(
                    qm_add(qm_mul(qm_pow(random_coeff@, 0), s), qm_mul(qm_pow(random_coeff@, 1), b0)),
                    qm_mul(qm_pow(random_coeff@, 2), b1),
                ),
    {
        let last = self.constraint_coset.size() - 1;
        let s = self.eval_step_quotient(trace);
        let b0 = self.eval_boundary_quotient(trace, 0, M31::one());
        let b1 = self.eval_boundary_quotient(trace, last, self.claim);
        let mut quotient = random_coeff.pow(0).mul(s);
        quotient = quotient.add(random_coeff.pow(1).mul(b0));
        quotient = quotient.add(random_coeff.pow(2).mul(b1));
        assert(self.step_quotient_value(trace, s@) && self.boundary_quotient_value(trace, 0, M31(1), b0@)
            && self.boundary_quotient_value(trace, self.n_constraint_points() - 1, self.claim, b1@));
        quotient
    }

    /// Column 0 at offsets 0, 1 and 2.
    pub fn get_mask(&self) -> (r: Mask)
        ensures
            r.items@ == seq![
                MaskItem { column_index: 0, offset: 0 },
                MaskItem { column_index: 0, offset: 1 },
                MaskItem { column_index: 0, offset: 2 },
            ],
    {
        let mut items: Vec<MaskItem> = Vec::new();
        let mut offset: usize = 0;
        while offset < 3
            invariant
                offset <= 3,
                items@.len() == offset,
                forall|j: int| 0 <= j < offset ==> #[trigger] items@[j] == (MaskItem { column_index: 0, offset: j as usize }),
            decreases 3 - offset,
        {
            items.push(MaskItem { column_index: 0, offset });
            offset = offset + 1;
        }
        assert(items@ =~= seq![
            MaskItem { column_index: 0, offset: 0 },
            MaskItem { column_index: 0, offset: 1 },
            MaskItem { column_index: 0, offset: 2 },
        ]);
        Mask { items }
    }
}

} // verus!
