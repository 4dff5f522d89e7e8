//! Vanishing functions on the circle and oracles that read a trace at
//! shifted points.
use crate::circle::{cp_add, cp_conj, cp_mul, circle_gen_spec, idx_mod, CirclePoint, CirclePointIndex, Coset, PointV};
use crate::fields::{qm_add, qm_inv, qm_mul, qm_one, qm_sub, QM31, QmV};
use crate::poly::{CircleEvaluation, CirclePoly};
use vstd::prelude::*;

verus! {

/// `(p - e).x - 1`: vanishes at `p = e` only.
pub open spec fn excluder_spec(e: PointV, p: PointV) -> QmV {
    qm_sub(cp_add(p, cp_conj(e)).0, qm_one())
}

/// `h.y / (1 + h.x)` with `h = p - v`: vanishes at `p = v`.
pub open spec fn point_vanishing_spec(v: PointV, p: PointV) -> QmV {
    let h = cp_add(p, cp_conj(v));
    qm_mul(h.1, qm_inv(qm_add(qm_one(), h.0)))
}

/// `x` doubled `n` times, `x -> 2x^2 - 1`.
pub open spec fn double_x_iter(x: QmV, n: nat) -> QmV
    decreases n,
{
    if n == 0 {
        x
    } else {
        let y = double_x_iter(x, (n - 1) as nat);
        qm_sub(qm_add(qm_mul(y, y), qm_mul(y, y)), qm_one())
    }
}

/// The vanishing function of a coset of size `2^log_size`: the point is moved
/// by `-initial + step/2`, onto the odd multiples of the step's half, and its
/// x coordinate is doubled `log_size - 1` times.
pub open spec fn coset_vanishing_spec(initial: PointV, half_step: PointV, log_size: nat, p: PointV) -> QmV {
    double_x_iter(cp_add(cp_add(p, cp_conj(initial)), half_step).0, (log_size - 1) as nat)
}

pub fn point_excluder(excluded: CirclePoint, p: CirclePoint) -> (r: QM31)
    ensures
        r@ == excluder_spec(excluded@, p@),
{
    p.sub(excluded).x.sub(QM31::one())
}

pub fn point_vanishing(vanish_point: CirclePoint, p: CirclePoint) -> (r: QM31)
    ensures
        r@ == point_vanishing_spec(vanish_point@, p@),
{
    let h = p.sub(vanish_point);
    h.y.div(QM31::one().add(h.x))
}

pub fn coset_vanishing(coset: Coset, p: CirclePoint) -> (r: QM31)
    requires
        coset.wf(),
        1 <= coset.log_size <= 30,
    ensures
        r@ == coset_vanishing_spec(
            cp_mul(circle_gen_spec(), coset.initial_index.0 as nat),
            cp_mul(circle_gen_spec(), (coset.step_size.0 / 2) as nat),
            coset.log_size as nat,
            p@,
        ),
{
    let q = p.sub(coset.initial_index.to_point()).add(CirclePointIndex(coset.step_size.0 / 2).to_point());
    let mut x = q.x;
    let mut i: u32 = 1;
    while i < coset.log_size
        invariant
            1 <= i <= coset.log_size,
            x@ == double_x_iter(q@.0, (i - 1) as nat),
        decreases coset.log_size - i,
    {
        x = CirclePoint::double_x(x);
        i = i + 1;
    }
    x
}

/// Read access to a trace around one point: its values at the point shifted
/// by a base-field circle index.
pub trait PolyOracle: Sized {
    /// Whether the value at the shift `index` can be read.
    spec fn covers(&self, index: CirclePointIndex) -> bool;

    /// Whether `v` is the value at the shift `index`.
    spec fn yields(&self, index: CirclePointIndex, v: QM31) -> bool;

    /// The point around which values are read.
    spec fn point_spec(&self) -> PointV;

    fn point(&self) -> (r: CirclePoint)
        ensures
            r@ == self.point_spec(),
    ;

    fn get_at(&self, index: CirclePointIndex) -> (r: QM31)
        requires
            self.covers(index),
        ensures
            self.yields(index, r),
    ;
}

/// A trace given by its values on a domain, read around the domain point with
/// index `offset`.
#[derive(Clone, Copy)]
pub struct EvalByEvaluation<'a> {
    pub offset: CirclePointIndex,
    pub eval: &'a CircleEvaluation,
}

impl<'a> PolyOracle for EvalByEvaluation<'a> {
    open spec fn covers(&self, index: CirclePointIndex) -> bool {
        &&& self.eval.wf()
        &&& exists|i: int|
            0 <= i < 2 * self.eval.domain.half_size() && #[trigger] self.eval.domain.index_spec(i)
                == idx_mod(self.offset.0 + index.0)
    }

    open spec fn yields(&self, index: CirclePointIndex, v: QM31) -> bool {
        exists|i: int|
            0 <= i < self.eval.values@.len() && #[trigger] self.eval.domain.index_spec(i) == idx_mod(
                self.offset.0 + index.0,
            ) && v == self.eval.values@[i]
    }

    open spec fn point_spec(&self) -> PointV {
        cp_mul(circle_gen_spec(), self.offset.0 as nat)
    }

    fn point(&self) -> (r: CirclePoint) {
        self.offset.to_point()
    }

    fn get_at(&self, index: CirclePointIndex) -> (r: QM31) {
        let at = self.offset.add(index);
        proof {
            vstd::arithmetic::div_mod::lemma_mod_twice(self.offset.0 + index.0, 2147483648int);
        }
        self.eval.get_at(at)
    }
}

/// A trace given as a polynomial, read around an arbitrary circle point.
#[derive(Clone, Copy)]
pub struct EvalByPoly<'a> {
    pub point: CirclePoint,
    pub poly: &'a CirclePoly,
}

impl<'a> PolyOracle for EvalByPoly<'a> {
    open spec fn covers(&self, index: CirclePointIndex) -> bool {
        self.poly.wf()
    }

    open spec fn yields(&self, index: CirclePointIndex, v: QM31) -> bool {
        let q = cp_add(self.point@, cp_mul(circle_gen_spec(), index.0 as nat));
        v@ == self.poly.eval_spec(q.0, q.1)
    }

    open spec fn point_spec(&self) -> PointV {
        self.point@
    }

    fn point(&self) -> (r: CirclePoint) {
        self.point
    }

    fn get_at(&self, index: CirclePointIndex) -> (r: QM31) {
        self.poly.eval_at_point(self.point.add(index.to_point()))
    }
}

} // verus!
