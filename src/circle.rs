//! The circle group `x^2 + y^2 = 1` over the secure field, indices into its
//! order-`2^31` base-field subgroup, and cosets of that subgroup.
use crate::fields::{madd, mmul, msub, qm_add, qm_embed, qm_mul, qm_neg, qm_one, qm_sub, qm_zero, M31, QM31, QmV};
use vstd::arithmetic::div_mod::{lemma_add_mod_noop, lemma_mul_mod_noop, lemma_mod_bound};
use vstd::prelude::*;

verus! {

/// Order of the base-field circle group.
pub const CIRCLE_ORDER: u64 = 2147483648;

/// Largest log-order of a subgroup of the base-field circle group.
pub const CIRCLE_LOG_ORDER: u32 = 31;

pub type PointV = (QmV, QmV);

/// `(x1, y1) + (x2, y2) = (x1 x2 - y1 y2, x1 y2 + y1 x2)`.
pub open spec fn cp_add(p: PointV, q: PointV) -> PointV {
    (qm_sub(qm_mul(p.0, q.0), qm_mul(p.1, q.1)), qm_add(qm_mul(p.0, q.1), qm_mul(p.1, q.0)))
}

/// The inverse in the group, the conjugate `(x, -y)`.
pub open spec fn cp_conj(p: PointV) -> PointV {
    (p.0, qm_neg(p.1))
}

pub open spec fn cp_identity() -> PointV {
    (qm_one(), qm_zero())
}

/// `k * p`, computed by halving `k`.
pub open spec fn cp_mul(p: PointV, k: nat) -> PointV
    decreases k,
{
    if k == 0 {
        cp_identity()
    } else {
        let h = cp_mul(cp_add(p, p), k / 2);
        if k % 2 == 1 {
            cp_add(p, h)
        } else {
            h
        }
    }
}

/// Generator of the base-field circle group, `(2, 1268011823)`.
pub open spec fn circle_gen_spec() -> PointV {
    (qm_embed(2), qm_embed(1268011823))
}

/// A point of the circle, coordinates in the secure field (base-field points
/// are embedded).
#[derive(Clone, Copy, Debug, PartialEq, Eq, Structural)]
pub struct CirclePoint {
    pub x: QM31,
    pub y: QM31,
}

impl View for CirclePoint {
    type V = PointV;

    open spec fn view(&self) -> PointV {
        (self.x@, self.y@)
    }
}

impl CirclePoint {
    pub fn zero() -> (r: CirclePoint)
        ensures
            r@ == cp_identity(),
    {
        CirclePoint { x: QM31::one(), y: QM31::zero() }
    }

    pub fn add(self, o: CirclePoint) -> (r: CirclePoint)
        ensures
            r@ == cp_add(self@, o@),
    {
        CirclePoint {
            x: self.x.mul(o.x).sub(self.y.mul(o.y)),
            y: self.x.mul(o.y).add(self.y.mul(o.x)),
        }
    }

    pub fn conjugate(self) -> (r: CirclePoint)
        ensures
            r@ == cp_conj(self@),
    {
        CirclePoint { x: self.x, y: self.y.neg() }
    }

    pub fn sub(self, o: CirclePoint) -> (r: CirclePoint)
        ensures
            r@ == cp_add(self@, cp_conj(o@)),
    {
        self.add(o.conjugate())
    }

    pub fn double(self) -> (r: CirclePoint)
        ensures
            r@ == cp_add(self@, self@),
    {
        self.add(self)
    }

    /// The x coordinate of the double of a point with x coordinate `x`: `2x^2 - 1`.
    pub fn double_x(x: QM31) -> (r: QM31)
        ensures
            r@ == qm_sub(qm_add(qm_mul(x@, x@), qm_mul(x@, x@)), qm_one()),
    {
        let sq = x.square();
        sq.add(sq).sub(QM31::one())
    }

    /// `k * self`.
    pub fn mul(self, k: u128) -> (r: CirclePoint)
        ensures
            r@ == cp_mul(self@, k as nat),
        decreases k,
    {
        if k == 0 {
            CirclePoint::zero()
        } else {
            let h = self.double().mul(k / 2);
            if k % 2 == 1 {
                self.add(h)
            } else {
                h
            }
        }
    }

    /// The `index`-th multiple of the secure-field circle generator.
    pub fn get_point(index: u128) -> (r: CirclePoint)
        ensures
            r@ == cp_mul(secure_circle_gen_spec(), index as nat),
    {
        secure_circle_gen().mul(index)
    }
}

/// A point of large order on the circle over the secure field.
pub open spec fn secure_circle_gen_spec() -> PointV {
    (((1, 0), (478637715, 513582971)), ((992285211, 649143431), (740191619, 1186584352)))
}

pub fn secure_circle_gen() -> (r: CirclePoint)
    ensures
        r@ == secure_circle_gen_spec(),
{
    CirclePoint {
        x: QM31::from_u32_unchecked(1, 0, 478637715, 513582971),
        y: QM31::from_u32_unchecked(992285211, 649143431, 740191619, 1186584352),
    }
}

pub fn circle_gen() -> (r: CirclePoint)
    ensures
        r@ == circle_gen_spec(),
{
    CirclePoint { x: QM31::from_base(M31(2)), y: QM31::from_base(M31(1268011823)) }
}

/// A point of the base-field circle group named by its discrete logarithm
/// `k` with respect to the generator: the point `k * gen`, `k` modulo `2^31`.
#[derive(Clone, Copy, Debug, PartialEq, Eq, Structural)]
pub struct CirclePointIndex(pub u64);

pub open spec fn idx_mod(a: int) -> int {
    a % (CIRCLE_ORDER as int)
}

impl CirclePointIndex {
    pub fn zero() -> (r: CirclePointIndex)
        ensures
            r.0 == 0,
    {
        CirclePointIndex(0)
    }

    /// The index of the generator itself.
    pub fn generator() -> (r: CirclePointIndex)
        ensures
            r.0 == 1,
    {
        CirclePointIndex(1)
    }

    /// The generator of the subgroup of order `2^log_size`.
    pub fn subgroup_gen(log_size: u32) -> (r: CirclePointIndex)
        requires
            log_size <= CIRCLE_LOG_ORDER,
        ensures
            r.0 as int * vstd::arithmetic::power2::pow2(log_size as nat) == CIRCLE_ORDER,
    {
        let r = 1u64 << ((CIRCLE_LOG_ORDER - log_size) as u64);
        proof {
            vstd::arithmetic::power2::lemma_pow2_adds(log_size as nat, (31 - log_size) as nat);
            vstd::arithmetic::power2::lemma2_to64();
            vstd::arithmetic::power2::lemma_pow2_strictly_increases((31 - log_size) as nat, 32);
            vstd::bits::lemma_u64_shl_is_mul(1, (31 - log_size) as u64);
            assert(r == vstd::arithmetic::power2::pow2((31 - log_size) as nat));
            assert(log_size as nat + (31 - log_size) as nat == 31);
            assert(vstd::arithmetic::power2::pow2(31) == CIRCLE_ORDER);
            vstd::arithmetic::mul::lemma_mul_is_commutative(
                r as int,
                vstd::arithmetic::power2::pow2(log_size as nat) as int,
            );
        }
        CirclePointIndex(r)
    }

    pub fn add(self, o: CirclePointIndex) -> (r: CirclePointIndex)
        ensures
            r.0 == idx_mod(self.0 + o.0),
    {
        proof {
            lemma_add_mod_noop(self.0 as int, o.0 as int, CIRCLE_ORDER as int);
        }
        CirclePointIndex((self.0 % CIRCLE_ORDER + o.0 % CIRCLE_ORDER) % CIRCLE_ORDER)
    }

    pub fn neg(self) -> (r: CirclePointIndex)
        ensures
            r.0 == idx_mod(CIRCLE_ORDER - idx_mod(self.0 as int)),
    {
        CirclePointIndex((CIRCLE_ORDER - self.0 % CIRCLE_ORDER) % CIRCLE_ORDER)
    }

    pub fn mul(self, k: usize) -> (r: CirclePointIndex)
        ensures
            r.0 == idx_mod(self.0 * k),
    {
        let a = self.0 % CIRCLE_ORDER;
        let b = (k as u64) % CIRCLE_ORDER;
        proof {
            lemma_mul_mod_noop(self.0 as int, k as int, CIRCLE_ORDER as int);
            assert(a * b < CIRCLE_ORDER * CIRCLE_ORDER) by (nonlinear_arith)
                requires
                    a < CIRCLE_ORDER,
                    b < CIRCLE_ORDER,
            ;
        }
        CirclePointIndex((a * b) % CIRCLE_ORDER)
    }

    /// Half of an even index.
    pub fn half(self) -> (r: CirclePointIndex)
        requires
            self.0 % 2 == 0,
        ensures
            r.0 * 2 == self.0,
    {
        CirclePointIndex(self.0 / 2)
    }

    /// The point this index names.
    pub fn to_point(self) -> (r: CirclePoint)
        ensures
            r@ == cp_mul(circle_gen_spec(), self.0 as nat),
    {
        circle_gen().mul(self.0 as u128)
    }
}

/// The coset `initial + <step>` of the subgroup of order `2^log_size`.
#[derive(Clone, Copy, Debug, PartialEq, Eq, Structural)]
pub struct Coset {
    pub initial_index: CirclePointIndex,
    pub step_size: CirclePointIndex,
    pub log_size: u32,
}

/// Index of the `i`-th point of the coset `initial + <step>`.
pub open spec fn coset_index(initial: u64, step: u64, i: int) -> int {
    idx_mod(initial + idx_mod(step * i))
}

impl Coset {
    pub open spec fn wf(&self) -> bool {
        &&& self.log_size <= CIRCLE_LOG_ORDER
        &&& self.step_size.0 as int * vstd::arithmetic::power2::pow2(self.log_size as nat) == CIRCLE_ORDER
    }

    pub fn new(initial_index: CirclePointIndex, log_size: u32) -> (r: Coset)
        requires
            log_size <= CIRCLE_LOG_ORDER,
        ensures
            r.wf(),
            r.initial_index == initial_index,
            r.log_size == log_size,
    {
        Coset { initial_index, step_size: CirclePointIndex::subgroup_gen(log_size), log_size }
    }

    /// The subgroup of order `2^log_size`.
    pub fn subgroup(log_size: u32) -> (r: Coset)
        requires
            log_size <= CIRCLE_LOG_ORDER,
        ensures
            r.wf(),
            r.initial_index.0 == 0,
            r.log_size == log_size,
    {
        Coset::new(CirclePointIndex::zero(), log_size)
    }

    /// The odd multiples of the generator of order `2^(log_size + 1)`.
    pub fn odds(log_size: u32) -> (r: Coset)
        requires
            log_size < CIRCLE_LOG_ORDER,
        ensures
            r.wf(),
            r.initial_index.0 as int * vstd::arithmetic::power2::pow2(log_size as nat + 1) == CIRCLE_ORDER,
            r.log_size == log_size,
    {
        Coset::new(CirclePointIndex::subgroup_gen(log_size + 1), log_size)
    }

    /// The odd multiples of the generator of order `2^(log_size + 2)`, taken
    /// `2^log_size` of them.
    pub fn half_odds(log_size: u32) -> (r: Coset)
        requires
            log_size + 1 < CIRCLE_LOG_ORDER,
        ensures
            r.wf(),
            r.initial_index.0 as int * vstd::arithmetic::power2::pow2(log_size as nat + 2) == CIRCLE_ORDER,
            r.log_size == log_size,
    {
        Coset::new(CirclePointIndex::subgroup_gen(log_size + 2), log_size)
    }

    pub fn size(&self) -> (r: usize)
        requires
            self.wf(),
        ensures
            r == vstd::arithmetic::power2::pow2(self.log_size as nat),
    {
        proof {
            vstd::arithmetic::power2::lemma2_to64();
            vstd::arithmetic::power2::lemma_pow2_strictly_increases(self.log_size as nat, 32);
            vstd::bits::lemma_u64_shl_is_mul(1, self.log_size as u64);
        }
        (1u64 << (self.log_size as u64)) as usize
    }

    pub fn index_at(&self, i: usize) -> (r: CirclePointIndex)
        ensures
            r.0 == coset_index(self.initial_index.0, self.step_size.0, i as int),
    {
        self.initial_index.add(self.step_size.mul(i))
    }

    /// The indices of all points, in order.
    pub fn iter_indices(&self) -> (r: Vec<CirclePointIndex>)
        requires
            self.wf(),
        ensures
            r@.len() == vstd::arithmetic::power2::pow2(self.log_size as nat),
            forall|i: int| 0 <= i < r@.len() ==> (#[trigger] r@[i]).0 == coset_index(self.initial_index.0, self.step_size.0, i),
    {
        let n = self.size();
        let mut r: Vec<CirclePointIndex> = Vec::new();
        let mut i: usize = 0;
        while i < n
            invariant
                i <= n,
                r@.len() == i,
                forall|j: int| 0 <= j < i ==> (#[trigger] r@[j]).0 == coset_index(self.initial_index.0, self.step_size.0, j),
            decreases n - i,
        {
            r.push(self.index_at(i));
            i = i + 1;
        }
        r
    }

    pub fn at(&self, i: usize) -> (r: CirclePoint)
        ensures
            r@ == cp_mul(circle_gen_spec(), coset_index(self.initial_index.0, self.step_size.0, i as int) as nat),
    {
        self.index_at(i).to_point()
    }
}

} // verus!
