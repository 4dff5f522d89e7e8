//! The Mersenne prime field `M31`, its complex extension `CM31` and the degree-4
//! secure extension `QM31 = CM31[u] / (u^2 - 2 - i)`.
use vstd::arithmetic::div_mod::{lemma_mod_multiples_vanish, lemma_mul_mod_noop_left, lemma_mul_mod_noop_right};
use vstd::arithmetic::mul::lemma_mul_is_associative;
use vstd::prelude::*;

verus! {

/// The field modulus `2^31 - 1`.
pub const P: u32 = 2147483647;

/// Number of base-field coordinates of a secure-field element.
pub const SECURE_EXTENSION_DEGREE: usize = 4;

pub open spec fn modp(a: int) -> int {
    a % (P as int)
}

pub open spec fn madd(a: int, b: int) -> int {
    modp(a + b)
}

pub open spec fn msub(a: int, b: int) -> int {
    modp(a - b)
}

pub open spec fn mmul(a: int, b: int) -> int {
    modp(a * b)
}

pub open spec fn mneg(a: int) -> int {
    modp(-a)
}

/// `a^n` in the field.
pub open spec fn mpow(a: int, n: nat) -> int
    decreases n,
{
    if n == 0 {
        1
    } else {
        mmul(mpow(a, (n - 1) as nat), a)
    }
}

/// The multiplicative inverse, `a^(P-2)` (Fermat).
pub open spec fn minv(a: int) -> int {
    mpow(a, (P - 2) as nat)
}

pub type CmV = (int, int);

pub type QmV = (CmV, CmV);

pub open spec fn cm_add(x: CmV, y: CmV) -> CmV {
    (madd(x.0, y.0), madd(x.1, y.1))
}

pub open spec fn cm_sub(x: CmV, y: CmV) -> CmV {
    (msub(x.0, y.0), msub(x.1, y.1))
}

pub open spec fn cm_neg(x: CmV) -> CmV {
    (mneg(x.0), mneg(x.1))
}

pub open spec fn cm_mul(x: CmV, y: CmV) -> CmV {
    (msub(mmul(x.0, y.0), mmul(x.1, y.1)), madd(mmul(x.0, y.1), mmul(x.1, y.0)))
}

/// `(x + yi)^-1 = (x - yi) / (x^2 + y^2)`.
pub open spec fn cm_inv(x: CmV) -> CmV {
    let n = minv(madd(mmul(x.0, x.0), mmul(x.1, x.1)));
    (mmul(x.0, n), mmul(mneg(x.1), n))
}

/// The non-residue `2 + i` with `u^2 = 2 + i`.
pub open spec fn cm_r() -> CmV {
    (2, 1)
}

pub open spec fn qm_add(x: QmV, y: QmV) -> QmV {
    (cm_add(x.0, y.0), cm_add(x.1, y.1))
}

pub open spec fn qm_sub(x: QmV, y: QmV) -> QmV {
    (cm_sub(x.0, y.0), cm_sub(x.1, y.1))
}

pub open spec fn qm_neg(x: QmV) -> QmV {
    (cm_neg(x.0), cm_neg(x.1))
}

/// `(a + bu)(c + du) = ac + bd(2 + i) + (ad + bc)u`.
pub open spec fn qm_mul(x: QmV, y: QmV) -> QmV {
    (
        cm_add(cm_mul(x.0, y.0), cm_mul(cm_mul(x.1, y.1), cm_r())),
        cm_add(cm_mul(x.0, y.1), cm_mul(x.1, y.0)),
    )
}

/// `(a + bu)^-1 = (a - bu) / (a^2 - b^2(2 + i))`.
pub open spec fn qm_inv(x: QmV) -> QmV {
    let d = cm_inv(cm_sub(cm_mul(x.0, x.0), cm_mul(cm_mul(x.1, x.1), cm_r())));
    (cm_mul(x.0, d), cm_mul(cm_neg(x.1), d))
}

/// A base-field value as a secure-field value.
pub open spec fn qm_embed(a: int) -> QmV {
    ((modp(a), 0), (0, 0))
}

pub open spec fn qm_zero() -> QmV {
    ((0, 0), (0, 0))
}

pub open spec fn qm_one() -> QmV {
    ((1, 0), (0, 0))
}

/// An element of the base field, kept reduced below `P` by every constructor.
#[derive(Clone, Copy, Debug, PartialEq, Eq, Structural)]
pub struct M31(pub u32);

impl View for M31 {
    type V = int;

    open spec fn view(&self) -> int {
        self.0 as int
    }
}

proof fn lemma_mmul_assoc(a: int, b: int, c: int)
    ensures
        mmul(mmul(a, b), c) == mmul(a, mmul(b, c)),
{
    lemma_mul_mod_noop_left(a * b, c, P as int);
    lemma_mul_mod_noop_right(a, b * c, P as int);
    lemma_mul_is_associative(a, b, c);
}

/// `a^(m+n) = a^m * a^n`.
proof fn lemma_mpow_add(a: int, m: nat, n: nat)
    ensures
        mpow(a, m + n) == mmul(mpow(a, m), mpow(a, n)),
    decreases n,
{
    if n == 0 {
        assert(mpow(a, m) == modp(mpow(a, m))) by {
            lemma_mpow_reduced(a, m);
        }
    } else {
        lemma_mpow_add(a, m, (n - 1) as nat);
        assert((m + n - 1) as nat == (m + (n - 1)) as nat);
        lemma_mmul_assoc(mpow(a, m), mpow(a, (n - 1) as nat), a);
    }
}

proof fn lemma_mpow_reduced(a: int, n: nat)
    ensures
        0 <= mpow(a, n) < P,
        modp(mpow(a, n)) == mpow(a, n),
{
    if n == 0 {
    } else {
        assert(0 <= mmul(mpow(a, (n - 1) as nat), a) < P);
    }
}

impl M31 {
    /// The value `v` reduced modulo `P`.
    pub fn from_u32_unchecked(v: u32) -> (r: M31)
        ensures
            r@ == modp(v as int),
    {
        M31(v % P)
    }

    pub fn zero() -> (r: M31)
        ensures
            r@ == 0,
    {
        M31(0)
    }

    pub fn one() -> (r: M31)
        ensures
            r@ == 1,
    {
        M31(1)
    }

    pub fn add(self, o: M31) -> (r: M31)
        ensures
            r@ == madd(self@, o@),
    {
        M31((((self.0 as u64) + (o.0 as u64)) % (P as u64)) as u32)
    }

    pub fn neg(self) -> (r: M31)
        ensures
            r@ == mneg(self@),
    {
        let s = (self.0 as u64) % (P as u64);
        proof {
            lemma_mod_multiples_vanish(1, -(self@), P as int);
            assert(self@ == (self@ / (P as int)) * (P as int) + s);
            lemma_mod_multiples_vanish(self@ / (P as int), -(s as int), P as int);
            assert(-(self@) + P as int == (P as int) * 1 + -(self@));
        }
        let r = (((P as u64) - s) % (P as u64)) as u32;
        proof {
            assert(-(self@) == (P as int) * (-(self@ / (P as int))) + -(s as int))
                by (nonlinear_arith)
                requires
                    self@ == (self@ / (P as int)) * (P as int) + s,
            ;
            lemma_mod_multiples_vanish(-(self@ / (P as int)), -(s as int), P as int);
            lemma_mod_multiples_vanish(1, -(s as int), P as int);
        }
        M31(r)
    }

    pub fn sub(self, o: M31) -> (r: M31)
        ensures
            r@ == msub(self@, o@),
    {
        let n = o.neg();
        let r = self.add(n);
        proof {
            vstd::arithmetic::div_mod::lemma_add_mod_noop(self@, -(o@), P as int);
            vstd::arithmetic::div_mod::lemma_mod_twice(self@, P as int);
            vstd::arithmetic::div_mod::lemma_add_mod_noop(self@, mneg(o@), P as int);
            vstd::arithmetic::div_mod::lemma_mod_twice(-(o@), P as int);
        }
        r
    }

    pub fn mul(self, o: M31) -> (r: M31)
        ensures
            r@ == mmul(self@, o@),
    {
        proof {
            assert((self.0 as int) * (o.0 as int) <= 0xffff_ffffint * 0xffff_ffffint)
                by (nonlinear_arith);
        }
        M31((((self.0 as u64) * (o.0 as u64)) % (P as u64)) as u32)
    }

    pub fn square(self) -> (r: M31)
        ensures
            r@ == mmul(self@, self@),
    {
        self.mul(self)
    }

    /// `self^e`, by left-to-right square and multiply.
    pub fn pow(self, e: u32) -> (r: M31)
        ensures
            r@ == mpow(self@, e as nat),
    {
        let ee: u64 = e as u64;
        let mut r = M31::one();
        let mut i: u64 = 32;
        assert(ee >> 32u64 == 0) by (bit_vector)
            requires
                ee <= 0xffff_ffffu64,
        ;
        while i > 0
            invariant
                i <= 32,
                ee == e as u64,
                r@ == mpow(self@, (ee >> i) as nat),
            decreases i,
        {
            i = i - 1;
            let k: u64 = ee >> (i + 1);
            let bit: u64 = (ee >> i) & 1;
            assert((ee >> i) == 2 * (ee >> (i + 1)) + ((ee >> i) & 1)) by (bit_vector)
                requires
                    i < 32,
                    ee <= 0xffff_ffffu64,
            ;
            assert(k <= 0xffff_ffffu64) by (bit_vector)
                requires
                    ee <= 0xffff_ffffu64,
                    k == ee >> (i + 1),
            ;
            r = r.square();
            proof {
                lemma_mpow_add(self@, k as nat, k as nat);
            }
            if bit == 1 {
                r = r.mul(self);
                assert(((2 * k) as nat + 1) as nat == ((2 * k) as nat + 1));
            }
            assert(bit == 0 || bit == 1) by (bit_vector)
                requires
                    bit == (ee >> i) & 1,
            ;
        }
        assert(ee >> 0u64 == ee) by (bit_vector);
        r
    }

    /// The multiplicative inverse; zero maps to zero.
    pub fn inverse(self) -> (r: M31)
        ensures
            r@ == minv(self@),
    {
        self.pow(P - 2)
    }
}


/// An element `a + bi` of the complex extension, `i^2 = -1`.
#[derive(Clone, Copy, Debug, PartialEq, Eq, Structural)]
pub struct CM31(pub M31, pub M31);

impl View for CM31 {
    type V = CmV;

    open spec fn view(&self) -> CmV {
        (self.0@, self.1@)
    }
}

impl CM31 {
    pub fn add(self, o: CM31) -> (r: CM31)
        ensures
            r@ == cm_add(self@, o@),
    {
        CM31(self.0.add(o.0), self.1.add(o.1))
    }

    pub fn sub(self, o: CM31) -> (r: CM31)
        ensures
            r@ == cm_sub(self@, o@),
    {
        CM31(self.0.sub(o.0), self.1.sub(o.1))
    }

    pub fn neg(self) -> (r: CM31)
        ensures
            r@ == cm_neg(self@),
    {
        CM31(self.0.neg(), self.1.neg())
    }

    pub fn mul(self, o: CM31) -> (r: CM31)
        ensures
            r@ == cm_mul(self@, o@),
    {
        CM31(self.0.mul(o.0).sub(self.1.mul(o.1)), self.0.mul(o.1).add(self.1.mul(o.0)))
    }

    pub fn inverse(self) -> (r: CM31)
        ensures
            r@ == cm_inv(self@),
    {
        let n = self.0.square().add(self.1.square()).inverse();
        CM31(self.0.mul(n), self.1.neg().mul(n))
    }
}

/// An element `a + bu` of the secure extension, `a, b` in `CM31`.
#[derive(Clone, Copy, Debug, PartialEq, Eq, Structural)]
pub struct QM31(pub CM31, pub CM31);

impl View for QM31 {
    type V = QmV;

    open spec fn view(&self) -> QmV {
        (self.0@, self.1@)
    }
}

impl QM31 {
    /// The element with base coordinates `(a, b, c, d)`, each reduced modulo `P`:
    /// `(a + bi) + (c + di)u`.
    pub fn from_u32_unchecked(a: u32, b: u32, c: u32, d: u32) -> (r: QM31)
        ensures
            r@ == ((modp(a as int), modp(b as int)), (modp(c as int), modp(d as int))),
    {
        QM31(
            CM31(M31::from_u32_unchecked(a), M31::from_u32_unchecked(b)),
            CM31(M31::from_u32_unchecked(c), M31::from_u32_unchecked(d)),
        )
    }

    /// The four base coordinates `(a, b, c, d)`.
    pub fn to_m31_array(self) -> (r: [M31; 4])
        ensures
            r@ =~= seq![self.0.0, self.0.1, self.1.0, self.1.1],
    {
        [self.0.0, self.0.1, self.1.0, self.1.1]
    }

    pub fn zero() -> (r: QM31)
        ensures
            r@ == qm_zero(),
    {
        QM31(CM31(M31::zero(), M31::zero()), CM31(M31::zero(), M31::zero()))
    }

    pub fn one() -> (r: QM31)
        ensures
            r@ == qm_one(),
    {
        QM31(CM31(M31::one(), M31::zero()), CM31(M31::zero(), M31::zero()))
    }

    /// The base-field value `v` seen in the extension.
    pub fn from_base(v: M31) -> (r: QM31)
        ensures
            r@ == qm_embed(v@),
    {
        QM31(CM31(M31::from_u32_unchecked(v.0), M31::zero()), CM31(M31::zero(), M31::zero()))
    }

    pub fn add(self, o: QM31) -> (r: QM31)
        ensures
            r@ == qm_add(self@, o@),
    {
        QM31(self.0.add(o.0), self.1.add(o.1))
    }

    pub fn sub(self, o: QM31) -> (r: QM31)
        ensures
            r@ == qm_sub(self@, o@),
    {
        QM31(self.0.sub(o.0), self.1.sub(o.1))
    }

    pub fn neg(self) -> (r: QM31)
        ensures
            r@ == qm_neg(self@),
    {
        QM31(self.0.neg(), self.1.neg())
    }

    pub fn mul(self, o: QM31) -> (r: QM31)
        ensures
            r@ == qm_mul(self@, o@),
    {
        let nr = CM31(M31(2), M31(1));
        QM31(self.0.mul(o.0).add(self.1.mul(o.1).mul(nr)), self.0.mul(o.1).add(self.1.mul(o.0)))
    }

    pub fn square(self) -> (r: QM31)
        ensures
            r@ == qm_mul(self@, self@),
    {
        self.mul(self)
    }

    /// The inverse; zero maps to zero.
    pub fn inverse(self) -> (r: QM31)
        ensures
            r@ == qm_inv(self@),
    {
        let nr = CM31(M31(2), M31(1));
        let d = self.0.mul(self.0).sub(self.1.mul(self.1).mul(nr)).inverse();
        QM31(self.0.mul(d), self.1.neg().mul(d))
    }

    /// `self / o`, that is `self * o^-1`.
    pub fn div(self, o: QM31) -> (r: QM31)
        ensures
            r@ == qm_mul(self@, qm_inv(o@)),
    {
        self.mul(o.inverse())
    }

    /// `self^n`, by repeated multiplication.
    pub fn pow(self, n: u32) -> (r: QM31)
        ensures
            r@ == qm_pow(self@, n as nat),
    {
        let mut r = QM31::one();
        let mut i: u32 = 0;
        while i < n
            invariant
                i <= n,
                r@ == qm_pow(self@, i as nat),
            decreases n - i,
        {
            r = r.mul(self);
            i = i + 1;
        }
        r
    }
}

/// `x^n` in the extension.
pub open spec fn qm_pow(x: QmV, n: nat) -> QmV
    decreases n,
{
    if n == 0 {
        qm_one()
    } else {
        qm_mul(qm_pow(x, (n - 1) as nat), x)
    }
}

} // verus!
