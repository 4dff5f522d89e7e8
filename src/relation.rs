//! LogUp relations: a value tuple is folded into one secure-field element
//! `sum alpha^i v_i - z`; entries become fractions `multiplicity / combine`,
//! batched by common-denominator addition and written to a running
//! accumulator with an explicit lifecycle.
use crate::fields::{qm_add, qm_mul, qm_one, qm_pow, qm_sub, qm_zero, QM31, QmV};
use crate::poly::qseq;
use vstd::prelude::*;

verus! {

pub type FracV = (QmV, QmV);

/// `a/b + c/d = (ad + cb) / bd`.
pub open spec fn frac_add(x: FracV, y: FracV) -> FracV {
    (qm_add(qm_mul(x.0, y.1), qm_mul(y.0, x.1)), qm_mul(x.1, y.1))
}

/// The sum of the fractions, left to right from the first; `0/1` when empty.
pub open spec fn frac_sum(fs: Seq<FracV>) -> FracV
    decreases fs.len(),
{
    if fs.len() == 0 {
        (qm_zero(), qm_one())
    } else if fs.len() == 1 {
        fs[0]
    } else {
        frac_add(frac_sum(fs.drop_last()), fs.last())
    }
}

/// A fraction of secure-field elements, kept unreduced.
#[derive(Clone, Copy, Debug, PartialEq, Eq, Structural)]
pub struct Fraction {
    pub numerator: QM31,
    pub denominator: QM31,
}

impl View for Fraction {
    type V = FracV;

    open spec fn view(&self) -> FracV {
        (self.numerator@, self.denominator@)
    }
}

impl Fraction {
    pub fn new(numerator: QM31, denominator: QM31) -> (r: Fraction)
        ensures
            r@ == (numerator@, denominator@),
    {
        Fraction { numerator, denominator }
    }

    pub fn add(self, o: Fraction) -> (r: Fraction)
        ensures
            r@ == frac_add(self@, o@),
    {
        Fraction {
            numerator: self.numerator.mul(o.denominator).add(o.numerator.mul(self.denominator)),
            denominator: self.denominator.mul(o.denominator),
        }
    }
}

/// `sum_{i < n} alphas[i] * values[i]`.
pub open spec fn dot(alphas: Seq<QmV>, values: Seq<QmV>, n: nat) -> QmV
    decreases n,
{
    if n == 0 {
        qm_zero()
    } else {
        qm_add(dot(alphas, values, (n - 1) as nat), qm_mul(alphas[n - 1], values[n - 1]))
    }
}

/// `sum alpha_i v_i - z`, over the values (at most as many as there are
/// challenge powers).
pub open spec fn affine_combination(alphas: Seq<QmV>, z: QmV, values: Seq<QmV>) -> QmV {
    qm_sub(dot(alphas, values, values.len()), z)
}

/// A lookup relation: folds a value tuple into one secure-field element.
pub trait Relation: Sized {
    /// The relation's challenges are well formed.
    spec fn inv(&self) -> bool;

    /// How many values a tuple of this relation may hold.
    spec fn width(&self) -> nat;

    spec fn combine_spec(&self, values: Seq<QmV>) -> QmV;

    fn combine(&self, values: &[QM31]) -> (r: QM31)
        requires
            self.inv(),
            values@.len() <= self.width(),
        ensures
            r@ == self.combine_spec(qseq(values@)),
    ;

    fn get_name(&self) -> &str;
}

/// The challenges of a relation of width `N`: an offset `z` and the powers
/// `alpha^0 .. alpha^(N-1)`.
#[derive(Clone, Debug)]
pub struct LookupElements<const N: usize> {
    pub z: QM31,
    pub alpha: QM31,
    pub alpha_powers: Vec<QM31>,
}

impl<const N: usize> LookupElements<N> {
    pub open spec fn wf(&self) -> bool {
        &&& self.alpha_powers@.len() == N
        &&& forall|i: int| 0 <= i < N ==> (#[trigger] self.alpha_powers@[i])@ == qm_pow(self.alpha@, i as nat)
    }

    /// Elements for the challenges `z` and `alpha` drawn from a transcript.
    pub fn from_challenges(z: QM31, alpha: QM31) -> (r: LookupElements<N>)
        ensures
            r.wf(),
            r.z == z,
            r.alpha == alpha,
    {
        let mut alpha_powers: Vec<QM31> = Vec::new();
        let mut cur = QM31::one();
        let mut i: usize = 0;
        while i < N
            invariant
                i <= N,
                alpha_powers@.len() == i,
                cur@ == qm_pow(alpha@, i as nat),
                forall|j: int| 0 <= j < i ==> (#[trigger] alpha_powers@[j])@ == qm_pow(alpha@, j as nat),
            decreases N - i,
        {
            alpha_powers.push(cur);
            cur = cur.mul(alpha);
            i = i + 1;
        }
        LookupElements { z, alpha, alpha_powers }
    }

    /// Fixed, non-random challenges `z = (1, 2, 3, 4)` and
    /// `alpha = (5, 6, 7, 8)`; for tests only.
    pub fn dummy() -> (r: LookupElements<N>)
        ensures
            r.wf(),
            r.z@ == dummy_z(),
            r.alpha@ == dummy_alpha(),
    {
        LookupElements::from_challenges(
            QM31::from_u32_unchecked(1, 2, 3, 4),
            QM31::from_u32_unchecked(5, 6, 7, 8),
        )
    }

    /// `sum alpha^i v_i - z`; a tuple holds at most `N` values.
    pub fn combine(&self, values: &[QM31]) -> (r: QM31)
        requires
            self.wf(),
            values@.len() <= N,
        ensures
            r@ == affine_combination(qseq(self.alpha_powers@), self.z@, qseq(values@)),
    {
        let n = values.len();
        let mut acc = QM31::zero();
        let mut i: usize = 0;
        while i < n
            invariant
                n <= values@.len(),
                n <= self.alpha_powers@.len(),
                i <= n,
                acc@ == dot(qseq(self.alpha_powers@), qseq(values@), i as nat),
            decreases n - i,
        {
            acc = acc.add(self.alpha_powers[i].mul(values[i]));
            i = i + 1;
        }
        acc.sub(self.z)
    }
}

pub open spec fn dummy_z() -> QmV {
    ((1, 2), (3, 4))
}

pub open spec fn dummy_alpha() -> QmV {
    ((5, 6), (7, 8))
}

/// A relation of width `N` with a name.
#[derive(Clone, Debug)]
pub struct NamedRelation<const N: usize> {
    pub name: &'static str,
    pub elements: LookupElements<N>,
}

impl<const N: usize> NamedRelation<N> {
    pub open spec fn wf(&self) -> bool {
        self.elements.wf()
    }

    pub fn dummy(name: &'static str) -> (r: NamedRelation<N>)
        ensures
            r.wf(),
            r.name == name,
            r.elements.z@ == dummy_z(),
            r.elements.alpha@ == dummy_alpha(),
    {
        NamedRelation { name, elements: LookupElements::dummy() }
    }

    pub fn from_challenges(name: &'static str, z: QM31, alpha: QM31) -> (r: NamedRelation<N>)
        ensures
            r.wf(),
            r.name == name,
            r.elements.z == z,
            r.elements.alpha == alpha,
    {
        NamedRelation { name, elements: LookupElements::from_challenges(z, alpha) }
    }
}

impl<const N: usize> Relation for NamedRelation<N> {
    open spec fn inv(&self) -> bool {
        self.wf()
    }

    open spec fn width(&self) -> nat {
        N as nat
    }

    open spec fn combine_spec(&self, values: Seq<QmV>) -> QmV {
        affine_combination(qseq(self.elements.alpha_powers@), self.elements.z@, values)
    }

    fn combine(&self, values: &[QM31]) -> (r: QM31) {
        self.elements.combine(values)
    }

    fn get_name(&self) -> &str {
        self.name
    }
}


/// Dummy relations are reproducible: any two relations built by `dummy`
/// combine every value tuple to the same element.
pub proof fn lemma_dummy_reproducible<const N: usize>(a: NamedRelation<N>, b: NamedRelation<N>, values: Seq<QmV>)
    requires
        a.wf(),
        b.wf(),
        a.elements.z@ == dummy_z(),
        a.elements.alpha@ == dummy_alpha(),
        b.elements.z@ == dummy_z(),
        b.elements.alpha@ == dummy_alpha(),
    ensures
        a.combine_spec(values) == b.combine_spec(values),
{
    assert forall|i: int| 0 <= i < N implies (#[trigger] a.elements.alpha_powers@[i])@ == b.elements.alpha_powers@[i]@ by {
        assert(a.elements.alpha_powers@[i]@ == qm_pow(dummy_alpha(), i as nat));
        assert(b.elements.alpha_powers@[i]@ == qm_pow(dummy_alpha(), i as nat));
    }
    assert(qseq(a.elements.alpha_powers@) =~= qseq(b.elements.alpha_powers@));
}

/// One lookup assertion: `values` entered into `relation` with
/// `multiplicity` (positive: used; negative: yielded).
pub struct RelationEntry<'a, R: Relation> {
    pub relation: &'a R,
    pub multiplicity: QM31,
    pub values: &'a [QM31],
}

impl<'a, R: Relation> RelationEntry<'a, R> {
    pub fn new(relation: &'a R, multiplicity: QM31, values: &'a [QM31]) -> (r: Self)
        ensures
            r.relation == relation,
            r.multiplicity == multiplicity,
            r.values@ == values@,
    {
        RelationEntry { relation, multiplicity, values }
    }
}

/// The fraction of one entry: `multiplicity / combine(values)`.
pub open spec fn entry_frac<'a, R: Relation>(e: RelationEntry<'a, R>) -> FracV {
    (e.multiplicity@, e.relation.combine_spec(qseq(e.values@)))
}

pub open spec fn entry_fracs<'a, R: Relation>(es: Seq<RelationEntry<'a, R>>) -> Seq<FracV> {
    Seq::new(es.len(), |i: int| entry_frac(es[i]))
}

/// Every entry's relation is well formed and its tuple fits the relation's width.
pub open spec fn entries_wf<'a, R: Relation>(es: Seq<RelationEntry<'a, R>>) -> bool {
    forall|i: int| 0 <= i < es.len() ==> (#[trigger] es[i]).relation.inv() && es[i].values@.len() <= es[i].relation.width()
}

/// The entries' fractions summed into one, left to right.
pub fn batch_fraction<'a, R: Relation>(entries: &[RelationEntry<'a, R>]) -> (r: Fraction)
    requires
        entries_wf(entries@),
    ensures
        r@ == frac_sum(entry_fracs(entries@)),
{
    let ghost fs = entry_fracs(entries@);
    if entries.len() == 0 {
        return Fraction::new(QM31::zero(), QM31::one());
    }
    let e = &entries[0];
    let mut acc = Fraction::new(e.multiplicity, e.relation.combine(e.values));
    assert(fs.take(1) =~= seq![fs[0]]);
    let mut i: usize = 1;
    while i < entries.len()
        invariant
            entries_wf(entries@),
            fs == entry_fracs(entries@),
            1 <= i <= entries@.len(),
            acc@ == frac_sum(fs.take(i as int)),
        decreases entries@.len() - i,
    {
        let e = &entries[i];
        let f = Fraction::new(e.multiplicity, e.relation.combine(e.values));
        assert(fs.take(i + 1).drop_last() =~= fs.take(i as int));
        acc = acc.add(f);
        i = i + 1;
    }
    assert(fs.take(i as int) =~= fs);
    acc
}

/// The product of the fractions' denominators, left to right; `1` when empty.
pub open spec fn denominator_product(fs: Seq<FracV>) -> QmV
    decreases fs.len(),
{
    if fs.len() == 0 {
        qm_one()
    } else if fs.len() == 1 {
        fs[0].1
    } else {
        qm_mul(denominator_product(fs.drop_last()), fs.last().1)
    }
}

/// Batching over a common denominator: for any number of entries, the batched
/// fraction's denominator is the product of the entries' combined values, and
/// adding one more entry adds its fraction to the batch of the others.
pub proof fn lemma_batch_common_denominator<'a, R: Relation>(es: Seq<RelationEntry<'a, R>>)
    ensures
        frac_sum(entry_fracs(es)).1 == denominator_product(entry_fracs(es)),
        es.len() >= 2 ==> frac_sum(entry_fracs(es)) == frac_add(
            frac_sum(entry_fracs(es.drop_last())),
            entry_frac(es.last()),
        ),
    decreases es.len(),
{
    if es.len() >= 1 {
        assert(entry_fracs(es).drop_last() =~= entry_fracs(es.drop_last()));
        lemma_batch_common_denominator(es.drop_last());
    }
}

/// Where a LogUp accumulator stands in its lifecycle.
#[derive(Clone, Copy, Debug, PartialEq, Eq, Structural)]
pub enum LogupPhase {
    Idle,
    Active,
    Finalized,
}

#[derive(Clone, Copy, Debug, PartialEq, Eq, Structural)]
pub enum LogupError {
    /// A fraction was written, or the sum finalized, with no interaction open.
    NotInitialized,
    /// An interaction was opened while another was still open.
    AlreadyInitialized,
}

/// A claimed sum of the first rows: the sum and the row it ends at.
pub type ClaimedPrefixSum = (QM31, usize);

/// The running state of one interaction's LogUp sum: the fractions written
/// since it was opened, in order.
pub struct LogupAtRow {
    pub phase: LogupPhase,
    pub total_sum: QM31,
    pub claimed_sum: Option<ClaimedPrefixSum>,
    pub log_size: u32,
    pub fracs: Vec<Fraction>,
}

pub open spec fn frac_views(fs: Seq<Fraction>) -> Seq<FracV> {
    fs.map_values(|f: Fraction| f@)
}

impl LogupAtRow {
    /// An accumulator with no interaction open.
    pub fn new() -> (r: LogupAtRow)
        ensures
            r.phase == LogupPhase::Idle,
            r.fracs@.len() == 0,
    {
        LogupAtRow { phase: LogupPhase::Idle, total_sum: QM31::zero(), claimed_sum: None, log_size: 0, fracs: Vec::new() }
    }

    /// Opens an interaction; fails, changing nothing, while one is open.
    pub fn init_logup(&mut self, total_sum: QM31, claimed_sum: Option<ClaimedPrefixSum>, log_size: u32) -> (r: Result<
        (),
        LogupError,
    >)
        ensures
            old(self).phase == LogupPhase::Active ==> (r matches Err(LogupError::AlreadyInitialized))
                && *final(self) == *old(self),
            old(self).phase != LogupPhase::Active ==> r is Ok && final(self).phase == LogupPhase::Active
                && final(self).fracs@.len() == 0 && final(self).total_sum == total_sum && final(self).claimed_sum
                == claimed_sum && final(self).log_size == log_size,
    {
        if self.phase == LogupPhase::Active {
            return Err(LogupError::AlreadyInitialized);
        }
        self.phase = LogupPhase::Active;
        self.total_sum = total_sum;
        self.claimed_sum = claimed_sum;
        self.log_size = log_size;
        self.fracs = Vec::new();
        Ok(())
    }

    /// Writes one fraction; fails, changing nothing, unless an interaction is open.
    pub fn write_frac(&mut self, fraction: Fraction) -> (r: Result<(), LogupError>)
        ensures
            old(self).phase != LogupPhase::Active ==> (r matches Err(LogupError::NotInitialized))
                && *final(self) == *old(self),
            old(self).phase == LogupPhase::Active ==> r is Ok && final(self).phase == LogupPhase::Active
                && final(self).fracs@ == old(self).fracs@.push(fraction) && final(self).total_sum == old(self).total_sum
                && final(self).claimed_sum == old(self).claimed_sum && final(self).log_size == old(self).log_size,
    {
        if self.phase != LogupPhase::Active {
            return Err(LogupError::NotInitialized);
        }
        self.fracs.push(fraction);
        Ok(())
    }

    /// Closes the open interaction and returns the sum of its fractions;
    /// fails, changing nothing, unless an interaction is open.
    pub fn finalize_logup(&mut self) -> (r: Result<Fraction, LogupError>)
        ensures
            old(self).phase != LogupPhase::Active ==> (r matches Err(LogupError::NotInitialized))
                && *final(self) == *old(self),
            old(self).phase == LogupPhase::Active ==> (r matches Ok(s) && s@ == frac_sum(frac_views(old(self).fracs@)))
                && final(self).phase == LogupPhase::Finalized && final(self).fracs@ == old(self).fracs@
                && final(self).total_sum == old(self).total_sum && final(self).claimed_sum == old(self).claimed_sum
                && final(self).log_size == old(self).log_size,
    {
        if self.phase != LogupPhase::Active {
            return Err(LogupError::NotInitialized);
        }
        let mut acc = Fraction::new(QM31::zero(), QM31::one());
        let n = self.fracs.len();
        let ghost fs = frac_views(self.fracs@);
        if n > 0 {
            acc = self.fracs[0];
            assert(fs.take(1) =~= seq![fs[0]]);
            let mut i: usize = 1;
            while i < n
                invariant
                    n == self.fracs@.len(),
                    fs == frac_views(self.fracs@),
                    1 <= i <= n,
                    acc@ == frac_sum(fs.take(i as int)),
                decreases n - i,
            {
                assert(fs.take(i + 1).drop_last() =~= fs.take(i as int));
                acc = acc.add(self.fracs[i]);
                i = i + 1;
            }
            assert(fs.take(i as int) =~= fs);
        }
        self.phase = LogupPhase::Finalized;
        Ok(acc)
    }

    /// Batches the entries into one fraction and writes it.
    pub fn add_to_relation<'a, R: Relation>(&mut self, entries: &[RelationEntry<'a, R>]) -> (r: Result<(), LogupError>)
        requires
            entries_wf(entries@),
        ensures
            old(self).phase != LogupPhase::Active ==> (r matches Err(LogupError::NotInitialized))
                && *final(self) == *old(self),
            old(self).phase == LogupPhase::Active ==> r is Ok && final(self).phase == LogupPhase::Active
                && final(self).fracs@.len() == old(self).fracs@.len() + 1
                && final(self).fracs@.drop_last() == old(self).fracs@
                && final(self).fracs@.last()@ == frac_sum(entry_fracs(entries@))
                && final(self).total_sum == old(self).total_sum && final(self).claimed_sum == old(self).claimed_sum
                && final(self).log_size == old(self).log_size,
    {
        let f = batch_fraction(entries);
        let r = self.write_frac(f);
        proof {
            if old(self).phase == LogupPhase::Active {
                assert(self.fracs@.drop_last() =~= old(self).fracs@);
            }
        }
        r
    }
}

} // verus!
