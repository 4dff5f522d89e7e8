//! Evaluation of constraints at one point: mask values are read column by
//! column through a per-tree cursor, constraints are folded into one scalar
//! with a random coefficient, and LogUp entries go to an accumulator slot.
use crate::fields::{qm_add, qm_mul, QM31, QmV, SECURE_EXTENSION_DEGREE};
use crate::relation::{
    entries_wf, entry_fracs, frac_sum, ClaimedPrefixSum, LogupAtRow, LogupError, LogupPhase, Relation,
    RelationEntry,
};
use vstd::prelude::*;

verus! {

/// The preprocessed tree.
pub const PREPROCESSED_TRACE_IDX: usize = 0;

/// The tree of the witness trace.
pub const ORIGINAL_TRACE_IDX: usize = 1;

/// The tree of the interaction trace.
pub const INTERACTION_TRACE_IDX: usize = 2;

/// `sum_{i < n} c^(n-1-i) e_i`: evaluations folded in by `acc * c + e`.
pub open spec fn horner(c: QmV, start: QmV, evals: Seq<QmV>) -> QmV
    decreases evals.len(),
{
    if evals.len() == 0 {
        start
    } else {
        qm_add(qm_mul(horner(c, start, evals.drop_last()), c), evals.last())
    }
}

/// Folds evaluations into one value, `acc * random_coeff + evaluation`.
#[derive(Clone, Copy, Debug)]
pub struct PointEvaluationAccumulator {
    pub random_coeff: QM31,
    pub accumulation: QM31,
}

impl PointEvaluationAccumulator {
    pub fn new(random_coeff: QM31) -> (r: PointEvaluationAccumulator)
        ensures
            r.random_coeff == random_coeff,
            r.accumulation@ == crate::fields::qm_zero(),
    {
        PointEvaluationAccumulator { random_coeff, accumulation: QM31::zero() }
    }

    pub fn accumulate(&mut self, evaluation: QM31)
        ensures
            final(self).random_coeff == old(self).random_coeff,
            final(self).accumulation@ == qm_add(
                qm_mul(old(self).accumulation@, old(self).random_coeff@),
                evaluation@,
            ),
    {
        self.accumulation = self.accumulation.mul(self.random_coeff).add(evaluation);
    }

    pub fn finalize(&self) -> (r: QM31)
        ensures
            r == self.accumulation,
    {
        self.accumulation
    }
}

/// `a + b i + c u + d iu`.
pub open spec fn combine_ef_spec(a: QmV, b: QmV, c: QmV, d: QmV) -> QmV {
    qm_add(
        qm_add(qm_add(a, qm_mul(b, ((0, 1), (0, 0)))), qm_mul(c, ((0, 0), (1, 0)))),
        qm_mul(d, ((0, 0), (0, 1))),
    )
}

/// Offset by offset, the four columns recombined into extension values.
fn combine_columns(c0: &Vec<QM31>, c1: &Vec<QM31>, c2: &Vec<QM31>, c3: &Vec<QM31>) -> (r: Vec<QM31>)
    requires
        c1@.len() == c0@.len(),
        c2@.len() == c0@.len(),
        c3@.len() == c0@.len(),
    ensures
        r@.len() == c0@.len(),
        forall|i: int| 0 <= i < c0@.len() ==> (#[trigger] r@[i])@ == combine_ef_spec(c0@[i]@, c1@[i]@, c2@[i]@, c3@[i]@),
{
    let mut r: Vec<QM31> = Vec::new();
    let mut j: usize = 0;
    while j < c0.len()
        invariant
            j <= c0@.len(),
            c1@.len() == c0@.len(),
            c2@.len() == c0@.len(),
            c3@.len() == c0@.len(),
            r@.len() == j,
            forall|i: int| 0 <= i < j ==> (#[trigger] r@[i])@ == combine_ef_spec(c0@[i]@, c1@[i]@, c2@[i]@, c3@[i]@),
        decreases c0@.len() - j,
    {
        let vals: [QM31; 4] = [c0[j], c1[j], c2[j], c3[j]];
        r.push(PointEvaluator::combine_ef(vals));
        j = j + 1;
    }
    r
}

/// An evaluator at one out-of-domain point: the opened mask values, tree ->
/// column -> value per offset, read in commitment order.
pub struct PointEvaluator {
    pub mask: Vec<Vec<Vec<QM31>>>,
    /// Per tree, the next column to read.
    pub col_index: Vec<usize>,
    pub evaluation_accumulator: PointEvaluationAccumulator,
    /// The inverse of the constraint domain's vanishing value at the point.
    pub denom_inverse: QM31,
    pub logup: LogupAtRow,
    /// The preprocessed "is first row" value drawn when LogUp was opened.
    pub is_first: Option<QM31>,
}

impl PointEvaluator {
    pub fn new(mask: Vec<Vec<Vec<QM31>>>, evaluation_accumulator: PointEvaluationAccumulator, denom_inverse: QM31) -> (r: PointEvaluator)
        ensures
            r.mask@ == mask@,
            r.col_index@.len() == mask@.len(),
            forall|t: int| 0 <= t < mask@.len() ==> #[trigger] r.col_index@[t] == 0,
            r.evaluation_accumulator == evaluation_accumulator,
            r.denom_inverse == denom_inverse,
            r.logup.phase == LogupPhase::Idle,
            r.is_first is None,
    {
        let mut col_index: Vec<usize> = Vec::new();
        let mut t: usize = 0;
        while t < mask.len()
            invariant
                t <= mask@.len(),
                col_index@.len() == t,
                forall|s: int| 0 <= s < t ==> #[trigger] col_index@[s] == 0,
            decreases mask@.len() - t,
        {
            col_index.push(0);
            t = t + 1;
        }
        PointEvaluator { mask, col_index, evaluation_accumulator, denom_inverse, logup: LogupAtRow::new(), is_first: None }
    }

    /// The next column of tree `interaction` has a value for each offset.
    pub open spec fn can_read(&self, interaction: int, n_offsets: int) -> bool {
        &&& 0 <= interaction < self.mask@.len()
        &&& self.col_index@.len() == self.mask@.len()
        &&& self.col_index@[interaction] < self.mask@[interaction]@.len()
        &&& self.mask@[interaction]@[self.col_index@[interaction] as int]@.len() == n_offsets
    }

    /// The values of the next column of tree `interaction` at `offsets`; the
    /// tree's cursor moves one column on.
    pub fn next_interaction_mask(&mut self, interaction: usize, offsets: &[isize]) -> (r: Vec<QM31>)
        requires
            old(self).can_read(interaction as int, offsets@.len() as int),
        ensures
            r@ == old(self).mask@[interaction as int]@[old(self).col_index@[interaction as int] as int]@,
            final(self).col_index@.len() == old(self).col_index@.len(),
            final(self).col_index@[interaction as int] == old(self).col_index@[interaction as int] + 1,
            forall|t: int| 0 <= t < old(self).col_index@.len() && t != interaction as int ==> #[trigger] final(self).col_index@[t] == old(self).col_index@[t],
            final(self).mask@ == old(self).mask@,
            final(self).evaluation_accumulator == old(self).evaluation_accumulator,
            final(self).denom_inverse == old(self).denom_inverse,
            final(self).logup == old(self).logup,
            final(self).is_first == old(self).is_first,
    {
        let c = self.col_index[interaction];
        let n_cols = self.mask[interaction].len();
        let col = &self.mask[interaction][c];
        let mut r: Vec<QM31> = Vec::new();
        let mut j: usize = 0;
        while j < col.len()
            invariant
                j <= col@.len(),
                r@ == col@.take(j as int),
            decreases col@.len() - j,
        {
            r.push(col[j]);
            j = j + 1;
            assert(r@ =~= col@.take(j as int));
        }
        assert(r@ =~= col@);
        self.col_index.set(interaction, c + 1);
        r
    }

    /// The next column of the witness trace, at offset 0.
    pub fn next_trace_mask(&mut self) -> (r: QM31)
        requires
            old(self).can_read(ORIGINAL_TRACE_IDX as int, 1),
        ensures
            r == old(self).mask@[1]@[old(self).col_index@[1] as int]@[0],
            final(self).col_index@.len() == old(self).col_index@.len(),
            final(self).col_index@[1] == old(self).col_index@[1] + 1,
            forall|t: int| 0 <= t < old(self).col_index@.len() && t != 1 ==> #[trigger] final(self).col_index@[t] == old(self).col_index@[t],
            final(self).mask@ == old(self).mask@,
            final(self).evaluation_accumulator == old(self).evaluation_accumulator,
            final(self).denom_inverse == old(self).denom_inverse,
            final(self).logup == old(self).logup,
            final(self).is_first == old(self).is_first,
    {
        let offsets: [isize; 1] = [0];
        let v = self.next_interaction_mask(ORIGINAL_TRACE_IDX, &offsets);
        v[0]
    }

    /// The next preprocessed column, at offset 0.
    pub fn get_preprocessed_column(&mut self) -> (r: QM31)
        requires
            old(self).can_read(PREPROCESSED_TRACE_IDX as int, 1),
        ensures
            r == old(self).mask@[0]@[old(self).col_index@[0] as int]@[0],
            final(self).col_index@.len() == old(self).col_index@.len(),
            final(self).col_index@[0] == old(self).col_index@[0] + 1,
            forall|t: int| 0 <= t < old(self).col_index@.len() && t != 0 ==> #[trigger] final(self).col_index@[t] == old(self).col_index@[t],
            final(self).mask@ == old(self).mask@,
            final(self).evaluation_accumulator == old(self).evaluation_accumulator,
            final(self).denom_inverse == old(self).denom_inverse,
            final(self).logup == old(self).logup,
            final(self).is_first == old(self).is_first,
    {
        let offsets: [isize; 1] = [0];
        let v = self.next_interaction_mask(PREPROCESSED_TRACE_IDX, &offsets);
        v[0]
    }

    /// Four base values as one extension value: `a + b i + c u + d iu`.
    pub fn combine_ef(values: [QM31; 4]) -> (r: QM31)
        ensures
            r@ == combine_ef_spec(values@[0]@, values@[1]@, values@[2]@, values@[3]@),
    {
        let i = QM31::from_u32_unchecked(0, 1, 0, 0);
        let u = QM31::from_u32_unchecked(0, 0, 1, 0);
        let iu = QM31::from_u32_unchecked(0, 0, 0, 1);
        values[0].add(values[1].mul(i)).add(values[2].mul(u)).add(values[3].mul(iu))
    }

    /// Reads the next four columns of tree `interaction` and recombines them,
    /// offset by offset, into extension values.
    pub fn next_extension_interaction_mask(&mut self, interaction: usize, offsets: &[isize]) -> (r: Vec<QM31>)
        requires
            0 <= interaction < old(self).mask@.len(),
            old(self).col_index@.len() == old(self).mask@.len(),
            old(self).col_index@[interaction as int] + SECURE_EXTENSION_DEGREE <= old(self).mask@[interaction as int]@.len(),
            forall|k: int| 0 <= k < SECURE_EXTENSION_DEGREE ==> (#[trigger] old(self).mask@[interaction as int]@[old(self).col_index@[interaction as int] + k])@.len() == offsets@.len(),
        ensures
            r@.len() == offsets@.len(),
            forall|j: int| 0 <= j < offsets@.len() ==> {
                let cols = old(self).mask@[interaction as int]@;
                let c = old(self).col_index@[interaction as int] as int;
                (#[trigger] r@[j])@ == combine_ef_spec(cols[c]@[j]@, cols[c + 1]@[j]@, cols[c + 2]@[j]@, cols[c + 3]@[j]@)
            },
            final(self).col_index@.len() == old(self).col_index@.len(),
            final(self).col_index@[interaction as int] == old(self).col_index@[interaction as int] + 4,
            forall|t: int| 0 <= t < old(self).col_index@.len() && t != interaction as int ==> #[trigger] final(self).col_index@[t] == old(self).col_index@[t],
            final(self).mask@ == old(self).mask@,
            final(self).evaluation_accumulator == old(self).evaluation_accumulator,
            final(self).denom_inverse == old(self).denom_inverse,
            final(self).logup == old(self).logup,
            final(self).is_first == old(self).is_first,
    {
        let ghost c = old(self).col_index@[interaction as int] as int;
        let ghost cols = old(self).mask@[interaction as int]@;
        assert(cols[c + 0]@.len() == offsets@.len());
        let c0 = self.next_interaction_mask(interaction, offsets);
        assert(self.col_index@[interaction as int] == c + 1 && self.col_index@.len() == self.mask@.len());
        assert(cols[c + 1]@.len() == offsets@.len());
        let c1 = self.next_interaction_mask(interaction, offsets);
        assert(self.col_index@[interaction as int] == c + 2 && self.col_index@.len() == self.mask@.len());
        assert(cols[c + 2]@.len() == offsets@.len());
        let c2 = self.next_interaction_mask(interaction, offsets);
        assert(self.col_index@[interaction as int] == c + 3 && self.col_index@.len() == self.mask@.len());
        assert(cols[c + 3]@.len() == offsets@.len());
        let c3 = self.next_interaction_mask(interaction, offsets);
        combine_columns(&c0, &c1, &c2, &c3)
    }

    /// Folds `constraint / vanishing` into the accumulator.
    pub fn add_constraint(&mut self, constraint: QM31)
        ensures
            final(self).evaluation_accumulator.random_coeff == old(self).evaluation_accumulator.random_coeff,
            final(self).evaluation_accumulator.accumulation@ == qm_add(
                qm_mul(old(self).evaluation_accumulator.accumulation@, old(self).evaluation_accumulator.random_coeff@),
                qm_mul(constraint@, old(self).denom_inverse@),
            ),
            final(self).mask@ == old(self).mask@,
            final(self).col_index@ == old(self).col_index@,
            final(self).denom_inverse == old(self).denom_inverse,
            final(self).logup == old(self).logup,
            final(self).is_first == old(self).is_first,
    {
        let v = constraint.mul(self.denom_inverse);
        self.evaluation_accumulator.accumulate(v);
    }

    /// Opens LogUp for an interaction: draws the preprocessed "is first row"
    /// column and opens the accumulator. While an interaction is open it
    /// fails and changes nothing.
    pub fn init_logup(&mut self, total_sum: QM31, claimed_sum: Option<ClaimedPrefixSum>, log_size: u32) -> (r: Result<(), LogupError>)
        requires
            old(self).can_read(PREPROCESSED_TRACE_IDX as int, 1),
        ensures
            old(self).logup.phase == LogupPhase::Active ==> (r matches Err(LogupError::AlreadyInitialized))
                && *final(self) == *old(self),
            old(self).logup.phase != LogupPhase::Active ==> {
                &&& r is Ok
                &&& final(self).is_first == Some(old(self).mask@[0]@[old(self).col_index@[0] as int]@[0])
                &&& final(self).col_index@.len() == old(self).col_index@.len()
                &&& final(self).col_index@[0] == old(self).col_index@[0] + 1
                &&& forall|t: int| 0 < t < old(self).col_index@.len() ==> #[trigger] final(self).col_index@[t] == old(self).col_index@[t]
                &&& final(self).mask@ == old(self).mask@
                &&& final(self).evaluation_accumulator == old(self).evaluation_accumulator
                &&& final(self).denom_inverse == old(self).denom_inverse
                &&& final(self).logup.phase == LogupPhase::Active
                &&& final(self).logup.fracs@.len() == 0
                &&& final(self).logup.total_sum == total_sum
                &&& final(self).logup.claimed_sum == claimed_sum
                &&& final(self).logup.log_size == log_size
            },
    {
        if self.logup.phase == LogupPhase::Active {
            return Err(LogupError::AlreadyInitialized);
        }
        let is_first = self.get_preprocessed_column();
        self.is_first = Some(is_first);
        self.logup.init_logup(total_sum, claimed_sum, log_size)
    }

    /// Batches the entries into one fraction and writes it to the open
    /// interaction.
    pub fn add_to_relation<'a, R: Relation>(&mut self, entries: &[RelationEntry<'a, R>]) -> (r: Result<(), LogupError>)
        requires
            entries_wf(entries@),
        ensures
            old(self).logup.phase != LogupPhase::Active ==> (r matches Err(LogupError::NotInitialized))
                && final(self).logup == old(self).logup,
            old(self).logup.phase == LogupPhase::Active ==> r is Ok && final(self).logup.fracs@.len()
                == old(self).logup.fracs@.len() + 1 && final(self).logup.fracs@.drop_last() == old(self).logup.fracs@
                && final(self).logup.fracs@.last()@ == frac_sum(entry_fracs(entries@))
                && final(self).logup.total_sum == old(self).logup.total_sum
                && final(self).logup.claimed_sum == old(self).logup.claimed_sum
                && final(self).logup.log_size == old(self).logup.log_size
                && final(self).logup.phase == LogupPhase::Active,
            final(self).mask@ == old(self).mask@,
            final(self).col_index@ == old(self).col_index@,
            final(self).evaluation_accumulator == old(self).evaluation_accumulator,
            final(self).denom_inverse == old(self).denom_inverse,
            final(self).is_first == old(self).is_first,
    {
        self.logup.add_to_relation(entries)
    }
}

} // verus!
