//! Aggregation of many components into one AIR: mask points, column sizes and
//! degree bounds are concatenated per tree in component order, and committed
//! columns are partitioned back into per-component bundles in that order.
use crate::circle::{circle_gen_spec, cp_add, cp_mul, CirclePoint, CirclePointIndex, PointV};
use crate::evaluator::{horner, PointEvaluationAccumulator};
use crate::fields::{qm_zero, M31, QM31, QmV, SECURE_EXTENSION_DEGREE};
use crate::poly::{qseq, CircleDomain, CircleEvaluation, CirclePoly};
use vstd::prelude::*;

verus! {

/// What an aggregator needs to know of one component: its degree bound, its
/// columns' log sizes per tree, the shifts each column is read at, and its
/// number of constraints.
#[derive(Clone, Debug)]
pub struct Component {
    pub max_constraint_log_degree_bound: u32,
    /// Tree -> column -> log size.
    pub trace_log_degree_bounds: Vec<Vec<u32>>,
    /// Tree -> column -> shifts at which the column is read.
    pub mask_offsets: Vec<Vec<Vec<CirclePointIndex>>>,
    pub n_constraints: usize,
}

/// Tree `t` of one component's per-tree table, empty where it has no tree `t`.
pub open spec fn tree_of<X>(comp: Seq<Vec<X>>, t: int) -> Seq<X> {
    if 0 <= t < comp.len() {
        comp[t]@
    } else {
        Seq::empty()
    }
}

/// Tree `t` of the first `n` components, concatenated in component order.
pub open spec fn concat_tree<X>(parts: Seq<Vec<Vec<X>>>, t: int, n: nat) -> Seq<X>
    decreases n,
{
    if n == 0 {
        Seq::empty()
    } else {
        concat_tree(parts, t, (n - 1) as nat) + tree_of(parts[n - 1]@, t)
    }
}

/// The first `n` components' evaluation lists, joined in order.
pub open spec fn joined_evals(evals: Seq<Vec<QM31>>, n: nat) -> Seq<QmV>
    decreases n,
{
    if n == 0 {
        Seq::empty()
    } else {
        joined_evals(evals, (n - 1) as nat) + qseq(evals[n - 1]@)
    }
}

/// Row `row` of every constraint of the first `n` components, in order.
pub open spec fn joined_rows(evals: Seq<Vec<Vec<QM31>>>, row: int, n: nat) -> Seq<QmV>
    decreases n,
{
    if n == 0 {
        Seq::empty()
    } else {
        joined_rows(evals, row, (n - 1) as nat) + Seq::new(evals[n - 1]@.len(), |j: int| evals[n - 1]@[j]@[row]@)
    }
}

/// There are components, and every degree bound is a domain log size.
pub open spec fn bounds_in_range(comps: Seq<&Component>) -> bool {
    &&& comps.len() > 0
    &&& forall|i: int| 0 <= i < comps.len() ==> 1 <= (#[trigger] comps[i]).max_constraint_log_degree_bound <= 30
}

/// Every constraint of every component has one value per row.
pub open spec fn rows_cover(evals: Seq<Vec<Vec<QM31>>>, n_rows: int) -> bool {
    forall|c: int, j: int| 0 <= c < evals.len() && 0 <= j < evals[c]@.len() ==> (#[trigger] evals[c]@[j])@.len() == n_rows
}

/// The value the last entry with `key` holds, if any.
pub open spec fn last_value(entries: Seq<(String, M31)>, key: Seq<char>) -> Option<M31>
    decreases entries.len(),
{
    if entries.len() == 0 {
        None
    } else if entries.last().0@ == key {
        Some(entries.last().1)
    } else {
        last_value(entries.drop_last(), key)
    }
}

/// The first `n` components' lookup values, joined in order.
pub open spec fn joined_entries(per: Seq<Vec<(String, M31)>>, n: nat) -> Seq<(String, M31)>
    decreases n,
{
    if n == 0 {
        Seq::empty()
    } else {
        joined_entries(per, (n - 1) as nat) + per[n - 1]@
    }
}

/// `out` holds each key of `entries` once, with the value of its last entry.
pub open spec fn merges(out: Seq<(String, M31)>, entries: Seq<(String, M31)>) -> bool {
    &&& forall|i: int, j: int| 0 <= i < j < out.len() ==> (#[trigger] out[i]).0@ != (#[trigger] out[j]).0@
    &&& forall|i: int| 0 <= i < out.len() ==> last_value(entries, (#[trigger] out[i]).0@) == Some(out[i].1)
    &&& forall|key: Seq<char>| #[trigger] last_value(entries, key) is Some ==> exists|i: int|
        0 <= i < out.len() && (#[trigger] out[i]).0@ == key
}

/// Enters one key and value into a merged table, overwriting an earlier value.
fn merge_one(out: &mut Vec<(String, M31)>, e: &(String, M31), Ghost(entries): Ghost<Seq<(String, M31)>>)
    requires
        merges(old(out)@, entries),
    ensures
        merges(final(out)@, entries.push(*e)),
{
    let ghost prev = old(out)@;
    let ghost next = entries.push(*e);
    assert(next.drop_last() =~= entries);
    let mut i: usize = 0;
    while i < out.len()
        invariant
            out@ == prev,
            merges(prev, entries),
            next == entries.push(*e),
            next.drop_last() == entries,
            i <= out@.len(),
            forall|k: int| 0 <= k < i ==> (#[trigger] out@[k]).0@ != e.0@,
        decreases out@.len() - i,
    {
        if out[i].0 == e.0 {
            out.set(i, (e.0.clone(), e.1));
            assert forall|key: Seq<char>| #[trigger] last_value(next, key) is Some implies exists|k: int|
                0 <= k < out@.len() && (#[trigger] out@[k]).0@ == key by {
                if key != e.0@ {
                    assert(last_value(next, key) == last_value(entries, key));
                    let k = choose|k: int| 0 <= k < prev.len() && (#[trigger] prev[k]).0@ == key;
                    assert(out@[k].0@ == key);
                } else {
                    assert(out@[i as int].0@ == key);
                }
            }
            return;
        }
        i = i + 1;
    }
    out.push((e.0.clone(), e.1));
    assert forall|key: Seq<char>| #[trigger] last_value(next, key) is Some implies exists|k: int|
        0 <= k < out@.len() && (#[trigger] out@[k]).0@ == key by {
        if key != e.0@ {
            assert(last_value(next, key) == last_value(entries, key));
            let k = choose|k: int| 0 <= k < prev.len() && (#[trigger] prev[k]).0@ == key;
            assert(out@[k].0@ == key);
        } else {
            assert(out@[prev.len() as int].0@ == key);
        }
    }
}

/// The largest number of trees among the first `n` components.
pub open spec fn max_trees<X>(parts: Seq<Vec<Vec<X>>>, n: nat) -> nat
    decreases n,
{
    if n == 0 {
        0
    } else {
        let m = max_trees(parts, (n - 1) as nat);
        if parts[n - 1]@.len() > m {
            parts[n - 1]@.len()
        } else {
            m
        }
    }
}

/// The largest degree bound among the first `n` components (`n >= 1`).
pub open spec fn max_bound(comps: Seq<&Component>, n: nat) -> u32
    decreases n,
{
    if n <= 1 {
        comps[0].max_constraint_log_degree_bound
    } else {
        let m = max_bound(comps, (n - 1) as nat);
        let b = comps[n - 1].max_constraint_log_degree_bound;
        if b > m {
            b
        } else {
            m
        }
    }
}

pub open spec fn sizes_of(comps: Seq<&Component>) -> Seq<Vec<Vec<u32>>> {
    comps.map_values(|c: &Component| c.trace_log_degree_bounds)
}

pub open spec fn offsets_of(comps: Seq<&Component>) -> Seq<Vec<Vec<Vec<CirclePointIndex>>>> {
    comps.map_values(|c: &Component| c.mask_offsets)
}

/// `point` moved by the base-field point with index `shift`.
pub open spec fn shifted(point: PointV, shift: CirclePointIndex) -> PointV {
    cp_add(point, cp_mul(circle_gen_spec(), shift.0 as nat))
}

/// `pts` are the points `point` moved by each shift of `shifts`.
pub open spec fn shifted_all(point: PointV, shifts: Seq<CirclePointIndex>, pts: Seq<CirclePoint>) -> bool {
    &&& pts.len() == shifts.len()
    &&& forall|k: int| 0 <= k < pts.len() ==> #[trigger] pts[k]@ == shifted(point, shifts[k])
}

proof fn lemma_max_bound(comps: Seq<&Component>, n: nat)
    requires
        1 <= n <= comps.len(),
    ensures
        forall|i: int| 0 <= i < n ==> #[trigger] comps[i].max_constraint_log_degree_bound <= max_bound(comps, n),
        exists|i: int| 0 <= i < n && #[trigger] comps[i].max_constraint_log_degree_bound == max_bound(comps, n),
    decreases n,
{
    if n > 1 {
        lemma_max_bound(comps, (n - 1) as nat);
        if comps[n - 1].max_constraint_log_degree_bound > max_bound(comps, (n - 1) as nat) {
            assert(comps[n - 1].max_constraint_log_degree_bound == max_bound(comps, n));
        } else {
            let i = choose|i: int| 0 <= i < n - 1 && #[trigger] comps[i].max_constraint_log_degree_bound
                == max_bound(comps, (n - 1) as nat);
            assert(comps[i].max_constraint_log_degree_bound == max_bound(comps, n));
        }
    } else {
        assert(comps[0].max_constraint_log_degree_bound == max_bound(comps, n));
    }
}

/// Tree-major concatenation of the per-tree tables `parts`, in component order.
fn concat_trees(comps: &Vec<&Component>) -> (r: Vec<Vec<u32>>)
    ensures
        r@.len() == max_trees(sizes_of(comps@), comps@.len()),
        forall|t: int| 0 <= t < r@.len() ==> (#[trigger] r@[t])@ == concat_tree(sizes_of(comps@), t, comps@.len()),
{
    let ghost parts = sizes_of(comps@);
    assert(parts.len() == comps@.len());
    let mut n_trees: usize = 0;
    let mut c: usize = 0;
    while c < comps.len()
        invariant
            parts == sizes_of(comps@),
            parts.len() == comps@.len(),
            c <= comps@.len(),
            n_trees == max_trees(parts, c as nat),
        decreases comps@.len() - c,
    {
        assert(parts[c as int] == comps@[c as int].trace_log_degree_bounds);
        if comps[c].trace_log_degree_bounds.len() > n_trees {
            n_trees = comps[c].trace_log_degree_bounds.len();
        }
        c = c + 1;
    }
    let mut r: Vec<Vec<u32>> = Vec::new();
    let mut t: usize = 0;
    while t < n_trees
        invariant
            parts == sizes_of(comps@),
            parts.len() == comps@.len(),
            t <= n_trees,
            n_trees == max_trees(parts, comps@.len()),
            r@.len() == t,
            forall|s: int| 0 <= s < t ==> (#[trigger] r@[s])@ == concat_tree(parts, s, comps@.len()),
        decreases n_trees - t,
    {
        let mut tree: Vec<u32> = Vec::new();
        let mut c: usize = 0;
        while c < comps.len()
            invariant
                parts == sizes_of(comps@),
                parts.len() == comps@.len(),
                c <= comps@.len(),
                tree@ == concat_tree(parts, t as int, c as nat),
            decreases comps@.len() - c,
        {
            assert(parts[c as int] == comps@[c as int].trace_log_degree_bounds);
            if t < comps[c].trace_log_degree_bounds.len() {
                let col = &comps[c].trace_log_degree_bounds[t];
                let mut j: usize = 0;
                while j < col.len()
                    invariant
                        j <= col@.len(),
                        col == parts[c as int]@[t as int],
                        tree@ == concat_tree(parts, t as int, c as nat) + col@.take(j as int),
                    decreases col@.len() - j,
                {
                    tree.push(col[j]);
                    j = j + 1;
                    assert(col@.take(j as int) =~= col@.take(j - 1) + seq![col@[j - 1]]);
                }
                assert(col@.take(j as int) =~= col@);
            }
            assert(concat_tree(parts, t as int, (c + 1) as nat) == concat_tree(parts, t as int, c as nat)
                + tree_of(parts[c as int]@, t as int));
            assert(tree@ =~= concat_tree(parts, t as int, (c + 1) as nat));
            c = c + 1;
        }
        r.push(tree);
        t = t + 1;
    }
    r
}

impl Component {
    /// The points at which this component reads its columns, around `point`.
    pub fn mask_points(&self, point: CirclePoint) -> (r: Vec<Vec<Vec<CirclePoint>>>)
        ensures
            r@.len() == self.mask_offsets@.len(),
            forall|t: int| 0 <= t < r@.len() ==> (#[trigger] r@[t])@.len() == self.mask_offsets@[t]@.len(),
            forall|t: int, j: int| 0 <= t < r@.len() && 0 <= j < r@[t]@.len() ==>
                shifted_all(point@, self.mask_offsets@[t]@[j]@, (#[trigger] r@[t]@[j])@),
    {
        let mut r: Vec<Vec<Vec<CirclePoint>>> = Vec::new();
        let mut t: usize = 0;
        while t < self.mask_offsets.len()
            invariant
                t <= self.mask_offsets@.len(),
                r@.len() == t,
                forall|s: int| 0 <= s < t ==> (#[trigger] r@[s])@.len() == self.mask_offsets@[s]@.len(),
                forall|s: int, j: int| 0 <= s < t && 0 <= j < r@[s]@.len() ==>
                    shifted_all(point@, self.mask_offsets@[s]@[j]@, (#[trigger] r@[s]@[j])@),
            decreases self.mask_offsets@.len() - t,
        {
            let cols = &self.mask_offsets[t];
            let mut tree: Vec<Vec<CirclePoint>> = Vec::new();
            let mut j: usize = 0;
            while j < cols.len()
                invariant
                    cols == self.mask_offsets@[t as int],
                    j <= cols@.len(),
                    tree@.len() == j,
                    forall|i: int| 0 <= i < j ==> shifted_all(point@, cols@[i]@, (#[trigger] tree@[i])@),
                decreases cols@.len() - j,
            {
                tree.push(shift_all(point, &cols[j]));
                j = j + 1;
            }
            r.push(tree);
            t = t + 1;
        }
        r
    }
}

fn shift_all(point: CirclePoint, shifts: &Vec<CirclePointIndex>) -> (r: Vec<CirclePoint>)
    ensures
        shifted_all(point@, shifts@, r@),
{
    let mut r: Vec<CirclePoint> = Vec::new();
    let mut k: usize = 0;
    while k < shifts.len()
        invariant
            k <= shifts@.len(),
            r@.len() == k,
            forall|i: int| 0 <= i < k ==> #[trigger] r@[i]@ == shifted(point@, shifts@[i]),
        decreases shifts@.len() - k,
    {
        r.push(point.add(shifts[k].to_point()));
        k = k + 1;
    }
    r
}

/// An ordered list of borrowed components, in commitment order.
pub struct Components<'a>(pub Vec<&'a Component>);

impl<'a> Components<'a> {
    /// The largest of the components' constraint degree bounds.
    pub fn composition_log_degree_bound(&self) -> (r: u32)
        requires
            self.0@.len() > 0,
        ensures
            r == max_bound(self.0@, self.0@.len()),
            forall|i: int| 0 <= i < self.0@.len() ==> #[trigger] self.0@[i].max_constraint_log_degree_bound <= r,
            exists|i: int| 0 <= i < self.0@.len() && #[trigger] self.0@[i].max_constraint_log_degree_bound == r,
    {
        let mut m = self.0[0].max_constraint_log_degree_bound;
        let mut i: usize = 1;
        while i < self.0.len()
            invariant
                1 <= i <= self.0@.len(),
                m == max_bound(self.0@, i as nat),
            decreases self.0@.len() - i,
        {
            let b = self.0[i].max_constraint_log_degree_bound;
            if b > m {
                m = b;
            }
            i = i + 1;
        }
        proof {
            lemma_max_bound(self.0@, self.0@.len());
        }
        m
    }

    /// The composition polynomial at one point: each component's constraint
    /// quotients at the point, `evaluations[c]` in the order the component
    /// accumulates them, are folded in component order into one accumulator
    /// seeded with `random_coeff`. Fails unless there is one list per component.
    pub fn eval_composition_polynomial_at_point(&self, random_coeff: QM31, evaluations: &[Vec<QM31>]) -> (r: Result<
        QM31,
        ComponentsError,
    >)
        ensures
            (r matches Err(ComponentsError::ComponentCountMismatch)) <==> evaluations@.len() != self.0@.len(),
            r matches Ok(v) ==> v@ == horner(random_coeff@, qm_zero(), joined_evals(evaluations@, evaluations@.len() as nat)),
            r is Ok || (r matches Err(ComponentsError::ComponentCountMismatch)),
    {
        if evaluations.len() != self.0.len() {
            return Err(ComponentsError::ComponentCountMismatch);
        }
        let mut acc = PointEvaluationAccumulator::new(random_coeff);
        let mut c: usize = 0;
        while c < evaluations.len()
            invariant
                c <= evaluations@.len(),
                acc.random_coeff == random_coeff,
                acc.accumulation@ == horner(random_coeff@, qm_zero(), joined_evals(evaluations@, c as nat)),
            decreases evaluations@.len() - c,
        {
            let ev = &evaluations[c];
            let ghost before = joined_evals(evaluations@, c as nat);
            let mut j: usize = 0;
            while j < ev.len()
                invariant
                    ev == evaluations@[c as int],
                    j <= ev@.len(),
                    acc.random_coeff == random_coeff,
                    acc.accumulation@ == horner(random_coeff@, qm_zero(), before + qseq(ev@).take(j as int)),
                decreases ev@.len() - j,
            {
                acc.accumulate(ev[j]);
                proof {
                    let s = before + qseq(ev@).take(j + 1);
                    assert(s.drop_last() =~= before + qseq(ev@).take(j as int));
                }
                j = j + 1;
            }
            assert(qseq(ev@).take(j as int) =~= qseq(ev@));
            c = c + 1;
        }
        assert(evaluations@.len() as nat == c as nat);
        Ok(acc.finalize())
    }

    /// Per tree, the components' columns' log sizes, concatenated in
    /// component order.
    pub fn column_log_sizes(&self) -> (r: Vec<Vec<u32>>)
        ensures
            r@.len() == max_trees(sizes_of(self.0@), self.0@.len()),
            forall|t: int| 0 <= t < r@.len() ==> (#[trigger] r@[t])@ == concat_tree(sizes_of(self.0@), t, self.0@.len()),
    {
        concat_trees(&self.0)
    }

    /// Per tree, the components' mask points around `point`, concatenated in
    /// component order; then one more tree of `SECURE_EXTENSION_DEGREE`
    /// columns, each holding `point` alone, where the composition polynomial
    /// is opened.
    pub fn mask_points(&self, point: CirclePoint) -> (r: Vec<Vec<Vec<CirclePoint>>>)
        ensures
            r@.len() == max_trees(offsets_of(self.0@), self.0@.len()) + 1,
            forall|t: int| 0 <= t < r@.len() - 1 ==> (#[trigger] r@[t])@.len() == concat_tree(
                offsets_of(self.0@),
                t,
                self.0@.len(),
            ).len(),
            forall|t: int, j: int| 0 <= t < r@.len() - 1 && 0 <= j < r@[t]@.len() ==> shifted_all(
                point@,
                concat_tree(offsets_of(self.0@), t, self.0@.len())[j]@,
                (#[trigger] r@[t]@[j])@,
            ),
            r@.last()@.len() == SECURE_EXTENSION_DEGREE,
            forall|j: int| 0 <= j < SECURE_EXTENSION_DEGREE ==> (#[trigger] r@.last()@[j])@ == seq![point],
    {
        let ghost parts = offsets_of(self.0@);
        let comps = &self.0;
        let mut n_trees: usize = 0;
        let mut c: usize = 0;
        while c < comps.len()
            invariant
                parts == offsets_of(comps@),
                parts.len() == comps@.len(),
                c <= comps@.len(),
                n_trees == max_trees(parts, c as nat),
            decreases comps@.len() - c,
        {
            assert(parts[c as int] == comps@[c as int].mask_offsets);
            if comps[c].mask_offsets.len() > n_trees {
                n_trees = comps[c].mask_offsets.len();
            }
            c = c + 1;
        }
        let mut r: Vec<Vec<Vec<CirclePoint>>> = Vec::new();
        let mut t: usize = 0;
        while t < n_trees
            invariant
                parts == offsets_of(comps@),
                parts.len() == comps@.len(),
                t <= n_trees,
                n_trees == max_trees(parts, comps@.len()),
                r@.len() == t,
                forall|s: int| 0 <= s < t ==> (#[trigger] r@[s])@.len() == concat_tree(parts, s, comps@.len()).len(),
                forall|s: int, j: int| 0 <= s < t && 0 <= j < r@[s]@.len() ==> shifted_all(
                    point@,
                    concat_tree(parts, s, comps@.len())[j]@,
                    (#[trigger] r@[s]@[j])@,
                ),
            decreases n_trees - t,
        {
            let mut tree: Vec<Vec<CirclePoint>> = Vec::new();
            let mut c: usize = 0;
            while c < comps.len()
                invariant
                    parts == offsets_of(comps@),
                    parts.len() == comps@.len(),
                    c <= comps@.len(),
                    tree@.len() == concat_tree(parts, t as int, c as nat).len(),
                    forall|i: int| 0 <= i < tree@.len() ==> shifted_all(
                        point@,
                        concat_tree(parts, t as int, c as nat)[i]@,
                        (#[trigger] tree@[i])@,
                    ),
                decreases comps@.len() - c,
            {
                assert(parts[c as int] == comps@[c as int].mask_offsets);
                let ghost base = concat_tree(parts, t as int, c as nat);
                if t < comps[c].mask_offsets.len() {
                    let cols = &comps[c].mask_offsets[t];
                    let mut j: usize = 0;
                    while j < cols.len()
                        invariant
                            cols == parts[c as int]@[t as int],
                            j <= cols@.len(),
                            tree@.len() == base.len() + j,
                            forall|i: int| 0 <= i < tree@.len() ==> shifted_all(
                                point@,
                                (base + cols@)[i]@,
                                (#[trigger] tree@[i])@,
                            ),
                        decreases cols@.len() - j,
                    {
                        tree.push(shift_all(point, &cols[j]));
                        j = j + 1;
                    }
                }
                assert(concat_tree(parts, t as int, (c + 1) as nat) == base + tree_of(parts[c as int]@, t as int));
                c = c + 1;
            }
            r.push(tree);
            t = t + 1;
        }
        let mut last: Vec<Vec<CirclePoint>> = Vec::new();
        let mut j: usize = 0;
        while j < SECURE_EXTENSION_DEGREE
            invariant
                j <= SECURE_EXTENSION_DEGREE,
                last@.len() == j,
                forall|i: int| 0 <= i < j ==> (#[trigger] last@[i])@ == seq![point],
            decreases SECURE_EXTENSION_DEGREE - j,
        {
            let mut col: Vec<CirclePoint> = Vec::new();
            col.push(point);
            last.push(col);
            j = j + 1;
        }
        r.push(last);
        r
    }
}


/// Why committed columns could not be handed out to the components.
#[derive(Clone, Copy, Debug, PartialEq, Eq, Structural)]
pub enum ComponentsError {
    /// A component declares another number of trees than were committed.
    TreeCountMismatch,
    /// A tree holds fewer columns than the components declare in it.
    MissingColumns,
    /// Per-component data was supplied for another number of components.
    ComponentCountMismatch,
    /// A constraint's values do not cover the composition domain row for row.
    EvaluationSizeMismatch,
    /// There are no components, or a degree bound gives no circle domain
    /// (outside `1..=30`).
    DegreeBoundOutOfRange,
}

/// One committed tree: its column polynomials and their evaluations, in
/// commitment order.
pub struct CommitmentTreeProver<P, E> {
    pub polynomials: Vec<P>,
    pub evaluations: Vec<E>,
}

/// One component's share of the committed columns, per tree.
pub struct ComponentTrace<'b, P, E> {
    pub polys: Vec<Vec<&'b P>>,
    pub evals: Vec<Vec<&'b E>>,
}

/// The number of columns component `c` declares in tree `t`.
pub open spec fn n_cols(comp: &Component, t: int) -> int {
    comp.trace_log_degree_bounds@[t]@.len() as int
}

/// Where the columns of the `c`-th component start in tree `t`: the columns
/// the components before it declare there.
pub open spec fn col_start(comps: Seq<&Component>, t: int, c: nat) -> int
    decreases c,
{
    if c == 0 {
        0
    } else {
        col_start(comps, t, (c - 1) as nat) + n_cols(comps[c - 1], t)
    }
}

pub open spec fn tree_counts_match<P, E>(comps: Seq<&Component>, trees: Seq<CommitmentTreeProver<P, E>>) -> bool {
    forall|c: int| 0 <= c < comps.len() ==> (#[trigger] comps[c]).trace_log_degree_bounds@.len() == trees.len()
}

pub open spec fn columns_suffice<P, E>(comps: Seq<&Component>, trees: Seq<CommitmentTreeProver<P, E>>) -> bool {
    forall|t: int| 0 <= t < trees.len() ==> col_start(comps, t, comps.len()) <= (#[trigger] trees[t]).polynomials@.len()
        && col_start(comps, t, comps.len()) <= trees[t].evaluations@.len()
}

/// `tr` holds, for every tree, the component's own slice of that tree's
/// columns: `n_cols` of them, from `col_start`.
pub open spec fn is_share<P, E>(
    comps: Seq<&Component>,
    trees: Seq<CommitmentTreeProver<P, E>>,
    c: int,
    tr: ComponentTrace<P, E>,
) -> bool {
    &&& tr.polys@.len() == trees.len()
    &&& tr.evals@.len() == trees.len()
    &&& forall|t: int| 0 <= t < trees.len() ==> {
        &&& (#[trigger] tr.polys@[t])@.len() == n_cols(comps[c], t)
        &&& tr.evals@[t]@.len() == n_cols(comps[c], t)
        &&& forall|k: int| 0 <= k < n_cols(comps[c], t) ==> *(#[trigger] tr.polys@[t]@[k])
            == trees[t].polynomials@[col_start(comps, t, c as nat) + k]
        &&& forall|k: int| 0 <= k < n_cols(comps[c], t) ==> *(#[trigger] tr.evals@[t]@[k])
            == trees[t].evaluations@[col_start(comps, t, c as nat) + k]
    }
}

/// The values behind a sequence of references.
pub open spec fn derefs<P>(s: Seq<&P>) -> Seq<P> {
    Seq::new(s.len(), |k: int| *s[k])
}

/// Tree `t` of the first `n` shares, polynomials concatenated in component order.
pub open spec fn joined_polys<P, E>(traces: Seq<ComponentTrace<P, E>>, t: int, n: nat) -> Seq<P>
    decreases n,
{
    if n == 0 {
        Seq::empty()
    } else {
        joined_polys(traces, t, (n - 1) as nat) + derefs(traces[n - 1].polys@[t]@)
    }
}

proof fn lemma_col_start_mono(comps: Seq<&Component>, t: int, a: nat, b: nat)
    requires
        a <= b <= comps.len(),
    ensures
        col_start(comps, t, a) <= col_start(comps, t, b),
    decreases b,
{
    if a < b {
        lemma_col_start_mono(comps, t, a, (b - 1) as nat);
    }
}

/// Partition round trip: joining the shares of tree `t` in component order
/// gives back that tree's columns, when the components together declare
/// exactly as many columns as the tree holds.
pub proof fn lemma_partition_round_trip<P, E>(
    comps: Seq<&Component>,
    trees: Seq<CommitmentTreeProver<P, E>>,
    traces: Seq<ComponentTrace<P, E>>,
    t: int,
)
    requires
        0 <= t < trees.len(),
        traces.len() == comps.len(),
        forall|c: int| 0 <= c < comps.len() ==> is_share(comps, trees, c, #[trigger] traces[c]),
        col_start(comps, t, comps.len()) == trees[t].polynomials@.len(),
    ensures
        joined_polys(traces, t, comps.len()) == trees[t].polynomials@,
{
    lemma_joined_prefix(comps, trees, traces, t, comps.len());
    assert(trees[t].polynomials@.subrange(0, col_start(comps, t, comps.len())) =~= trees[t].polynomials@);
}

proof fn lemma_joined_prefix<P, E>(
    comps: Seq<&Component>,
    trees: Seq<CommitmentTreeProver<P, E>>,
    traces: Seq<ComponentTrace<P, E>>,
    t: int,
    n: nat,
)
    requires
        0 <= t < trees.len(),
        n <= traces.len() == comps.len(),
        forall|c: int| 0 <= c < comps.len() ==> is_share(comps, trees, c, #[trigger] traces[c]),
        col_start(comps, t, comps.len()) <= trees[t].polynomials@.len(),
    ensures
        joined_polys(traces, t, n) == trees[t].polynomials@.subrange(0, col_start(comps, t, n)),
    decreases n,
{
    if n > 0 {
        let c = n - 1;
        lemma_joined_prefix(comps, trees, traces, t, c as nat);
        lemma_col_start_mono(comps, t, n, comps.len());
        assert(is_share(comps, trees, c, traces[c]));
        let tail = derefs(traces[c].polys@[t]@);
        let tr = traces[c];
        assert(tr.polys@[t]@.len() == n_cols(comps[c], t));
        assert forall|k: int| 0 <= k < tail.len() implies tail[k] == trees[t].polynomials@[col_start(comps, t, c as nat) + k] by {
            assert(*tr.polys@[t]@[k] == trees[t].polynomials@[col_start(comps, t, c as nat) + k]);
        }
        assert(col_start(comps, t, n) == col_start(comps, t, c as nat) + n_cols(comps[c], t));
        assert(tail.len() == n_cols(comps[c], t));
        lemma_col_start_mono(comps, t, 0, c as nat);
        let sub = trees[t].polynomials@.subrange(col_start(comps, t, c as nat), col_start(comps, t, n));
        assert(sub.len() == tail.len());
        assert forall|k: int| 0 <= k < tail.len() implies tail[k] == sub[k] by {
            assert(*tr.polys@[t]@[k] == trees[t].polynomials@[col_start(comps, t, c as nat) + k]);
        }
        assert(tail =~= sub);
        assert(joined_polys(traces, t, n) =~= trees[t].polynomials@.subrange(0, col_start(comps, t, n)));
    }
}

/// The same ordered list of components, seen by the prover.
pub struct ComponentProvers<'a>(pub Vec<&'a Component>);

impl<'a> ComponentProvers<'a> {
    pub fn components(&self) -> (r: Components<'_>)
        ensures
            r.0@ == self.0@,
    {
        let mut v: Vec<&Component> = Vec::new();
        let mut i: usize = 0;
        while i < self.0.len()
            invariant
                i <= self.0@.len(),
                v@ == self.0@.take(i as int),
            decreases self.0@.len() - i,
        {
            v.push(self.0[i]);
            i = i + 1;
            assert(v@ =~= self.0@.take(i as int));
        }
        assert(v@ =~= self.0@);
        Components(v)
    }

    /// The composition polynomial on the domain of size
    /// `2^composition_log_degree_bound`: on each row, the components' constraint
    /// quotients (`evaluations[c][j][row]`, in component order, then
    /// constraint order) are folded with `random_coeff`, and the values are
    /// interpolated. Fails unless there is one list per component, each
    /// constraint with one value per row.
    pub fn compute_composition_polynomial(&self, random_coeff: QM31, evaluations: &[Vec<Vec<QM31>>]) -> (r: Result<
        (CircleEvaluation, CirclePoly),
        ComponentsError,
    >)
        ensures
            (r matches Err(ComponentsError::ComponentCountMismatch)) <==> evaluations@.len() != self.0@.len(),
            (r matches Err(ComponentsError::DegreeBoundOutOfRange)) <==> evaluations@.len() == self.0@.len()
                && !bounds_in_range(self.0@),
            (r matches Err(ComponentsError::EvaluationSizeMismatch)) <==> evaluations@.len() == self.0@.len()
                && bounds_in_range(self.0@) && !rows_cover(evaluations@, vstd::arithmetic::power2::pow2(max_bound(self.0@, self.0@.len()) as nat) as int),
            r is Ok || (r matches Err(ComponentsError::ComponentCountMismatch)) || (r matches Err(
                ComponentsError::DegreeBoundOutOfRange,
            )) || (r matches Err(ComponentsError::EvaluationSizeMismatch)),
            r matches Ok((ev, p)) ==> {
                &&& ev.wf()
                &&& ev.domain.half_coset.log_size + 1 == max_bound(self.0@, self.0@.len())
                &&& ev.domain.half_coset.initial_index.0 == 1
                &&& forall|row: int| 0 <= row < ev.values@.len() ==> (#[trigger] ev.values@[row])@ == horner(
                    random_coeff@,
                    qm_zero(),
                    joined_rows(evaluations@, row, evaluations@.len() as nat),
                )
                &&& ev.interpolated_by(p)
            },
    {
        if evaluations.len() != self.0.len() {
            return Err(ComponentsError::ComponentCountMismatch);
        }
        if self.0.len() == 0 {
            let r: Result<(CircleEvaluation, CirclePoly), ComponentsError> = Err(ComponentsError::DegreeBoundOutOfRange);
            return r;
        }
        let mut i: usize = 0;
        while i < self.0.len()
            invariant
                evaluations@.len() == self.0@.len(),
                self.0@.len() > 0,
                i <= self.0@.len(),
                forall|k: int| 0 <= k < i ==> 1 <= (#[trigger] self.0@[k]).max_constraint_log_degree_bound <= 30,
            decreases self.0@.len() - i,
        {
            let b = self.0[i].max_constraint_log_degree_bound;
            if b < 1 || b > 30 {
                assert(!bounds_in_range(self.0@));
                let r: Result<(CircleEvaluation, CirclePoly), ComponentsError> = Err(ComponentsError::DegreeBoundOutOfRange);
                return r;
            }
            i = i + 1;
        }
        assert(bounds_in_range(self.0@));
        let log_size = self.components().composition_log_degree_bound();
        let domain = CircleDomain::constraint_evaluation_domain(log_size);
        let n = domain.size();
        proof {
            let i = choose|i: int| 0 <= i < self.0@.len() && #[trigger] self.0@[i].max_constraint_log_degree_bound == log_size;
            assert(1 <= self.0@[i].max_constraint_log_degree_bound <= 30);
            vstd::arithmetic::power2::lemma_pow2_unfold(log_size as nat);
        }
        let ghost n_rows = vstd::arithmetic::power2::pow2(max_bound(self.0@, self.0@.len()) as nat) as int;
        assert(n == n_rows);
        let mut c: usize = 0;
        while c < evaluations.len()
            invariant
                evaluations@.len() == self.0@.len(),
                bounds_in_range(self.0@),
                n == n_rows,
                n_rows == vstd::arithmetic::power2::pow2(max_bound(self.0@, self.0@.len()) as nat) as int,
                c <= evaluations@.len(),
                forall|d: int, j: int| 0 <= d < c && 0 <= j < evaluations@[d]@.len() ==> (#[trigger] evaluations@[d]@[j])@.len() == n,
            decreases evaluations@.len() - c,
        {
            let mut j: usize = 0;
            while j < evaluations[c].len()
                invariant
                    evaluations@.len() == self.0@.len(),
                    bounds_in_range(self.0@),
                    n == n_rows,
                    n_rows == vstd::arithmetic::power2::pow2(max_bound(self.0@, self.0@.len()) as nat) as int,
                    c < evaluations@.len(),
                    j <= evaluations@[c as int]@.len(),
                    forall|d: int, i: int| 0 <= d < c && 0 <= i < evaluations@[d]@.len() ==> (#[trigger] evaluations@[d]@[i])@.len() == n,
                    forall|i: int| 0 <= i < j ==> (#[trigger] evaluations@[c as int]@[i])@.len() == n,
                decreases evaluations@[c as int]@.len() - j,
            {
                if evaluations[c][j].len() != n {
                    proof {
                        let e = evaluations@[c as int]@[j as int];
                        assert(e@.len() != n);
                        assert(!rows_cover(evaluations@, n_rows));
                    }
                    let r: Result<(CircleEvaluation, CirclePoly), ComponentsError> = Err(ComponentsError::EvaluationSizeMismatch);
                    return r;
                }
                j = j + 1;
            }
            c = c + 1;
        }
        let mut values: Vec<QM31> = Vec::new();
        let mut row: usize = 0;
        while row < n
            invariant
                rows_cover(evaluations@, n as int),
                row <= n,
                values@.len() == row,
                forall|i: int| 0 <= i < row ==> (#[trigger] values@[i])@ == horner(
                    random_coeff@,
                    qm_zero(),
                    joined_rows(evaluations@, i, evaluations@.len() as nat),
                ),
            decreases n - row,
        {
            let mut acc = PointEvaluationAccumulator::new(random_coeff);
            let mut c: usize = 0;
            while c < evaluations.len()
                invariant
                    rows_cover(evaluations@, n as int),
                    row < n,
                    c <= evaluations@.len(),
                    acc.random_coeff == random_coeff,
                    acc.accumulation@ == horner(random_coeff@, qm_zero(), joined_rows(evaluations@, row as int, c as nat)),
                decreases evaluations@.len() - c,
            {
                let ev = &evaluations[c];
                let ghost before = joined_rows(evaluations@, row as int, c as nat);
                let ghost col = Seq::new(ev@.len(), |j: int| ev@[j]@[row as int]@);
                let mut j: usize = 0;
                while j < ev.len()
                    invariant
                        rows_cover(evaluations@, n as int),
                        c < evaluations@.len(),
                        ev == evaluations@[c as int],
                        col == Seq::new(ev@.len(), |j: int| ev@[j]@[row as int]@),
                        row < n,
                        j <= ev@.len(),
                        acc.random_coeff == random_coeff,
                        acc.accumulation@ == horner(random_coeff@, qm_zero(), before + col.take(j as int)),
                    decreases ev@.len() - j,
                {
                    assert(ev@[j as int]@.len() == n);
                    acc.accumulate(ev[j][row]);
                    proof {
                        let s = before + col.take(j + 1);
                        assert(s.drop_last() =~= before + col.take(j as int));
                    }
                    j = j + 1;
                }
                assert(col.take(j as int) =~= col);
                c = c + 1;
            }
            values.push(acc.finalize());
            row = row + 1;
        }
        let ev = CircleEvaluation::new(domain, values);
        let p = ev.interpolate();
        Ok((ev, p))
    }

    /// The components' published lookup values, merged in component order:
    /// each key once, with the value of the last component that holds it.
    /// Fails unless there is one list per component.
    pub fn lookup_values(&self, per_component: &[Vec<(String, M31)>]) -> (r: Result<Vec<(String, M31)>, ComponentsError>)
        ensures
            (r matches Err(ComponentsError::ComponentCountMismatch)) <==> per_component@.len() != self.0@.len(),
            r is Ok || (r matches Err(ComponentsError::ComponentCountMismatch)),
            r matches Ok(v) ==> merges(v@, joined_entries(per_component@, per_component@.len() as nat)),
    {
        if per_component.len() != self.0.len() {
            return Err(ComponentsError::ComponentCountMismatch);
        }
        let mut out: Vec<(String, M31)> = Vec::new();
        let mut c: usize = 0;
        while c < per_component.len()
            invariant
                c <= per_component@.len(),
                merges(out@, joined_entries(per_component@, c as nat)),
            decreases per_component@.len() - c,
        {
            let vals = &per_component[c];
            let ghost before = joined_entries(per_component@, c as nat);
            let mut j: usize = 0;
            while j < vals.len()
                invariant
                    vals == per_component@[c as int],
                    j <= vals@.len(),
                    merges(out@, before + vals@.take(j as int)),
                decreases vals@.len() - j,
            {
                merge_one(&mut out, &vals[j], Ghost(before + vals@.take(j as int)));
                assert((before + vals@.take(j as int)).push(vals@[j as int]) =~= before + vals@.take(j + 1));
                j = j + 1;
            }
            assert(vals@.take(j as int) =~= vals@);
            c = c + 1;
        }
        Ok(out)
    }

    /// Hands each component, in order, its declared number of columns of each
    /// tree, taken consecutively from the front of the tree.
    pub fn component_traces<'b, P, E>(&'b self, trees: &'b [CommitmentTreeProver<P, E>]) -> (r: Result<
        Vec<ComponentTrace<'b, P, E>>,
        ComponentsError,
    >)
        ensures
            (r matches Err(ComponentsError::TreeCountMismatch)) <==> !tree_counts_match(self.0@, trees@),
            (r matches Err(ComponentsError::MissingColumns)) <==> tree_counts_match(self.0@, trees@)
                && !columns_suffice(self.0@, trees@),
            r is Ok || (r matches Err(ComponentsError::TreeCountMismatch)) || (r matches Err(
                ComponentsError::MissingColumns,
            )),
            r matches Ok(v) ==> v@.len() == self.0@.len() && forall|c: int| 0 <= c < v@.len() ==> is_share(
                self.0@,
                trees@,
                c,
                #[trigger] v@[c],
            ),
    {
        let comps = &self.0;
        assert(comps@ == self.0@);
        let mut c: usize = 0;
        while c < comps.len()
            invariant
                comps@ == self.0@,
                c <= comps@.len(),
                forall|d: int| 0 <= d < c ==> (#[trigger] comps@[d]).trace_log_degree_bounds@.len() == trees@.len(),
            decreases comps@.len() - c,
        {
            if comps[c].trace_log_degree_bounds.len() != trees.len() {
                assert(self.0@[c as int].trace_log_degree_bounds@.len() != trees@.len());
                assert(!tree_counts_match(self.0@, trees@));
                let r: Result<Vec<ComponentTrace<'b, P, E>>, ComponentsError> = Err(ComponentsError::TreeCountMismatch);
                assert(r matches Err(ComponentsError::TreeCountMismatch));
                return r;
            }
            c = c + 1;
        }
        let mut t: usize = 0;
        while t < trees.len()
            invariant
                comps@ == self.0@,
                tree_counts_match(comps@, trees@),
                t <= trees@.len(),
                forall|s: int| 0 <= s < t ==> col_start(comps@, s, comps@.len()) <= (#[trigger] trees@[s]).polynomials@.len()
                    && col_start(comps@, s, comps@.len()) <= trees@[s].evaluations@.len(),
            decreases trees@.len() - t,
        {
            let len_p = trees[t].polynomials.len();
            let len_e = trees[t].evaluations.len();
            let lim = if len_p < len_e { len_p } else { len_e };
            let mut total: usize = 0;
            let mut c: usize = 0;
            while c < comps.len()
                invariant
                    comps@ == self.0@,
                    tree_counts_match(comps@, trees@),
                    t < trees@.len(),
                    c <= comps@.len(),
                    lim == trees@[t as int].polynomials@.len() || lim == trees@[t as int].evaluations@.len(),
                    lim <= trees@[t as int].polynomials@.len(),
                    lim <= trees@[t as int].evaluations@.len(),
                    total == col_start(comps@, t as int, c as nat),
                    total <= lim,
                decreases comps@.len() - c,
            {
                assert(comps@[c as int].trace_log_degree_bounds@.len() == trees@.len());
                let n = comps[c].trace_log_degree_bounds[t].len();
                if n > lim - total {
                    proof {
                        lemma_col_start_mono(comps@, t as int, (c + 1) as nat, comps@.len());
                        let tr = trees@[t as int];
                        assert(!(col_start(comps@, t as int, comps@.len()) <= tr.polynomials@.len()
                            && col_start(comps@, t as int, comps@.len()) <= tr.evaluations@.len()));
                    }
                    assert(tree_counts_match(self.0@, trees@));
                    assert(!columns_suffice(self.0@, trees@));
                    let r: Result<Vec<ComponentTrace<'b, P, E>>, ComponentsError> = Err(ComponentsError::MissingColumns);
                    return r;
                }
                total = total + n;
                c = c + 1;
            }
            t = t + 1;
        }
        let mut starts: Vec<usize> = Vec::new();
        let mut t: usize = 0;
        while t < trees.len()
            invariant
                t <= trees@.len(),
                starts@.len() == t,
                forall|s: int| 0 <= s < t ==> #[trigger] starts@[s] == 0,
            decreases trees@.len() - t,
        {
            starts.push(0);
            t = t + 1;
        }
        let mut out: Vec<ComponentTrace<'b, P, E>> = Vec::new();
        let mut c: usize = 0;
        while c < comps.len()
            invariant
                comps@ == self.0@,
                tree_counts_match(comps@, trees@),
                columns_suffice(comps@, trees@),
                c <= comps@.len(),
                starts@.len() == trees@.len(),
                forall|s: int| 0 <= s < trees@.len() ==> #[trigger] starts@[s] == col_start(comps@, s, c as nat),
                out@.len() == c,
                forall|d: int| 0 <= d < c ==> is_share(comps@, trees@, d, #[trigger] out@[d]),
            decreases comps@.len() - c,
        {
            let comp = comps[c];
            assert(comp.trace_log_degree_bounds@.len() == trees@.len());
            let mut polys: Vec<Vec<&'b P>> = Vec::new();
            let mut evals: Vec<Vec<&'b E>> = Vec::new();
            let mut t: usize = 0;
            while t < trees.len()
                invariant
                    tree_counts_match(comps@, trees@),
                    columns_suffice(comps@, trees@),
                    c < comps@.len(),
                    comp == comps@[c as int],
                    comp.trace_log_degree_bounds@.len() == trees@.len(),
                    t <= trees@.len(),
                    starts@.len() == trees@.len(),
                    forall|s: int| 0 <= s < t ==> #[trigger] starts@[s] == col_start(comps@, s, (c + 1) as nat),
                    forall|s: int| t <= s < trees@.len() ==> #[trigger] starts@[s] == col_start(comps@, s, c as nat),
                    polys@.len() == t,
                    evals@.len() == t,
                    forall|s: int| 0 <= s < t ==> {
                        &&& (#[trigger] polys@[s])@.len() == n_cols(comps@[c as int], s)
                        &&& evals@[s]@.len() == n_cols(comps@[c as int], s)
                        &&& forall|k: int| 0 <= k < n_cols(comps@[c as int], s) ==> *(#[trigger] polys@[s]@[k])
                            == trees@[s].polynomials@[col_start(comps@, s, c as nat) + k]
                        &&& forall|k: int| 0 <= k < n_cols(comps@[c as int], s) ==> *(#[trigger] evals@[s]@[k])
                            == trees@[s].evaluations@[col_start(comps@, s, c as nat) + k]
                    },
                decreases trees@.len() - t,
            {
                let n = comp.trace_log_degree_bounds[t].len();
                let start = starts[t];
                proof {
                    lemma_col_start_mono(comps@, t as int, (c + 1) as nat, comps@.len());
                    assert(col_start(comps@, t as int, comps@.len()) <= trees@[t as int].polynomials@.len());
                }
                assert(start + n <= trees@[t as int].polynomials@.len());
                assert(start + n <= trees@[t as int].evaluations@.len());
                let tree = &trees[t];
                let lp = tree.polynomials.len();
                let le = tree.evaluations.len();
                let mut tp: Vec<&'b P> = Vec::new();
                let mut te: Vec<&'b E> = Vec::new();
                let mut k: usize = 0;
                while k < n
                    invariant
                        tree == &trees@[t as int],
                        start + n <= lp,
                        lp == tree.polynomials@.len(),
                        start + n <= le,
                        le == tree.evaluations@.len(),
                        k <= n,
                        tp@.len() == k,
                        te@.len() == k,
                        forall|i: int| 0 <= i < k ==> *(#[trigger] tp@[i]) == tree.polynomials@[start + i],
                        forall|i: int| 0 <= i < k ==> *(#[trigger] te@[i]) == tree.evaluations@[start + i],
                    decreases n - k,
                {
                    tp.push(&tree.polynomials[start + k]);
                    te.push(&tree.evaluations[start + k]);
                    k = k + 1;
                }
                polys.push(tp);
                evals.push(te);
                starts.set(t, start + n);
                t = t + 1;
            }
            let tr = ComponentTrace { polys, evals };
            assert forall|s: int| 0 <= s < trees@.len() implies (#[trigger] tr.polys@[s])@.len() == n_cols(comps@[c as int], s) && tr.evals@[s]@.len() == n_cols(comps@[c as int], s) by {
                assert(polys@[s]@.len() == n_cols(comps@[c as int], s));
            }
            assert(is_share(comps@, trees@, c as int, tr));
            out.push(tr);
            c = c + 1;
        }
        Ok(out)
    }
}

} // verus!
