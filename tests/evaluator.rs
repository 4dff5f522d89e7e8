use stwo_prover::components::{Component, ComponentProvers, Components, ComponentsError};
use stwo_prover::evaluator::{PointEvaluationAccumulator, PointEvaluator};
use stwo_prover::fields::{M31, QM31};
use stwo_prover::relation::{LogupError, LogupPhase, NamedRelation, Relation, RelationEntry};

fn q(a: u32) -> QM31 {
    QM31::from_base(M31::from_u32_unchecked(a))
}

fn evaluator() -> PointEvaluator {
    // tree 0: one preprocessed column; tree 1: two columns read at two offsets;
    // tree 2: four columns holding one extension value.
    let mask = vec![
        vec![vec![q(9)]],
        vec![vec![q(1), q(2)], vec![q(3), q(4)]],
        vec![vec![q(1)], vec![q(2)], vec![q(3)], vec![q(4)]],
    ];
    PointEvaluator::new(mask, PointEvaluationAccumulator::new(q(10)), q(1))
}

#[test]
fn mask_cursor_moves_per_tree() {
    let mut e = evaluator();
    assert_eq!(e.next_interaction_mask(1, &[0, 1]), vec![q(1), q(2)]);
    assert_eq!(e.get_preprocessed_column(), q(9));
    assert_eq!(e.next_interaction_mask(1, &[0, 1]), vec![q(3), q(4)]);
    assert_eq!(e.col_index, vec![1, 2, 0]);
}

#[test]
fn next_trace_mask_reads_the_original_tree() {
    let mask = vec![vec![], vec![vec![q(5)], vec![q(6)]]];
    let mut e = PointEvaluator::new(mask, PointEvaluationAccumulator::new(q(1)), q(1));
    assert_eq!(e.next_trace_mask(), q(5));
    assert_eq!(e.next_trace_mask(), q(6));
}

#[test]
fn extension_mask_recombines_four_columns() {
    let mut e = evaluator();
    assert_eq!(
        e.next_extension_interaction_mask(2, &[0]),
        vec![QM31::from_u32_unchecked(1, 2, 3, 4)]
    );
    assert_eq!(e.col_index[2], 4);
    assert_eq!(
        PointEvaluator::combine_ef([q(5), q(6), q(7), q(8)]),
        QM31::from_u32_unchecked(5, 6, 7, 8)
    );
}

#[test]
fn constraints_fold_with_the_random_coefficient() {
    let mut e = evaluator();
    e.add_constraint(q(2));
    e.add_constraint(q(3));
    // (0 * 10 + 2) * 10 + 3
    assert_eq!(e.evaluation_accumulator.finalize(), q(23));
}

#[test]
fn evaluator_logup_wiring() {
    let rel: NamedRelation<2> = NamedRelation::dummy("Pair");
    let v = [q(1), q(2)];
    let entries = [RelationEntry::new(&rel, QM31::one(), &v)];
    let mut e = evaluator();
    assert_eq!(e.add_to_relation(&entries), Err(LogupError::NotInitialized));
    assert_eq!(e.init_logup(QM31::zero(), None, 4), Ok(()));
    assert_eq!(e.is_first, Some(q(9)));
    assert_eq!(e.col_index, vec![1, 0, 0]);
    // A second opening fails and reads nothing.
    assert_eq!(e.init_logup(QM31::one(), None, 4), Err(LogupError::AlreadyInitialized));
    assert_eq!(e.col_index, vec![1, 0, 0]);
    assert_eq!(e.logup.total_sum, QM31::zero());
    assert_eq!(e.add_to_relation(&entries), Ok(()));
    assert_eq!(e.logup.fracs[0].denominator, rel.combine(&v));
    assert_eq!(e.logup.finalize_logup().map(|f| f.numerator), Ok(QM31::one()));
    assert_eq!(e.logup.phase, LogupPhase::Finalized);
}

fn component(n: usize) -> Component {
    Component {
        max_constraint_log_degree_bound: 4,
        trace_log_degree_bounds: vec![],
        mask_offsets: vec![],
        n_constraints: n,
    }
}

#[test]
fn composition_at_point_folds_in_component_order() {
    let a = component(1);
    let b = component(2);
    let comps = Components(vec![&a, &b]);
    let evals = vec![vec![q(1)], vec![q(2), q(3)]];
    // ((1 * 10) + 2) * 10 + 3
    assert_eq!(comps.eval_composition_polynomial_at_point(q(10), &evals), Ok(q(123)));
    let swapped = vec![vec![q(2), q(3)], vec![q(1)]];
    assert_eq!(comps.eval_composition_polynomial_at_point(q(10), &swapped), Ok(q(231)));
}

#[test]
fn composition_at_point_rejects_a_count_mismatch() {
    let a = component(1);
    let b = component(1);
    let comps = Components(vec![&a, &b]);
    assert_eq!(
        comps.eval_composition_polynomial_at_point(q(10), &[vec![q(1)]]),
        Err(ComponentsError::ComponentCountMismatch)
    );
    assert_eq!(
        comps.eval_composition_polynomial_at_point(q(10), &[vec![q(1)], vec![q(1)], vec![q(1)]]),
        Err(ComponentsError::ComponentCountMismatch)
    );
}

#[test]
fn composition_polynomial_folds_rows_and_interpolates() {
    let mut a = component(1);
    a.max_constraint_log_degree_bound = 2;
    let mut b = component(1);
    b.max_constraint_log_degree_bound = 3;
    let comps = ComponentProvers(vec![&a, &b]);
    // Eight rows; component a's constraint is 1 everywhere, b's is the row number.
    let evals = vec![vec![vec![q(1); 8]], vec![(0..8).map(q).collect::<Vec<_>>()]];
    let (ev, poly) = comps.compute_composition_polynomial(q(10), &evals).unwrap();
    assert_eq!(poly.xs.len(), 4);
    assert_eq!(ev.values.len(), 8);
    for row in 0..8u32 {
        assert_eq!(ev.values[row as usize], q(10 + row));
    }
    // The interpolant takes these values on the domain.
    for i in 0..8 {
        assert_eq!(poly.eval_at_point(ev.domain.at(i)), ev.values[i]);
    }
    let short = vec![vec![vec![q(1); 4]], vec![vec![q(1); 8]]];
    assert_eq!(
        comps.compute_composition_polynomial(q(10), &short).err(),
        Some(ComponentsError::EvaluationSizeMismatch)
    );
    assert_eq!(
        comps.compute_composition_polynomial(q(10), &evals[..1]).err(),
        Some(ComponentsError::ComponentCountMismatch)
    );
}

#[test]
fn composition_polynomial_rejects_bad_degree_bounds() {
    let a = component(1);
    let mut b = component(1);
    b.max_constraint_log_degree_bound = 0;
    let comps = ComponentProvers(vec![&a, &b]);
    let evals = vec![vec![vec![q(1); 16]], vec![vec![q(1); 16]]];
    assert_eq!(
        comps.compute_composition_polynomial(q(10), &evals).err(),
        Some(ComponentsError::DegreeBoundOutOfRange)
    );
    let none = ComponentProvers(vec![]);
    assert_eq!(
        none.compute_composition_polynomial(q(10), &[]).err(),
        Some(ComponentsError::DegreeBoundOutOfRange)
    );
}
