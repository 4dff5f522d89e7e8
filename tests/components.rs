use stwo_prover::circle::{CirclePoint, CirclePointIndex};
use stwo_prover::components::{
    CommitmentTreeProver, Component, ComponentProvers, Components, ComponentsError,
};
use stwo_prover::fields::M31;

fn component(bound: u32, sizes: Vec<Vec<u32>>) -> Component {
    let mask_offsets = sizes
        .iter()
        .map(|tree| tree.iter().map(|_| vec![CirclePointIndex(0)]).collect())
        .collect();
    Component {
        max_constraint_log_degree_bound: bound,
        trace_log_degree_bounds: sizes,
        mask_offsets,
        n_constraints: 1,
    }
}

#[test]
fn composition_bound_is_the_maximum() {
    let a = component(3, vec![]);
    let b = component(5, vec![]);
    let c = component(2, vec![]);
    let comps = Components(vec![&a, &b, &c]);
    assert_eq!(comps.composition_log_degree_bound(), 5);
}

#[test]
fn column_log_sizes_concatenate_in_component_order() {
    let a = component(3, vec![vec![1], vec![4, 5]]);
    let b = component(3, vec![vec![2, 3], vec![6], vec![7]]);
    let comps = Components(vec![&a, &b]);
    assert_eq!(
        comps.column_log_sizes(),
        vec![vec![1, 2, 3], vec![4, 5, 6], vec![7]]
    );
    let swapped = Components(vec![&b, &a]);
    assert_eq!(
        swapped.column_log_sizes(),
        vec![vec![2, 3, 1], vec![6, 4, 5], vec![7]]
    );
}

#[test]
fn mask_points_append_the_composition_tree_last() {
    let a = component(3, vec![vec![1], vec![4, 5]]);
    let b = component(3, vec![vec![2, 3]]);
    let comps = Components(vec![&a, &b]);
    let point = CirclePoint::get_point(12345);
    let pts = comps.mask_points(point);
    assert_eq!(pts.len(), 3);
    assert_eq!(pts[0].len(), 3);
    assert_eq!(pts[1].len(), 2);
    assert_eq!(pts[2], vec![vec![point]; 4]);
    // Shift 0 leaves the point where it is.
    assert_eq!(pts[0][0], vec![point]);
}

#[test]
fn mask_points_shift_by_the_declared_offsets() {
    let mut a = component(3, vec![vec![1]]);
    a.mask_offsets = vec![vec![vec![CirclePointIndex(0), CirclePointIndex(1)]]];
    let comps = Components(vec![&a]);
    let point = CirclePoint::get_point(777);
    let pts = comps.mask_points(point);
    assert_eq!(pts[0][0][0], point);
    assert_eq!(pts[0][0][1], point.add(CirclePointIndex(1).to_point()));
    assert_ne!(pts[0][0][1], point);
}

#[test]
fn component_traces_partition_in_order() {
    let a = component(3, vec![vec![], vec![1, 1]]);
    let b = component(3, vec![vec![], vec![1, 1, 1]]);
    let provers = ComponentProvers(vec![&a, &b]);
    let trees = vec![
        CommitmentTreeProver { polynomials: Vec::<u32>::new(), evaluations: Vec::<u32>::new() },
        CommitmentTreeProver {
            polynomials: vec![10u32, 11, 12, 13, 14],
            evaluations: vec![20u32, 21, 22, 23, 24],
        },
    ];
    let traces = provers.component_traces(&trees).unwrap();
    assert_eq!(traces.len(), 2);
    assert_eq!(traces[0].polys[1], vec![&10, &11]);
    assert_eq!(traces[1].polys[1], vec![&12, &13, &14]);
    assert_eq!(traces[0].evals[1], vec![&20, &21]);
    assert_eq!(traces[1].evals[1], vec![&22, &23, &24]);
    let joined: Vec<u32> = traces.iter().flat_map(|t| t.polys[1].iter().map(|p| **p)).collect();
    assert_eq!(joined, trees[1].polynomials);
}

#[test]
fn component_traces_reject_a_tree_count_mismatch() {
    let a = component(3, vec![vec![1]]);
    let provers = ComponentProvers(vec![&a]);
    let trees = vec![
        CommitmentTreeProver { polynomials: vec![1u32], evaluations: vec![1u32] },
        CommitmentTreeProver { polynomials: vec![2u32], evaluations: vec![2u32] },
    ];
    assert!(matches!(
        provers.component_traces(&trees),
        Err(ComponentsError::TreeCountMismatch)
    ));
}

#[test]
fn component_traces_reject_missing_columns() {
    let a = component(3, vec![vec![1, 1]]);
    let b = component(3, vec![vec![1]]);
    let provers = ComponentProvers(vec![&a, &b]);
    let trees = vec![CommitmentTreeProver { polynomials: vec![1u32, 2], evaluations: vec![1u32, 2] }];
    assert!(matches!(
        provers.component_traces(&trees),
        Err(ComponentsError::MissingColumns)
    ));
}

#[test]
fn provers_expose_the_same_components() {
    let a = component(3, vec![vec![1]]);
    let b = component(7, vec![vec![2]]);
    let provers = ComponentProvers(vec![&a, &b]);
    let comps = provers.components();
    assert_eq!(comps.composition_log_degree_bound(), 7);
    assert_eq!(comps.column_log_sizes(), vec![vec![1, 2]]);
}

#[test]
fn lookup_values_merge_in_order_later_wins() {
    let a = component(3, vec![]);
    let b = component(3, vec![]);
    let provers = ComponentProvers(vec![&a, &b]);
    let m = |v: u32| M31::from_u32_unchecked(v);
    let per = vec![
        vec![("a".to_string(), m(1)), ("b".to_string(), m(2))],
        vec![("b".to_string(), m(5)), ("c".to_string(), m(3))],
    ];
    assert_eq!(
        provers.lookup_values(&per),
        Ok(vec![("a".to_string(), m(1)), ("b".to_string(), m(5)), ("c".to_string(), m(3))])
    );
    assert_eq!(
        provers.lookup_values(&per[..1]),
        Err(ComponentsError::ComponentCountMismatch)
    );
}

#[test]
fn component_traces_succeed_on_exact_columns() {
    let a = component(3, vec![vec![1, 1]]);
    let b = component(3, vec![vec![1, 1, 1]]);
    let provers = ComponentProvers(vec![&a, &b]);
    let trees = vec![CommitmentTreeProver {
        polynomials: vec![0u32, 1, 2, 3, 4],
        evaluations: vec![5u32, 6, 7, 8, 9],
    }];
    let traces = provers.component_traces(&trees).unwrap();
    assert_eq!(traces[0].polys, vec![vec![&0, &1]]);
    assert_eq!(traces[1].evals, vec![vec![&7, &8, &9]]);
}
