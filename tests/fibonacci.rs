use stwo_prover::circle::CirclePoint;
use stwo_prover::constraints::{EvalByEvaluation, EvalByPoly};
use stwo_prover::fibonacci::{Fibonacci, MaskItem};
use stwo_prover::fields::{M31, QM31};
use stwo_prover::poly::CircleEvaluation;

#[test]
fn test_constraint_on_trace() {
    let fib = Fibonacci::new(5, M31::from_u32_unchecked(443693538));
    let trace = fib.get_trace();

    // The step constraint holds on every row but the last two.
    for p_ind in fib
        .constraint_coset
        .iter_indices()
        .into_iter()
        .take(fib.constraint_coset.size() - 2)
    {
        let res = fib.eval_step_constraint(EvalByEvaluation {
            offset: p_ind,
            eval: &trace,
        });
        assert_eq!(res, QM31::zero());
    }

    // The first trace value is 1.
    assert_eq!(
        fib.eval_boundary_constraint(
            EvalByEvaluation {
                offset: fib.constraint_coset.index_at(0),
                eval: &trace,
            },
            M31::one()
        ),
        QM31::zero()
    );

    // The last trace value is the claim.
    assert_eq!(
        fib.eval_boundary_constraint(
            EvalByEvaluation {
                offset: fib
                    .constraint_coset
                    .index_at(fib.constraint_coset.size() - 1),
                eval: &trace,
            },
            fib.claim
        ),
        QM31::zero()
    );
}

#[test]
fn test_quotient_is_low_degree() {
    let fib = Fibonacci::new(5, M31::from_u32_unchecked(443693538));
    let trace = fib.get_trace();
    let trace_poly = trace.interpolate();

    let extended_evaluation = trace_poly.clone().evaluate(fib.eval_domain);

    let random_coeff = QM31::from_u32_unchecked(2213980, 2213981, 2213982, 2213983);

    // Compute quotient on the evaluation domain.
    let mut quotient_values = Vec::with_capacity(fib.constraint_eval_domain.size());
    for p_ind in fib.constraint_eval_domain.iter_indices() {
        quotient_values.push(fib.eval_quotient(
            random_coeff,
            EvalByEvaluation {
                offset: p_ind,
                eval: &extended_evaluation,
            },
        ));
    }
    let quotient_eval = CircleEvaluation::new(fib.constraint_eval_domain, quotient_values);
    // The quotient is of low degree, so its interpolant agrees with it off the domain.
    let interpolated_quotient_poly = quotient_eval.interpolate();

    let oods_point = CirclePoint::get_point(98989892);
    let trace_evaluator = EvalByPoly {
        point: oods_point,
        poly: &trace_poly,
    };

    assert_eq!(
        interpolated_quotient_poly.eval_at_point(oods_point),
        fib.eval_quotient(random_coeff, trace_evaluator)
    );
}

#[test]
fn trace_starts_one_one_and_ends_at_claim() {
    let fib = Fibonacci::new(5, M31::from_u32_unchecked(443693538));
    let trace = fib.get_trace();
    // Domain order: even positions ascending, then odd positions descending.
    assert_eq!(trace.values[0], QM31::one());
    assert_eq!(trace.values[16], QM31::from_base(M31::from_u32_unchecked(443693538)));
    assert_eq!(trace.values[31], QM31::one());
    assert_eq!(trace.values[1], QM31::from_u32_unchecked(2, 0, 0, 0));
}

#[test]
fn quotient_is_not_low_degree_for_a_wrong_claim() {
    let fib = Fibonacci::new(5, M31::from_u32_unchecked(443693539));
    let trace = fib.get_trace();
    let trace_poly = trace.interpolate();
    let extended_evaluation = trace_poly.clone().evaluate(fib.eval_domain);
    let random_coeff = QM31::from_u32_unchecked(2213980, 2213981, 2213982, 2213983);
    let mut quotient_values = Vec::new();
    for p_ind in fib.constraint_eval_domain.iter_indices() {
        quotient_values.push(fib.eval_quotient(
            random_coeff,
            EvalByEvaluation { offset: p_ind, eval: &extended_evaluation },
        ));
    }
    let interpolated = CircleEvaluation::new(fib.constraint_eval_domain, quotient_values).interpolate();
    let oods_point = CirclePoint::get_point(98989892);
    assert_ne!(
        interpolated.eval_at_point(oods_point),
        fib.eval_quotient(random_coeff, EvalByPoly { point: oods_point, poly: &trace_poly })
    );
}

#[test]
fn mask_reads_three_consecutive_rows() {
    let fib = Fibonacci::new(5, M31::one());
    let mask = fib.get_mask();
    assert_eq!(
        mask.items,
        vec![
            MaskItem { column_index: 0, offset: 0 },
            MaskItem { column_index: 0, offset: 1 },
            MaskItem { column_index: 0, offset: 2 },
        ]
    );
}

#[test]
fn field_arithmetic_values() {
    let p_minus_one = M31::from_u32_unchecked(2147483646);
    assert_eq!(p_minus_one.add(M31::from_u32_unchecked(2)), M31::one());
    assert_eq!(M31::zero().sub(M31::one()), p_minus_one);
    assert_eq!(p_minus_one.mul(p_minus_one), M31::one());
    assert_eq!(M31::from_u32_unchecked(3).inverse().mul(M31::from_u32_unchecked(3)), M31::one());
    let x = QM31::from_u32_unchecked(1, 2, 3, 4);
    assert_eq!(x.mul(x.inverse()), QM31::one());
    // u^2 = 2 + i
    let u = QM31::from_u32_unchecked(0, 0, 1, 0);
    assert_eq!(u.mul(u), QM31::from_u32_unchecked(2, 1, 0, 0));
}

#[test]
fn circle_generator_has_order_two_to_the_31() {
    let g = stwo_prover::circle::circle_gen();
    assert_eq!(g.mul(1u128 << 31), CirclePoint::zero());
    assert_ne!(g.mul(1u128 << 30), CirclePoint::zero());
}
