use stwo_prover::fields::{M31, QM31};
use stwo_prover::relation::{
    batch_fraction, Fraction, LogupAtRow, LogupError, LogupPhase, LookupElements, NamedRelation,
    Relation, RelationEntry,
};

const P: u32 = 2147483647;

#[test]
fn combine_is_the_affine_combination() {
    let rel: NamedRelation<2> = NamedRelation::dummy("Pair");
    // alpha^0 * 3 + alpha^1 * 0 - z = 3 - (1 + 2i + 3u + 4iu)
    let v = [QM31::from_base(M31::from_u32_unchecked(3)), QM31::zero()];
    assert_eq!(
        rel.combine(&v),
        QM31::from_u32_unchecked(2, P - 2, P - 3, P - 4)
    );
    // alpha * 1 - z, alpha = 5 + 6i + 7u + 8iu
    let w = [QM31::zero(), QM31::one()];
    assert_eq!(rel.combine(&w), QM31::from_u32_unchecked(4, 4, 4, 4));
    assert_eq!(rel.get_name(), "Pair");
}

#[test]
fn combine_uses_every_value_of_a_full_tuple() {
    let rel: NamedRelation<3> = NamedRelation::dummy("Triple");
    let e: LookupElements<3> = LookupElements::dummy();
    let v = [QM31::one(), QM31::one(), QM31::one()];
    let expected = QM31::one().add(e.alpha).add(e.alpha.mul(e.alpha)).sub(e.z);
    assert_eq!(rel.combine(&v), expected);
}

#[test]
fn dummy_relations_are_reproducible() {
    let a: NamedRelation<3> = NamedRelation::dummy("A");
    let b: NamedRelation<3> = NamedRelation::dummy("A");
    let v = [QM31::one(), QM31::from_u32_unchecked(7, 0, 0, 0), QM31::from_u32_unchecked(0, 1, 2, 3)];
    assert_eq!(a.combine(&v), b.combine(&v));
    let e: LookupElements<3> = LookupElements::dummy();
    assert_eq!(e.alpha_powers[0], QM31::one());
    assert_eq!(e.alpha_powers[2], e.alpha.mul(e.alpha));
}

#[test]
fn different_challenges_combine_differently() {
    let a: NamedRelation<2> = NamedRelation::from_challenges("A", QM31::from_u32_unchecked(1, 0, 0, 0), QM31::from_u32_unchecked(2, 0, 0, 0));
    let b: NamedRelation<2> = NamedRelation::from_challenges("A", QM31::from_u32_unchecked(3, 0, 0, 0), QM31::from_u32_unchecked(4, 0, 0, 0));
    // 1 + 2 * 2 - 1 = 4 and 1 + 4 * 2 - 3 = 6
    let v = [QM31::one(), QM31::from_u32_unchecked(2, 0, 0, 0)];
    assert_eq!(a.combine(&v), QM31::from_u32_unchecked(4, 0, 0, 0));
    assert_eq!(b.combine(&v), QM31::from_u32_unchecked(6, 0, 0, 0));
}

#[test]
fn batch_equals_the_sum_of_single_fractions() {
    let rel: NamedRelation<2> = NamedRelation::dummy("Pair");
    let v1 = [QM31::one(), QM31::from_u32_unchecked(2, 0, 0, 0)];
    let v2 = [QM31::from_u32_unchecked(5, 0, 0, 0), QM31::zero()];
    let v3 = [QM31::zero(), QM31::from_u32_unchecked(0, 0, 0, 1)];
    let m1 = QM31::one();
    let m2 = QM31::one().neg();
    let m3 = QM31::from_u32_unchecked(3, 0, 0, 0);
    let entries = [
        RelationEntry::new(&rel, m1, &v1),
        RelationEntry::new(&rel, m2, &v2),
        RelationEntry::new(&rel, m3, &v3),
    ];
    let batched = batch_fraction(&entries);
    let f1 = Fraction::new(m1, rel.combine(&v1));
    let f2 = Fraction::new(m2, rel.combine(&v2));
    let f3 = Fraction::new(m3, rel.combine(&v3));
    assert_eq!(batched, f1.add(f2).add(f3));
    // As field elements: n/d equals the sum of m_i / c_i.
    let direct = m1
        .div(rel.combine(&v1))
        .add(m2.div(rel.combine(&v2)))
        .add(m3.div(rel.combine(&v3)));
    assert_eq!(batched.numerator.div(batched.denominator), direct);
    let single = batch_fraction(&entries[..1]);
    assert_eq!(single, f1);
    let none: [RelationEntry<NamedRelation<2>>; 0] = [];
    assert_eq!(batch_fraction(&none), Fraction::new(QM31::zero(), QM31::one()));
}

#[test]
fn logup_lifecycle() {
    let mut logup = LogupAtRow::new();
    let f = Fraction::new(QM31::one(), QM31::from_u32_unchecked(3, 0, 0, 0));
    assert_eq!(logup.write_frac(f), Err(LogupError::NotInitialized));
    assert!(matches!(logup.finalize_logup(), Err(LogupError::NotInitialized)));
    assert_eq!(logup.init_logup(QM31::zero(), None, 4), Ok(()));
    assert_eq!(logup.init_logup(QM31::zero(), None, 4), Err(LogupError::AlreadyInitialized));
    assert_eq!(logup.write_frac(f), Ok(()));
    assert_eq!(logup.write_frac(f), Ok(()));
    let total = logup.finalize_logup().unwrap();
    assert_eq!(total, f.add(f));
    assert_eq!(logup.phase, LogupPhase::Finalized);
    assert!(matches!(logup.finalize_logup(), Err(LogupError::NotInitialized)));
    assert_eq!(logup.write_frac(f), Err(LogupError::NotInitialized));
    assert_eq!(logup.init_logup(QM31::one(), Some((QM31::one(), 3)), 5), Ok(()));
    assert_eq!(logup.fracs.len(), 0);
}

#[test]
fn add_to_relation_writes_one_batched_fraction() {
    let rel: NamedRelation<2> = NamedRelation::dummy("Pair");
    let v1 = [QM31::one(), QM31::one()];
    let v2 = [QM31::zero(), QM31::one()];
    let entries = [
        RelationEntry::new(&rel, QM31::one(), &v1),
        RelationEntry::new(&rel, QM31::one().neg(), &v2),
    ];
    let mut logup = LogupAtRow::new();
    assert_eq!(logup.add_to_relation(&entries), Err(LogupError::NotInitialized));
    logup.init_logup(QM31::zero(), None, 3).unwrap();
    assert_eq!(logup.add_to_relation(&entries), Ok(()));
    assert_eq!(logup.fracs.len(), 1);
    assert_eq!(logup.fracs[0], batch_fraction(&entries));
}
