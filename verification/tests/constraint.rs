use synthesizer::constraint::{Constraint, LinearCombination, Term};
use synthesizer::types::FIELD_MODULUS;

const P: u64 = FIELD_MODULUS;

fn lc(constant: u64, terms: &[(u64, u64)]) -> LinearCombination {
    LinearCombination {
        constant,
        terms: terms.iter().map(|&(coefficient, value)| Term { coefficient, value }).collect(),
    }
}

fn constraint(a: LinearCombination, b: LinearCombination, c: LinearCombination) -> Constraint {
    Constraint { scope: String::from("main"), a, b, c }
}

#[test]
fn linear_combination_is_evaluated_in_the_field() {
    assert_eq!(lc(0, &[]).value(), 0);
    assert_eq!(lc(5, &[]).value(), 5);
    assert_eq!(lc(P, &[]).value(), 0);
    assert_eq!(lc(5, &[(2, 3), (4, 5)]).value(), 31);
    assert_eq!(lc(1, &[(P - 1, 1)]).value(), 0);
    assert_eq!(lc(0, &[(P - 1, P - 1)]).value(), 1);
    assert_eq!(lc(u64::MAX, &[(u64::MAX, u64::MAX)]).value(), 56);
}

#[test]
fn additions_are_counted_between_summands() {
    assert_eq!(lc(0, &[]).num_additions(), 0);
    assert_eq!(lc(5, &[]).num_additions(), 0);
    assert_eq!(lc(0, &[(1, 1)]).num_additions(), 0);
    assert_eq!(lc(5, &[(1, 1)]).num_additions(), 1);
    assert_eq!(lc(P, &[(1, 1)]).num_additions(), 0);
    assert_eq!(lc(0, &[(1, 1), (1, 1), (1, 1)]).num_additions(), 2);
    assert_eq!(lc(5, &[(1, 1), (1, 1), (1, 1)]).num_additions(), 3);
}

#[test]
fn gates_are_one_product_and_the_additions() {
    assert_eq!(constraint(lc(0, &[]), lc(0, &[]), lc(0, &[])).num_gates(), 1);
    assert_eq!(
        constraint(lc(1, &[(1, 1)]), lc(0, &[(1, 1), (1, 2)]), lc(3, &[(1, 1), (1, 2)])).num_gates(),
        1 + 1 + 1 + 2
    );
}

#[test]
fn constraint_is_satisfied_by_a_product() {
    assert!(constraint(lc(3, &[]), lc(4, &[]), lc(12, &[])).is_satisfied());
    assert!(!constraint(lc(3, &[]), lc(4, &[]), lc(13, &[])).is_satisfied());
    assert!(constraint(lc(0, &[(2, 3)]), lc(1, &[(1, 1)]), lc(0, &[(4, 3)])).is_satisfied());
    assert!(constraint(lc(P - 1, &[]), lc(P - 1, &[]), lc(1, &[])).is_satisfied());
    assert!(constraint(lc(P - 1, &[]), lc(2, &[]), lc(P - 2, &[])).is_satisfied());
    assert!(constraint(lc(0, &[]), lc(7, &[(1, 1)]), lc(P, &[])).is_satisfied());
    assert!(!constraint(lc(1, &[]), lc(1, &[]), lc(0, &[])).is_satisfied());
}

#[test]
fn terms_are_handed_out_in_order() {
    let constraint = constraint(lc(1, &[]), lc(2, &[]), lc(3, &[(1, 1)]));
    let (a, b, c) = constraint.to_terms();
    assert_eq!((a, b, c), (&lc(1, &[]), &lc(2, &[]), &lc(3, &[(1, 1)])));
}
