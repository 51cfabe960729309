//! Rank-one constraints over the prime field: `a * b = c`, where each of the
//! three is a linear combination of variables.

use vstd::prelude::*;
use crate::types::{field_add, field_mul, spec_field_add, spec_field_mul, FIELD_MODULUS};

verus! {

/// One term of a linear combination: the value of a variable, scaled by a
/// coefficient. Both are residues; any representative will do.
#[derive(Clone, Copy, Debug, PartialEq, Eq, Structural)]
pub struct Term {
    pub coefficient: u64,
    pub value: u64,
}

/// A linear combination: a constant plus a sum of terms.
#[derive(Debug, PartialEq, Eq)]
pub struct LinearCombination {
    pub constant: u64,
    pub terms: Vec<Term>,
}

pub struct LinearCombinationView {
    pub constant: u64,
    pub terms: Seq<Term>,
}

impl View for LinearCombination {
    type V = LinearCombinationView;

    open spec fn view(&self) -> LinearCombinationView {
        LinearCombinationView { constant: self.constant, terms: self.terms@ }
    }
}

/// `sum`, plus the terms from `from` on, in the field.
pub open spec fn spec_sum_terms(terms: Seq<Term>, from: int, sum: u64) -> u64
    decreases terms.len() - from,
{
    if from < 0 || from >= terms.len() {
        sum
    } else {
        spec_sum_terms(
            terms,
            from + 1,
            spec_field_add(sum, spec_field_mul(terms[from].coefficient, terms[from].value)),
        )
    }
}

impl LinearCombinationView {
    /// The value of the combination: the least residue of the constant plus
    /// the sum of the terms.
    pub open spec fn value(self) -> u64 {
        spec_sum_terms(self.terms, 0, spec_field_add(self.constant, 0))
    }

    /// The number of additions that evaluating the combination takes: one
    /// between any two summands, where the constant is a summand unless it is
    /// zero in the field.
    pub open spec fn num_additions(self) -> nat {
        if self.constant % FIELD_MODULUS != 0 && self.terms.len() > 0 {
            self.terms.len()
        } else if self.terms.len() > 0 {
            (self.terms.len() - 1) as nat
        } else {
            0
        }
    }
}

impl LinearCombination {
    /// The value of the combination.
    pub fn value(&self) -> (v: u64)
        ensures
            v == self@.value(),
            v < FIELD_MODULUS,
    {
        let mut sum: u64 = field_add(self.constant, 0);
        let mut i: usize = 0;
        while i < self.terms.len()
            invariant
                i <= self.terms.len(),
                sum < FIELD_MODULUS,
                self@.value() == spec_sum_terms(self.terms@, i as int, sum),
            decreases self.terms.len() - i,
        {
            sum = field_add(sum, field_mul(self.terms[i].coefficient, self.terms[i].value));
            i += 1;
        }
        sum
    }

    /// The number of additions that evaluating the combination takes.
    pub fn num_additions(&self) -> (n: u64)
        ensures
            n == self@.num_additions(),
    {
        let terms = self.terms.len() as u64;
        if self.constant % FIELD_MODULUS != 0 && terms > 0 {
            terms
        } else if terms > 0 {
            terms - 1
        } else {
            0
        }
    }
}

/// A constraint `a * b = c`, named by the scope in which it was made.
#[derive(Debug, PartialEq, Eq)]
pub struct Constraint {
    pub scope: String,
    pub a: LinearCombination,
    pub b: LinearCombination,
    pub c: LinearCombination,
}

pub struct ConstraintView {
    pub scope: Seq<char>,
    pub a: LinearCombinationView,
    pub b: LinearCombinationView,
    pub c: LinearCombinationView,
}

impl View for Constraint {
    type V = ConstraintView;

    open spec fn view(&self) -> ConstraintView {
        ConstraintView { scope: self.scope@, a: self.a@, b: self.b@, c: self.c@ }
    }
}

impl ConstraintView {
    /// The number of gates that the constraint takes: one for the product, and
    /// one for each addition in its three combinations.
    pub open spec fn num_gates(self) -> nat {
        1 + self.a.num_additions() + self.b.num_additions() + self.c.num_additions()
    }

    /// The product of the values of `a` and `b` is the value of `c`.
    pub open spec fn is_satisfied(self) -> bool {
        spec_field_mul(self.a.value(), self.b.value()) == self.c.value()
    }
}

impl Constraint {
    /// The number of gates that the constraint takes.
    pub fn num_gates(&self) -> (n: u64)
        requires
            self@.num_gates() <= u64::MAX,
        ensures
            n == self@.num_gates(),
    {
        let (a, b, c) = (&self.a, &self.b, &self.c);
        1 + a.num_additions() + b.num_additions() + c.num_additions()
    }

    /// Whether the constraint is satisfied.
    pub fn is_satisfied(&self) -> (b: bool)
        ensures
            b == self@.is_satisfied(),
    {
        let a = self.a.value();
        let b = self.b.value();
        let c = self.c.value();
        field_mul(a, b) == c
    }

    /// The terms `(a, b, c)`.
    pub fn to_terms(&self) -> (terms: (&LinearCombination, &LinearCombination, &LinearCombination))
        ensures
            terms.0@ == self@.a,
            terms.1@ == self@.b,
            terms.2@ == self@.c,
    {
        (&self.a, &self.b, &self.c)
    }
}

} // verus!
