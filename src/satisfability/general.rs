use vstd::prelude::*;

use crate::expression::Expression;

verus! {

/// The value a formula is asked to take; `Any` asks for either value.
#[derive(Debug, Clone, Copy, PartialEq, Eq, Structural)]
pub enum Expectative {
    True,
    False,
    Any,
}

/// Whether `e` can take `value` when each occurrence of a variable is chosen
/// on its own. Occurrences of one variable are not held to one value, so
/// this over-approximates: `a & ¬a` is reported able to take `true`.
pub open spec fn can_take(e: Expression, value: bool) -> bool
    decreases e,
{
    match e {
        Expression::Var(_) => true,
        Expression::True => value,
        Expression::False => !value,
        Expression::Not(a) => can_take(*a, !value),
        Expression::And(l, r) => if value {
            can_take(*l, true) && can_take(*r, true)
        } else {
            can_take(*l, false) || can_take(*r, false)
        },
        Expression::Or(l, r) => if value {
            can_take(*l, true) || can_take(*r, true)
        } else {
            can_take(*l, false) && can_take(*r, false)
        },
        Expression::Xor(l, r) => if value {
            (can_take(*l, true) && can_take(*r, false)) || (can_take(*l, false) && can_take(
                *r,
                true,
            ))
        } else {
            (can_take(*l, true) && can_take(*r, true)) || (can_take(*l, false) && can_take(
                *r,
                false,
            ))
        },
    }
}

/// Whether `e` can meet the expectative, see `can_take`.
pub open spec fn can_meet(e: Expression, expectative: Expectative) -> bool {
    match expectative {
        Expectative::True => can_take(e, true),
        Expectative::False => can_take(e, false),
        Expectative::Any => can_take(e, true) || can_take(e, false),
    }
}

/// A quick check of whether a formula can take a value, which does not hold
/// the occurrences of one variable to one value.
pub struct GeneralSatisfability<'a> {
    expression: &'a Expression,
}

impl<'a> GeneralSatisfability<'a> {
    /// The formula that is checked.
    pub closed spec fn formula(&self) -> Expression {
        *self.expression
    }

    pub fn new(expression: &'a Expression) -> (r: GeneralSatisfability<'a>)
        ensures
            r.formula() == *expression,
    {
        GeneralSatisfability { expression }
    }

    fn satisfies_expression(&self, expression: &Expression, value: bool) -> (r: bool)
        ensures
            r == can_take(*expression, value),
        decreases expression,
    {
        match expression {
            Expression::Var(_) => true,
            Expression::True => value,
            Expression::False => !value,
            Expression::Not(inner) => self.satisfies_expression(inner, !value),
            Expression::And(left, right) => if value {
                self.satisfies_expression(left, true) && self.satisfies_expression(right, true)
            } else {
                self.satisfies_expression(left, false) || self.satisfies_expression(right, false)
            },
            Expression::Or(left, right) => if value {
                self.satisfies_expression(left, true) || self.satisfies_expression(right, true)
            } else {
                self.satisfies_expression(left, false) && self.satisfies_expression(right, false)
            },
            Expression::Xor(left, right) => {
                let left_true = self.satisfies_expression(left, true);
                let left_false = self.satisfies_expression(left, false);
                let right_true = self.satisfies_expression(right, true);
                let right_false = self.satisfies_expression(right, false);
                if value {
                    (left_true && right_false) || (left_false && right_true)
                } else {
                    (left_true && right_true) || (left_false && right_false)
                }
            },
        }
    }

    /// Whether the formula can meet the expectative, see `can_meet`.
    pub fn satisfies(&self, expectative: Expectative) -> (r: bool)
        ensures
            r == can_meet(self.formula(), expectative),
    {
        match expectative {
            Expectative::True => self.satisfies_expression(self.expression, true),
            Expectative::False => self.satisfies_expression(self.expression, false),
            Expectative::Any => self.satisfies_expression(self.expression, true)
                || self.satisfies_expression(self.expression, false),
        }
    }
}

impl<'a> Expression {
    /// The quick satisfiability check over this formula.
    pub fn general_satisfability(&'a self) -> (r: GeneralSatisfability<'a>)
        ensures
            r.formula() == *self,
    {
        GeneralSatisfability::new(self)
    }
}

} // verus!
