use vstd::prelude::*;

use crate::expression::Expression;

verus! {

/// Variable bindings under which a formula takes a given value.
///
/// `All` holds when both sides hold, `Any` when at least one does; `Always`
/// holds under every binding and `Never` under none.
#[derive(Debug)]
pub enum Requirement {
    Var(String, bool),
    All(Box<Requirement>, Box<Requirement>),
    Any(Box<Requirement>, Box<Requirement>),
    Always,
    Never,
}

impl Requirement {
    /// Number of nodes of the tree.
    pub open spec fn node_count(self) -> nat
        decreases self,
    {
        match self {
            Requirement::All(l, r) => 1 + l.node_count() + r.node_count(),
            Requirement::Any(l, r) => 1 + l.node_count() + r.node_count(),
            _ => 1,
        }
    }

    /// Structural equality in which `All` and `Any` compare their operands in
    /// either order.
    pub open spec fn equiv(self, other: Requirement) -> bool
        decreases self,
    {
        match self {
            Requirement::Var(n, v) => match other {
                Requirement::Var(m, w) => n@ == m@ && v == w,
                _ => false,
            },
            Requirement::All(a, b) => match other {
                Requirement::All(c, d) => (a.equiv(*c) && b.equiv(*d)) || (a.equiv(*d)
                    && b.equiv(*c)),
                _ => false,
            },
            Requirement::Any(a, b) => match other {
                Requirement::Any(c, d) => (a.equiv(*c) && b.equiv(*d)) || (a.equiv(*d)
                    && b.equiv(*c)),
                _ => false,
            },
            Requirement::Always => other is Always,
            Requirement::Never => other is Never,
        }
    }

    /// Both are bindings of one name to opposite values.
    pub open spec fn opposed(left: Requirement, right: Requirement) -> bool {
        match left {
            Requirement::Var(n, v) => match right {
                Requirement::Var(m, w) => n@ == m@ && v != w,
                _ => false,
            },
            _ => false,
        }
    }

    /// Both sides must hold, with the laws applied, first that applies:
    /// idempotence, null (`Never`), contradiction of opposite bindings, and
    /// distribution over an `Any` on the right, then on the left.
    pub open spec fn all_of(left: Requirement, right: Requirement) -> Requirement
        decreases left.node_count() + right.node_count(),
    {
        if left.equiv(right) {
            left
        } else if left is Never || right is Never {
            Requirement::Never
        } else if Requirement::opposed(left, right) {
            Requirement::Never
        } else {
            match right {
                Requirement::Any(a, b) => Requirement::any_of(
                    Requirement::all_of(left, *a),
                    Requirement::all_of(left, *b),
                ),
                _ => match left {
                    Requirement::Any(a, b) => Requirement::any_of(
                        Requirement::all_of(*a, right),
                        Requirement::all_of(*b, right),
                    ),
                    _ => Requirement::All(Box::new(left), Box::new(right)),
                },
            }
        }
    }

    /// At least one side must hold, with the laws applied, first that applies:
    /// idempotence, null and identity (`Never`), tautology of opposite
    /// bindings.
    pub open spec fn any_of(left: Requirement, right: Requirement) -> Requirement {
        if left.equiv(right) {
            left
        } else if left is Never && right is Never {
            Requirement::Never
        } else if left is Never {
            right
        } else if right is Never {
            left
        } else if Requirement::opposed(left, right) {
            Requirement::Always
        } else {
            Requirement::Any(Box::new(left), Box::new(right))
        }
    }

    /// The tree rebuilt bottom-up through `all_of` and `any_of`.
    pub open spec fn optimized(self) -> Requirement
        decreases self,
    {
        match self {
            Requirement::All(l, r) => Requirement::all_of(l.optimized(), r.optimized()),
            Requirement::Any(l, r) => Requirement::any_of(l.optimized(), r.optimized()),
            _ => self,
        }
    }

    /// The text of the tree: the alternatives of an `Any` on separate lines,
    /// the parts of an `All` joined by a comma.
    pub open spec fn rendered(self) -> Seq<char>
        decreases self,
    {
        match self {
            Requirement::Any(l, r) => l.rendered() + "\n"@ + r.rendered(),
            Requirement::All(l, r) => l.rendered() + ", "@ + r.rendered(),
            Requirement::Var(n, v) => n@ + " -> "@ + if v {
                "true"@
            } else {
                "false"@
            },
            Requirement::Always => "always"@,
            Requirement::Never => "never"@,
        }
    }

    /// Decides `equiv`.
    pub fn equivalent(&self, other: &Requirement) -> (r: bool)
        ensures
            r == self.equiv(*other),
        decreases self,
    {
        match (self, other) {
            (Requirement::Var(n, v), Requirement::Var(m, w)) => n.eq(m) && *v == *w,
            (Requirement::All(a, b), Requirement::All(c, d)) => (a.equivalent(c) && b.equivalent(
                d,
            )) || (a.equivalent(d) && b.equivalent(c)),
            (Requirement::Any(a, b), Requirement::Any(c, d)) => (a.equivalent(c) && b.equivalent(
                d,
            )) || (a.equivalent(d) && b.equivalent(c)),
            (Requirement::Always, Requirement::Always) => true,
            (Requirement::Never, Requirement::Never) => true,
            _ => false,
        }
    }

    fn duplicate(&self) -> (r: Requirement)
        ensures
            r == *self,
        decreases self,
    {
        match self {
            Requirement::Var(n, v) => Requirement::Var(n.clone(), *v),
            Requirement::All(l, r) => Requirement::All(
                Box::new(l.duplicate()),
                Box::new(r.duplicate()),
            ),
            Requirement::Any(l, r) => Requirement::Any(
                Box::new(l.duplicate()),
                Box::new(r.duplicate()),
            ),
            Requirement::Always => Requirement::Always,
            Requirement::Never => Requirement::Never,
        }
    }

    fn check_opposed(left: &Requirement, right: &Requirement) -> (r: bool)
        ensures
            r == Requirement::opposed(*left, *right),
    {
        match (left, right) {
            (Requirement::Var(n, v), Requirement::Var(m, w)) => n.eq(m) && *v != *w,
            _ => false,
        }
    }

    /// Both sides must hold, see `all_of`.
    pub fn all(left: Requirement, right: Requirement) -> (r: Requirement)
        ensures
            r == Requirement::all_of(left, right),
        decreases left.node_count() + right.node_count(),
    {
        if left.equivalent(&right) {
            return left;
        }
        if matches!(left, Requirement::Never) || matches!(right, Requirement::Never) {
            return Requirement::Never;
        }
        if Requirement::check_opposed(&left, &right) {
            return Requirement::Never;
        }
        match right {
            Requirement::Any(a, b) => Requirement::any(
                Requirement::all(left.clone(), *a),
                Requirement::all(left, *b),
            ),
            right => match left {
                Requirement::Any(a, b) => Requirement::any(
                    Requirement::all(*a, right.clone()),
                    Requirement::all(*b, right),
                ),
                left => Requirement::All(Box::new(left), Box::new(right)),
            },
        }
    }

    /// At least one side must hold, see `any_of`.
    pub fn any(left: Requirement, right: Requirement) -> (r: Requirement)
        ensures
            r == Requirement::any_of(left, right),
    {
        if left.equivalent(&right) {
            left
        } else if matches!(left, Requirement::Never) && matches!(right, Requirement::Never) {
            Requirement::Never
        } else if matches!(left, Requirement::Never) {
            right
        } else if matches!(right, Requirement::Never) {
            left
        } else if Requirement::check_opposed(&left, &right) {
            Requirement::Always
        } else {
            Requirement::Any(Box::new(left), Box::new(right))
        }
    }

    /// Applies the laws of `all` and `any` bottom-up, see `optimized`.
    pub fn optimize(self) -> (r: Requirement)
        ensures
            r == self.optimized(),
        decreases self,
    {
        match self {
            Requirement::All(l, r) => Requirement::all(l.optimize(), r.optimize()),
            Requirement::Any(l, r) => Requirement::any(l.optimize(), r.optimize()),
            other => other,
        }
    }

    fn render_into(&self, out: &mut String)
        ensures
            final(out)@ == old(out)@ + self.rendered(),
        decreases self,
    {
        match self {
            Requirement::Any(l, r) => {
                l.render_into(out);
                out.append("\n");
                r.render_into(out);
            },
            Requirement::All(l, r) => {
                l.render_into(out);
                out.append(", ");
                r.render_into(out);
            },
            Requirement::Var(n, v) => {
                out.append(n.as_str());
                out.append(" -> ");
                if *v {
                    out.append("true");
                } else {
                    out.append("false");
                }
            },
            Requirement::Always => out.append("always"),
            Requirement::Never => out.append("never"),
        }
    }

    /// The text of the requirement, see `rendered`.
    pub fn format(&self) -> (r: String)
        ensures
            r@ == self.rendered(),
    {
        let mut out = String::new();
        self.render_into(&mut out);
        out
    }
}

impl Clone for Requirement {
    fn clone(&self) -> (r: Requirement)
        ensures
            r == *self,
    {
        self.duplicate()
    }
}

impl PartialEq for Requirement {
    fn eq(&self, other: &Requirement) -> (r: bool) {
        self.equivalent(other)
    }
}

impl vstd::std_specs::cmp::PartialEqSpecImpl for Requirement {
    open spec fn obeys_eq_spec() -> bool {
        true
    }

    open spec fn eq_spec(&self, other: &Requirement) -> bool {
        self.equiv(*other)
    }
}

/// The requirement under which `e` evaluates to `expectative`.
pub open spec fn requirement_for(e: Expression, expectative: bool) -> Requirement
    decreases e,
{
    match e {
        Expression::Var(n) => Requirement::Var(n, expectative),
        Expression::Not(a) => requirement_for(*a, !expectative),
        Expression::Or(l, r) => {
            let left = requirement_for(*l, expectative);
            let right = requirement_for(*r, expectative);
            if expectative {
                Requirement::any_of(left, right)
            } else {
                Requirement::all_of(left, right)
            }
        },
        Expression::And(l, r) => {
            let left = requirement_for(*l, expectative);
            let right = requirement_for(*r, expectative);
            if expectative {
                Requirement::all_of(left, right)
            } else {
                Requirement::any_of(left, right)
            }
        },
        Expression::Xor(l, r) => {
            let left_true = requirement_for(*l, true);
            let left_false = requirement_for(*l, false);
            let right_true = requirement_for(*r, true);
            let right_false = requirement_for(*r, false);
            if expectative {
                Requirement::any_of(
                    Requirement::all_of(left_true, right_false),
                    Requirement::all_of(left_false, right_true),
                )
            } else {
                Requirement::any_of(
                    Requirement::all_of(left_true, right_true),
                    Requirement::all_of(left_false, right_false),
                )
            }
        },
        Expression::True => if expectative {
            Requirement::Always
        } else {
            Requirement::Never
        },
        Expression::False => if expectative {
            Requirement::Never
        } else {
            Requirement::Always
        },
    }
}

/// Derives, for a formula, the requirements under which it takes a value.
pub struct DynamicSatisfability<'a> {
    took: usize,
    expression: &'a Expression,
}

impl<'a> DynamicSatisfability<'a> {
    /// The formula the requirements are derived for.
    pub closed spec fn formula(&self) -> Expression {
        *self.expression
    }

    /// The count reported by `took`.
    pub closed spec fn took_count(&self) -> usize {
        self.took
    }

    pub fn new(expression: &'a Expression) -> (r: DynamicSatisfability<'a>)
        ensures
            r.formula() == *expression,
            r.took_count() == 0,
    {
        DynamicSatisfability { expression, took: 0 }
    }

    fn satisfies_expression(&self, expression: &Expression, expectative: bool) -> (r: Requirement)
        ensures
            r == requirement_for(*expression, expectative),
        decreases expression,
    {
        match expression {
            Expression::Var(name) => Requirement::Var(name.clone(), expectative),
            Expression::Not(inner) => self.satisfies_expression(inner, !expectative),
            Expression::Or(left, right) => {
                let left_requirement = self.satisfies_expression(left, expectative);
                let right_requirement = self.satisfies_expression(right, expectative);
                if expectative {
                    Requirement::any(left_requirement, right_requirement)
                } else {
                    Requirement::all(left_requirement, right_requirement)
                }
            },
            Expression::And(left, right) => {
                let left_requirement = self.satisfies_expression(left, expectative);
                let right_requirement = self.satisfies_expression(right, expectative);
                if expectative {
                    Requirement::all(left_requirement, right_requirement)
                } else {
                    Requirement::any(left_requirement, right_requirement)
                }
            },
            Expression::Xor(left, right) => {
                let left_true = self.satisfies_expression(left, true);
                let left_false = self.satisfies_expression(left, false);
                let right_true = self.satisfies_expression(right, true);
                let right_false = self.satisfies_expression(right, false);
                if expectative {
                    Requirement::any(
                        Requirement::all(left_true, right_false),
                        Requirement::all(left_false, right_true),
                    )
                } else {
                    Requirement::any(
                        Requirement::all(left_true, right_true),
                        Requirement::all(left_false, right_false),
                    )
                }
            },
            Expression::True => if expectative {
                Requirement::Always
            } else {
                Requirement::Never
            },
            Expression::False => if expectative {
                Requirement::Never
            } else {
                Requirement::Always
            },
        }
    }

    /// The requirement under which the formula evaluates to `expectative`.
    pub fn satisfies(&self, expectative: bool) -> (r: Requirement)
        ensures
            r == requirement_for(self.formula(), expectative),
    {
        self.satisfies_expression(self.expression, expectative)
    }

    pub fn took(&self) -> (r: usize)
        ensures
            r == self.took_count(),
    {
        self.took
    }
}

} // verus!
