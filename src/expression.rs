use vstd::prelude::*;

verus! {

/// A propositional formula over named variables.
///
/// Every node owns its children; rewrites consume a tree and build a new one.
#[derive(Debug)]
pub enum Expression {
    Var(String),
    Not(Box<Expression>),
    Or(Box<Expression>, Box<Expression>),
    And(Box<Expression>, Box<Expression>),
    Xor(Box<Expression>, Box<Expression>),
    True,
    False,
}

impl Expression {
    /// Number of nodes of the tree.
    pub open spec fn node_count(self) -> nat
        decreases self,
    {
        match self {
            Expression::Not(a) => 1 + a.node_count(),
            Expression::Or(l, r) => 1 + l.node_count() + r.node_count(),
            Expression::And(l, r) => 1 + l.node_count() + r.node_count(),
            Expression::Xor(l, r) => 1 + l.node_count() + r.node_count(),
            _ => 1,
        }
    }

    /// Structural equality in which `And` and `Or` compare their operands in
    /// either order; every other node compares position by position.
    pub open spec fn equiv(self, other: Expression) -> bool
        decreases self,
    {
        match self {
            Expression::Var(a) => match other {
                Expression::Var(b) => a@ == b@,
                _ => false,
            },
            Expression::Not(a) => match other {
                Expression::Not(b) => a.equiv(*b),
                _ => false,
            },
            Expression::Or(a, b) => match other {
                Expression::Or(c, d) => (a.equiv(*c) && b.equiv(*d)) || (a.equiv(*d)
                    && b.equiv(*c)),
                _ => false,
            },
            Expression::And(a, b) => match other {
                Expression::And(c, d) => (a.equiv(*c) && b.equiv(*d)) || (a.equiv(*d)
                    && b.equiv(*c)),
                _ => false,
            },
            Expression::Xor(a, b) => match other {
                Expression::Xor(c, d) => a.equiv(*c) && b.equiv(*d),
                _ => false,
            },
            Expression::True => other is True,
            Expression::False => other is False,
        }
    }

    /// Decides `equiv`.
    pub fn equivalent(&self, other: &Expression) -> (r: bool)
        ensures
            r == self.equiv(*other),
        decreases self,
    {
        match (self, other) {
            (Expression::Var(a), Expression::Var(b)) => a.eq(b),
            (Expression::Not(a), Expression::Not(b)) => a.equivalent(b),
            (Expression::Or(a, b), Expression::Or(c, d)) => (a.equivalent(c) && b.equivalent(d))
                || (a.equivalent(d) && b.equivalent(c)),
            (Expression::And(a, b), Expression::And(c, d)) => (a.equivalent(c) && b.equivalent(
                d,
            )) || (a.equivalent(d) && b.equivalent(c)),
            (Expression::Xor(a, b), Expression::Xor(c, d)) => a.equivalent(c) && b.equivalent(d),
            (Expression::True, Expression::True) => true,
            (Expression::False, Expression::False) => true,
            _ => false,
        }
    }

    /// A copy of the tree, equal to it node for node.
    fn duplicate(&self) -> (r: Expression)
        ensures
            r == *self,
        decreases self,
    {
        match self {
            Expression::Var(name) => Expression::Var(name.clone()),
            Expression::Not(a) => Expression::Not(Box::new(a.duplicate())),
            Expression::Or(l, r) => Expression::Or(Box::new(l.duplicate()), Box::new(r.duplicate())),
            Expression::And(l, r) => Expression::And(
                Box::new(l.duplicate()),
                Box::new(r.duplicate()),
            ),
            Expression::Xor(l, r) => Expression::Xor(
                Box::new(l.duplicate()),
                Box::new(r.duplicate()),
            ),
            Expression::True => Expression::True,
            Expression::False => Expression::False,
        }
    }
}

impl Expression {
    /// `n` is a negation whose operand equals `e`.
    pub open spec fn negates(n: Expression, e: Expression) -> bool {
        match n {
            Expression::Not(x) => x.equiv(e),
            _ => false,
        }
    }

    /// `o` is an `Or` with an operand equal to `e`.
    pub open spec fn or_with_operand(o: Expression, e: Expression) -> bool {
        match o {
            Expression::Or(a, b) => a.equiv(e) || b.equiv(e),
            _ => false,
        }
    }

    /// `o` is an `And` with an operand equal to `e`.
    pub open spec fn and_with_operand(o: Expression, e: Expression) -> bool {
        match o {
            Expression::And(a, b) => a.equiv(e) || b.equiv(e),
            _ => false,
        }
    }

    /// The conjunction of two formulas with the laws applied, first that
    /// applies: idempotence, identity, null, complement, absorption.
    pub open spec fn conjunction(left: Expression, right: Expression) -> Expression {
        if left.equiv(right) {
            left
        } else if right is True {
            left
        } else if left is True {
            right
        } else if right is False || left is False {
            Expression::False
        } else if Expression::negates(right, left) || Expression::negates(left, right) {
            Expression::False
        } else if Expression::or_with_operand(left, right) {
            right
        } else if Expression::or_with_operand(right, left) {
            left
        } else {
            Expression::And(Box::new(left), Box::new(right))
        }
    }

    /// The disjunction of two formulas with the laws applied, first that
    /// applies: idempotence, identity, null, complement, absorption.
    pub open spec fn disjunction(left: Expression, right: Expression) -> Expression {
        if left.equiv(right) {
            left
        } else if right is False {
            left
        } else if left is False {
            right
        } else if right is True || left is True {
            Expression::True
        } else if Expression::negates(right, left) || Expression::negates(left, right) {
            Expression::True
        } else if Expression::and_with_operand(left, right) {
            right
        } else if Expression::and_with_operand(right, left) {
            left
        } else {
            Expression::Or(Box::new(left), Box::new(right))
        }
    }

    /// Negation with the algebra applied: constants flip, a double negation
    /// cancels, and a negated `And` or `Or` becomes the dual connective over
    /// the negated operands.
    pub open spec fn negation(self) -> Expression
        decreases self,
    {
        match self {
            Expression::True => Expression::False,
            Expression::False => Expression::True,
            Expression::Not(a) => *a,
            Expression::And(l, r) => Expression::disjunction(l.negation(), r.negation()),
            Expression::Or(l, r) => Expression::conjunction(l.negation(), r.negation()),
            _ => Expression::Not(Box::new(self)),
        }
    }

    /// Negation that only flips constants and cancels a double negation.
    pub open spec fn plain_negation(self) -> Expression {
        match self {
            Expression::True => Expression::False,
            Expression::False => Expression::True,
            Expression::Not(a) => *a,
            _ => Expression::Not(Box::new(self)),
        }
    }

    /// The tree rewritten bottom-up by the laws of `conjunction`,
    /// `disjunction` and `plain_negation`; `Xor` nodes are rebuilt as they are.
    pub open spec fn optimized(self) -> Expression
        decreases self,
    {
        match self {
            Expression::Not(a) => a.optimized().plain_negation(),
            Expression::And(l, r) => Expression::conjunction(l.optimized(), r.optimized()),
            Expression::Or(l, r) => Expression::disjunction(l.optimized(), r.optimized()),
            Expression::Xor(l, r) => Expression::Xor(
                Box::new(l.optimized()),
                Box::new(r.optimized()),
            ),
            _ => self,
        }
    }

    /// `l & r` written with `Not` and `Or` only: `¬(¬l | ¬r)`.
    pub open spec fn and_via_or(l: Expression, r: Expression) -> Expression {
        Expression::Not(
            Box::new(
                Expression::Or(
                    Box::new(Expression::Not(Box::new(l))),
                    Box::new(Expression::Not(Box::new(r))),
                ),
            ),
        )
    }

    /// The tree with every `And` and `Xor` expressed through `Not` and `Or`:
    /// `l ^ r` becomes `(l & ¬r) | (¬l & r)`, each `And` then rewritten.
    pub open spec fn simplified(self) -> Expression
        decreases self,
    {
        match self {
            Expression::Not(a) => Expression::Not(Box::new(a.simplified())),
            Expression::Or(l, r) => Expression::Or(
                Box::new(l.simplified()),
                Box::new(r.simplified()),
            ),
            Expression::And(l, r) => Expression::and_via_or(l.simplified(), r.simplified()),
            Expression::Xor(l, r) => Expression::Or(
                Box::new(
                    Expression::and_via_or(
                        l.simplified(),
                        Expression::Not(Box::new(r.simplified())),
                    ),
                ),
                Box::new(
                    Expression::and_via_or(
                        Expression::Not(Box::new(l.simplified())),
                        r.simplified(),
                    ),
                ),
            ),
            _ => self,
        }
    }

    /// A negated `And` or `Or` turned into the dual connective over negated
    /// operands; any other formula is wrapped in `Not`.
    pub open spec fn negated_connective(e: Expression) -> Expression {
        match e {
            Expression::And(l, r) => Expression::Or(
                Box::new(Expression::Not(l)),
                Box::new(Expression::Not(r)),
            ),
            Expression::Or(l, r) => Expression::And(
                Box::new(Expression::Not(l)),
                Box::new(Expression::Not(r)),
            ),
            _ => Expression::Not(Box::new(e)),
        }
    }

    /// The tree with De Morgan's laws applied to each negation, after its
    /// operand has been rewritten.
    pub open spec fn de_morganed(self) -> Expression
        decreases self,
    {
        match self {
            Expression::Not(a) => Expression::negated_connective(a.de_morganed()),
            Expression::Or(l, r) => Expression::Or(
                Box::new(l.de_morganed()),
                Box::new(r.de_morganed()),
            ),
            Expression::And(l, r) => Expression::And(
                Box::new(l.de_morganed()),
                Box::new(r.de_morganed()),
            ),
            Expression::Xor(l, r) => Expression::Xor(
                Box::new(l.de_morganed()),
                Box::new(r.de_morganed()),
            ),
            _ => self,
        }
    }

    /// The formulas of `s` joined by `And`, folded from the left.
    pub open spec fn conjoined(s: Seq<Expression>) -> Expression
        decreases s.len(),
    {
        if s.len() <= 1 {
            s[0]
        } else {
            Expression::And(
                Box::new(Expression::conjoined(s.drop_last())),
                Box::new(s.last()),
            )
        }
    }
}

impl Expression {
    fn check_negates(n: &Expression, e: &Expression) -> (r: bool)
        ensures
            r == Expression::negates(*n, *e),
    {
        match n {
            Expression::Not(x) => x.equivalent(e),
            _ => false,
        }
    }

    fn check_or_with_operand(o: &Expression, e: &Expression) -> (r: bool)
        ensures
            r == Expression::or_with_operand(*o, *e),
    {
        match o {
            Expression::Or(a, b) => a.equivalent(e) || b.equivalent(e),
            _ => false,
        }
    }

    fn check_and_with_operand(o: &Expression, e: &Expression) -> (r: bool)
        ensures
            r == Expression::and_with_operand(*o, *e),
    {
        match o {
            Expression::And(a, b) => a.equivalent(e) || b.equivalent(e),
            _ => false,
        }
    }

    /// Joins the formulas with `And`, folded from the left; `None` when there
    /// are none.
    pub fn from_expressions(expressions: Vec<Expression>) -> (r: Option<Expression>)
        ensures
            expressions@.len() == 0 ==> r is None,
            expressions@.len() > 0 ==> r == Some(Expression::conjoined(expressions@)),
    {
        if expressions.len() == 0 {
            return None;
        }
        let mut acc = expressions[0].clone();
        let mut i: usize = 1;
        while i < expressions.len()
            invariant
                1 <= i <= expressions@.len(),
                acc == Expression::conjoined(expressions@.subrange(0, i as int)),
            decreases expressions@.len() - i,
        {
            let next = expressions[i].clone();
            proof {
                let s = expressions@.subrange(0, i as int + 1);
                assert(s.drop_last() =~= expressions@.subrange(0, i as int));
            }
            acc = Expression::And(Box::new(acc), Box::new(next));
            i = i + 1;
        }
        proof {
            assert(expressions@.subrange(0, i as int) =~= expressions@);
        }
        Some(acc)
    }

    /// A variable with the given name.
    pub fn var(name: &str) -> (r: Expression)
        ensures
            r matches Expression::Var(n) && n@ == name@,
    {
        Expression::Var(name.to_owned())
    }

    /// The negation of `inner`, see `negation`.
    pub fn not(inner: Expression) -> (r: Expression)
        ensures
            r == inner.negation(),
        decreases inner,
    {
        match inner {
            Expression::True => Expression::False,
            Expression::False => Expression::True,
            Expression::Not(a) => *a,
            Expression::And(l, r) => Expression::or(Expression::not(*l), Expression::not(*r)),
            Expression::Or(l, r) => Expression::and(Expression::not(*l), Expression::not(*r)),
            inner => Expression::Not(Box::new(inner)),
        }
    }

    /// The conjunction of two formulas, see `conjunction`.
    pub fn and(left: Expression, right: Expression) -> (r: Expression)
        ensures
            r == Expression::conjunction(left, right),
    {
        if left.equivalent(&right) {
            left
        } else if matches!(right, Expression::True) {
            left
        } else if matches!(left, Expression::True) {
            right
        } else if matches!(right, Expression::False) || matches!(left, Expression::False) {
            Expression::False
        } else if Expression::check_negates(&right, &left) || Expression::check_negates(
            &left,
            &right,
        ) {
            Expression::False
        } else if Expression::check_or_with_operand(&left, &right) {
            right
        } else if Expression::check_or_with_operand(&right, &left) {
            left
        } else {
            Expression::And(Box::new(left), Box::new(right))
        }
    }

    /// The disjunction of two formulas, see `disjunction`.
    pub fn or(left: Expression, right: Expression) -> (r: Expression)
        ensures
            r == Expression::disjunction(left, right),
    {
        if left.equivalent(&right) {
            left
        } else if matches!(right, Expression::False) {
            left
        } else if matches!(left, Expression::False) {
            right
        } else if matches!(right, Expression::True) || matches!(left, Expression::True) {
            Expression::True
        } else if Expression::check_negates(&right, &left) || Expression::check_negates(
            &left,
            &right,
        ) {
            Expression::True
        } else if Expression::check_and_with_operand(&left, &right) {
            right
        } else if Expression::check_and_with_operand(&right, &left) {
            left
        } else {
            Expression::Or(Box::new(left), Box::new(right))
        }
    }

    /// An exclusive or of two formulas, built as it is.
    pub fn xor(left: Expression, right: Expression) -> (r: Expression)
        ensures
            r == Expression::Xor(Box::new(left), Box::new(right)),
    {
        Expression::Xor(Box::new(left), Box::new(right))
    }

    fn plain_not(e: Expression) -> (r: Expression)
        ensures
            r == e.plain_negation(),
    {
        match e {
            Expression::True => Expression::False,
            Expression::False => Expression::True,
            Expression::Not(a) => *a,
            e => Expression::Not(Box::new(e)),
        }
    }

    /// Rewrites the tree bottom-up by the laws of `and`, `or` and double
    /// negation, see `optimized`.
    pub fn optimize(self) -> (r: Expression)
        ensures
            r == self.optimized(),
        decreases self,
    {
        match self {
            Expression::Not(a) => Expression::plain_not(a.optimize()),
            Expression::And(l, r) => Expression::and(l.optimize(), r.optimize()),
            Expression::Or(l, r) => Expression::or(l.optimize(), r.optimize()),
            Expression::Xor(l, r) => Expression::Xor(Box::new(l.optimize()), Box::new(r.optimize())),
            e => e,
        }
    }

    fn build_and_via_or(l: Expression, r: Expression) -> (res: Expression)
        ensures
            res == Expression::and_via_or(l, r),
    {
        Expression::Not(
            Box::new(
                Expression::Or(
                    Box::new(Expression::Not(Box::new(l))),
                    Box::new(Expression::Not(Box::new(r))),
                ),
            ),
        )
    }

    /// Expresses every `And` and `Xor` through `Not` and `Or`, see `simplified`.
    pub fn simplify(self) -> (r: Expression)
        ensures
            r == self.simplified(),
        decreases self,
    {
        match self {
            Expression::Not(a) => Expression::Not(Box::new(a.simplify())),
            Expression::Or(l, r) => Expression::Or(Box::new(l.simplify()), Box::new(r.simplify())),
            Expression::And(l, r) => Expression::build_and_via_or(l.simplify(), r.simplify()),
            Expression::Xor(l, r) => {
                let left = l.simplify();
                let right = r.simplify();
                let first = Expression::build_and_via_or(
                    left.clone(),
                    Expression::Not(Box::new(right.clone())),
                );
                let second = Expression::build_and_via_or(Expression::Not(Box::new(left)), right);
                Expression::Or(Box::new(first), Box::new(second))
            },
            e => e,
        }
    }

    fn push_negation(e: Expression) -> (r: Expression)
        ensures
            r == Expression::negated_connective(e),
    {
        match e {
            Expression::And(l, r) => Expression::Or(
                Box::new(Expression::Not(l)),
                Box::new(Expression::Not(r)),
            ),
            Expression::Or(l, r) => Expression::And(
                Box::new(Expression::Not(l)),
                Box::new(Expression::Not(r)),
            ),
            e => Expression::Not(Box::new(e)),
        }
    }

    /// Applies De Morgan's laws to the negations of the tree, see `de_morganed`.
    pub fn de_morgan(self) -> (r: Expression)
        ensures
            r == self.de_morganed(),
        decreases self,
    {
        match self {
            Expression::Not(a) => Expression::push_negation(a.de_morgan()),
            Expression::Or(l, r) => Expression::Or(
                Box::new(l.de_morgan()),
                Box::new(r.de_morgan()),
            ),
            Expression::And(l, r) => Expression::And(
                Box::new(l.de_morgan()),
                Box::new(r.de_morgan()),
            ),
            Expression::Xor(l, r) => Expression::Xor(
                Box::new(l.de_morgan()),
                Box::new(r.de_morgan()),
            ),
            e => e,
        }
    }

    /// Optimizes, simplifies, and optimizes again.
    pub fn apply(self) -> (r: Expression)
        ensures
            r == self.optimized().simplified().optimized(),
    {
        self.optimize().simplify().optimize()
    }
}

impl Clone for Expression {
    fn clone(&self) -> (r: Expression)
        ensures
            r == *self,
    {
        self.duplicate()
    }
}

impl PartialEq for Expression {
    fn eq(&self, other: &Expression) -> (r: bool) {
        self.equivalent(other)
    }
}

impl vstd::std_specs::cmp::PartialEqSpecImpl for Expression {
    open spec fn obeys_eq_spec() -> bool {
        true
    }

    open spec fn eq_spec(&self, other: &Expression) -> bool {
        self.equiv(*other)
    }
}

} // verus!
