use vstd::prelude::*;

use crate::expression::Expression;
use crate::satisfability::dynamic::{requirement_for, Requirement};
use crate::satisfability::general::can_take;

verus! {

impl Expression {
    /// The tree is in the shape that `optimize` produces: no law of
    /// `conjunction`, `disjunction` or `plain_negation` applies at any node.
    pub open spec fn is_optimized(self) -> bool
        decreases self,
    {
        match self {
            Expression::Not(a) => a.is_optimized() && !(*a is True || *a is False || *a is Not),
            Expression::And(l, r) => l.is_optimized() && r.is_optimized()
                && Expression::conjunction(*l, *r) == self,
            Expression::Or(l, r) => l.is_optimized() && r.is_optimized()
                && Expression::disjunction(*l, *r) == self,
            Expression::Xor(l, r) => l.is_optimized() && r.is_optimized(),
            _ => true,
        }
    }

    /// The tree holds no `And` and no `Xor` node.
    pub open spec fn is_not_or_form(self) -> bool
        decreases self,
    {
        match self {
            Expression::Not(a) => a.is_not_or_form(),
            Expression::Or(l, r) => l.is_not_or_form() && r.is_not_or_form(),
            Expression::And(_, _) => false,
            Expression::Xor(_, _) => false,
            _ => true,
        }
    }
}

/// Every formula equals itself.
pub proof fn lemma_equiv_reflexive(e: Expression)
    ensures
        e.equiv(e),
    decreases e,
{
    match e {
        Expression::Not(a) => lemma_equiv_reflexive(*a),
        Expression::Or(l, r) => {
            lemma_equiv_reflexive(*l);
            lemma_equiv_reflexive(*r);
        },
        Expression::And(l, r) => {
            lemma_equiv_reflexive(*l);
            lemma_equiv_reflexive(*r);
        },
        Expression::Xor(l, r) => {
            lemma_equiv_reflexive(*l);
            lemma_equiv_reflexive(*r);
        },
        _ => {},
    }
}

/// Equal formulas have the same number of nodes.
pub proof fn lemma_equiv_node_count(a: Expression, b: Expression)
    requires
        a.equiv(b),
    ensures
        a.node_count() == b.node_count(),
    decreases a,
{
    match a {
        Expression::Not(x) => match b {
            Expression::Not(y) => lemma_equiv_node_count(*x, *y),
            _ => {},
        },
        Expression::Or(x, y) => match b {
            Expression::Or(c, d) => {
                if x.equiv(*c) && y.equiv(*d) {
                    lemma_equiv_node_count(*x, *c);
                    lemma_equiv_node_count(*y, *d);
                } else {
                    lemma_equiv_node_count(*x, *d);
                    lemma_equiv_node_count(*y, *c);
                }
            },
            _ => {},
        },
        Expression::And(x, y) => match b {
            Expression::And(c, d) => {
                if x.equiv(*c) && y.equiv(*d) {
                    lemma_equiv_node_count(*x, *c);
                    lemma_equiv_node_count(*y, *d);
                } else {
                    lemma_equiv_node_count(*x, *d);
                    lemma_equiv_node_count(*y, *c);
                }
            },
            _ => {},
        },
        Expression::Xor(x, y) => match b {
            Expression::Xor(c, d) => {
                lemma_equiv_node_count(*x, *c);
                lemma_equiv_node_count(*y, *d);
            },
            _ => {},
        },
        _ => {},
    }
}

/// A formula never equals one with a different number of nodes.
proof fn lemma_not_equiv_by_size(a: Expression, b: Expression)
    requires
        a.node_count() != b.node_count(),
    ensures
        !a.equiv(b),
{
    if a.equiv(b) {
        lemma_equiv_node_count(a, b);
    }
}

/// `And` and `Or` are equal to themselves with their operands swapped, while
/// `Not` compares its operand only.
pub proof fn lemma_commutative_equality(a: Expression, b: Expression)
    ensures
        Expression::And(Box::new(a), Box::new(b)).equiv(Expression::And(Box::new(b), Box::new(a))),
        Expression::Or(Box::new(a), Box::new(b)).equiv(Expression::Or(Box::new(b), Box::new(a))),
        Expression::Not(Box::new(a)).equiv(Expression::Not(Box::new(b))) == a.equiv(b),
{
    lemma_equiv_reflexive(a);
    lemma_equiv_reflexive(b);
}

proof fn lemma_conjunction_node_count(l: Expression, r: Expression)
    ensures
        Expression::conjunction(l, r).node_count() <= 1 + l.node_count() + r.node_count(),
{
}

proof fn lemma_disjunction_node_count(l: Expression, r: Expression)
    ensures
        Expression::disjunction(l, r).node_count() <= 1 + l.node_count() + r.node_count(),
{
}

/// `optimize` never adds nodes.
pub proof fn lemma_optimize_node_count(e: Expression)
    ensures
        e.optimized().node_count() <= e.node_count(),
    decreases e,
{
    match e {
        Expression::Not(a) => lemma_optimize_node_count(*a),
        Expression::And(l, r) => {
            lemma_optimize_node_count(*l);
            lemma_optimize_node_count(*r);
            lemma_conjunction_node_count(l.optimized(), r.optimized());
        },
        Expression::Or(l, r) => {
            lemma_optimize_node_count(*l);
            lemma_optimize_node_count(*r);
            lemma_disjunction_node_count(l.optimized(), r.optimized());
        },
        Expression::Xor(l, r) => {
            lemma_optimize_node_count(*l);
            lemma_optimize_node_count(*r);
        },
        _ => {},
    }
}

/// What `optimize` returns is in optimized shape.
pub proof fn lemma_optimized_shape(e: Expression)
    ensures
        e.optimized().is_optimized(),
    decreases e,
{
    match e {
        Expression::Not(a) => lemma_optimized_shape(*a),
        Expression::And(l, r) => {
            lemma_optimized_shape(*l);
            lemma_optimized_shape(*r);
        },
        Expression::Or(l, r) => {
            lemma_optimized_shape(*l);
            lemma_optimized_shape(*r);
        },
        Expression::Xor(l, r) => {
            lemma_optimized_shape(*l);
            lemma_optimized_shape(*r);
        },
        _ => {},
    }
}

/// `optimize` leaves a tree in optimized shape as it is.
pub proof fn lemma_optimized_fixed(e: Expression)
    requires
        e.is_optimized(),
    ensures
        e.optimized() == e,
    decreases e,
{
    match e {
        Expression::Not(a) => lemma_optimized_fixed(*a),
        Expression::And(l, r) => {
            lemma_optimized_fixed(*l);
            lemma_optimized_fixed(*r);
        },
        Expression::Or(l, r) => {
            lemma_optimized_fixed(*l);
            lemma_optimized_fixed(*r);
        },
        Expression::Xor(l, r) => {
            lemma_optimized_fixed(*l);
            lemma_optimized_fixed(*r);
        },
        _ => {},
    }
}

/// `optimize` never increases the node count, and optimizing twice gives
/// the same tree as optimizing once.
pub proof fn lemma_optimize_idempotent(e: Expression)
    ensures
        e.optimized().node_count() <= e.node_count(),
        e.optimized().optimized() == e.optimized(),
{
    lemma_optimize_node_count(e);
    lemma_optimized_shape(e);
    lemma_optimized_fixed(e.optimized());
}

/// A double negation optimizes to what its operand optimizes to; in
/// particular `¬¬a` optimizes to the variable `a`.
pub proof fn lemma_double_negation(e: Expression)
    ensures
        Expression::Not(Box::new(Expression::Not(Box::new(e)))).optimized() == e.optimized(),
        e is Var ==> Expression::Not(Box::new(Expression::Not(Box::new(e)))).optimized() == e,
{
    let n = Expression::Not(Box::new(e));
    lemma_optimized_shape(e);
    assert(n.optimized() == e.optimized().plain_negation());
    assert(Expression::Not(Box::new(n)).optimized() == n.optimized().plain_negation());
}

/// Identity law: `True` is neutral for `And`, `False` for `Or`, on either side.
pub proof fn lemma_identity(x: Expression)
    ensures
        Expression::conjunction(x, Expression::True) == x,
        Expression::conjunction(Expression::True, x) == x,
        Expression::disjunction(x, Expression::False) == x,
        Expression::disjunction(Expression::False, x) == x,
{
}

/// Null law: `False` absorbs `And`, `True` absorbs `Or`, on either side.
pub proof fn lemma_null(x: Expression)
    ensures
        Expression::conjunction(x, Expression::False) == Expression::False,
        Expression::conjunction(Expression::False, x) == Expression::False,
        Expression::disjunction(x, Expression::True) == Expression::True,
        Expression::disjunction(Expression::True, x) == Expression::True,
{
}

/// Complement law: a formula and its negation give `False` under `And` and
/// `True` under `Or`, on either side. A raw `¬True` beside `True` under `And`,
/// or `¬False` beside `False` under `Or`, is left to the identity law.
pub proof fn lemma_complement(x: Expression)
    ensures
        !(x is True) ==> Expression::conjunction(x, Expression::Not(Box::new(x)))
            == Expression::False,
        !(x is True) ==> Expression::conjunction(Expression::Not(Box::new(x)), x)
            == Expression::False,
        !(x is False) ==> Expression::disjunction(x, Expression::Not(Box::new(x)))
            == Expression::True,
        !(x is False) ==> Expression::disjunction(Expression::Not(Box::new(x)), x)
            == Expression::True,
{
    let n = Expression::Not(Box::new(x));
    lemma_equiv_reflexive(x);
    lemma_not_equiv_by_size(x, n);
    lemma_not_equiv_by_size(n, x);
    match x {
        Expression::Not(y) => {
            assert(x.node_count() == y.node_count() + 1);
            assert(n.node_count() == x.node_count() + 1);
            lemma_not_equiv_by_size(*y, n);
        },
        _ => {},
    }
}

/// Absorption law: `(a | b) & a` is `a` and `(a & b) | a` is `a`, for each of
/// the four positions of the repeated operand. A raw `True` operand under
/// `And`, or `False` under `Or`, is left to the identity law.
pub proof fn lemma_absorption(a: Expression, b: Expression)
    ensures
        !(a is True) ==> {
            let o = Expression::Or(Box::new(a), Box::new(b));
            let p = Expression::Or(Box::new(b), Box::new(a));
            &&& Expression::conjunction(o, a) == a
            &&& Expression::conjunction(p, a) == a
            &&& Expression::conjunction(a, o) == a
            &&& Expression::conjunction(a, p) == a
        },
        !(a is False) ==> {
            let o = Expression::And(Box::new(a), Box::new(b));
            let p = Expression::And(Box::new(b), Box::new(a));
            &&& Expression::disjunction(o, a) == a
            &&& Expression::disjunction(p, a) == a
            &&& Expression::disjunction(a, o) == a
            &&& Expression::disjunction(a, p) == a
        },
{
    lemma_equiv_reflexive(a);
    let o = Expression::Or(Box::new(a), Box::new(b));
    let p = Expression::Or(Box::new(b), Box::new(a));
    let q = Expression::And(Box::new(a), Box::new(b));
    let s = Expression::And(Box::new(b), Box::new(a));
    lemma_not_equiv_by_size(o, a);
    lemma_not_equiv_by_size(p, a);
    lemma_not_equiv_by_size(q, a);
    lemma_not_equiv_by_size(s, a);
    lemma_not_equiv_by_size(a, o);
    lemma_not_equiv_by_size(a, p);
    lemma_not_equiv_by_size(a, q);
    lemma_not_equiv_by_size(a, s);
    match a {
        Expression::Not(y) => {
            lemma_not_equiv_by_size(*y, o);
            lemma_not_equiv_by_size(*y, p);
            lemma_not_equiv_by_size(*y, q);
            lemma_not_equiv_by_size(*y, s);
        },
        Expression::Or(c, d) => {
            lemma_not_equiv_by_size(*c, o);
            lemma_not_equiv_by_size(*d, o);
            lemma_not_equiv_by_size(*c, p);
            lemma_not_equiv_by_size(*d, p);
        },
        Expression::And(c, d) => {
            lemma_not_equiv_by_size(*c, q);
            lemma_not_equiv_by_size(*d, q);
            lemma_not_equiv_by_size(*c, s);
            lemma_not_equiv_by_size(*d, s);
        },
        _ => {},
    }
}

proof fn lemma_simplified_form(e: Expression)
    ensures
        e.simplified().is_not_or_form(),
    decreases e,
{
    reveal_with_fuel(Expression::is_not_or_form, 6);
    match e {
        Expression::Not(a) => lemma_simplified_form(*a),
        Expression::Or(l, r) => {
            lemma_simplified_form(*l);
            lemma_simplified_form(*r);
        },
        Expression::And(l, r) => {
            lemma_simplified_form(*l);
            lemma_simplified_form(*r);
        },
        Expression::Xor(l, r) => {
            lemma_simplified_form(*l);
            lemma_simplified_form(*r);
        },
        _ => {},
    }
}

proof fn lemma_optimize_keeps_form(e: Expression)
    requires
        e.is_not_or_form(),
    ensures
        e.optimized().is_not_or_form(),
    decreases e,
{
    match e {
        Expression::Not(a) => lemma_optimize_keeps_form(*a),
        Expression::Or(l, r) => {
            lemma_optimize_keeps_form(*l);
            lemma_optimize_keeps_form(*r);
        },
        _ => {},
    }
}

/// `simplify` followed by `optimize` leaves no `And` and no `Xor` node, and
/// optimizing that result again changes nothing.
pub proof fn lemma_simplify_then_optimize(e: Expression)
    ensures
        e.simplified().optimized().is_not_or_form(),
        e.simplified().optimized().optimized() == e.simplified().optimized(),
{
    lemma_simplified_form(e);
    lemma_optimize_keeps_form(e.simplified());
    lemma_optimize_idempotent(e.simplified());
}

/// De Morgan: a negated `And` becomes an `Or` of negations and a negated `Or`
/// an `And` of negations, while a negated variable stays as it is.
pub proof fn lemma_de_morgan(a: String, b: String)
    ensures
        ({
            let va = Expression::Var(a);
            let vb = Expression::Var(b);
            &&& Expression::Not(Box::new(Expression::And(Box::new(va), Box::new(vb)))).de_morganed()
                == Expression::Or(
                Box::new(Expression::Not(Box::new(va))),
                Box::new(Expression::Not(Box::new(vb))),
            )
            &&& Expression::Not(Box::new(Expression::Or(Box::new(va), Box::new(vb)))).de_morganed()
                == Expression::And(
                Box::new(Expression::Not(Box::new(va))),
                Box::new(Expression::Not(Box::new(vb))),
            )
            &&& Expression::Not(Box::new(va)).de_morganed() == Expression::Not(Box::new(va))
        }),
{
    reveal_with_fuel(Expression::de_morganed, 3);
}

impl Expression {
    /// The truth value of the formula when each variable takes the value
    /// that `env` gives its name.
    pub open spec fn evaluate(self, env: spec_fn(Seq<char>) -> bool) -> bool
        decreases self,
    {
        match self {
            Expression::Var(n) => env(n@),
            Expression::Not(a) => !a.evaluate(env),
            Expression::Or(l, r) => l.evaluate(env) || r.evaluate(env),
            Expression::And(l, r) => l.evaluate(env) && r.evaluate(env),
            Expression::Xor(l, r) => l.evaluate(env) != r.evaluate(env),
            Expression::True => true,
            Expression::False => false,
        }
    }
}

impl Requirement {
    /// The requirement is met when each variable takes the value that `env`
    /// gives its name.
    pub open spec fn holds(self, env: spec_fn(Seq<char>) -> bool) -> bool
        decreases self,
    {
        match self {
            Requirement::Var(n, v) => env(n@) == v,
            Requirement::All(l, r) => l.holds(env) && r.holds(env),
            Requirement::Any(l, r) => l.holds(env) || r.holds(env),
            Requirement::Always => true,
            Requirement::Never => false,
        }
    }
}

/// Every requirement equals itself.
pub proof fn lemma_requirement_equiv_reflexive(q: Requirement)
    ensures
        q.equiv(q),
    decreases q,
{
    match q {
        Requirement::All(l, r) => {
            lemma_requirement_equiv_reflexive(*l);
            lemma_requirement_equiv_reflexive(*r);
        },
        Requirement::Any(l, r) => {
            lemma_requirement_equiv_reflexive(*l);
            lemma_requirement_equiv_reflexive(*r);
        },
        _ => {},
    }
}

/// `All` and `Any` are equal to themselves with their operands swapped.
pub proof fn lemma_requirement_commutative_equality(a: Requirement, b: Requirement)
    ensures
        Requirement::All(Box::new(a), Box::new(b)).equiv(
            Requirement::All(Box::new(b), Box::new(a)),
        ),
        Requirement::Any(Box::new(a), Box::new(b)).equiv(
            Requirement::Any(Box::new(b), Box::new(a)),
        ),
{
    lemma_requirement_equiv_reflexive(a);
    lemma_requirement_equiv_reflexive(b);
}

/// Contradiction: one name bound to both values under `all` is `Never`.
pub proof fn lemma_requirement_contradiction(name: String)
    ensures
        Requirement::all_of(Requirement::Var(name, true), Requirement::Var(name, false)).optimized()
            == Requirement::Never,
{
}

/// Tautology: one name bound to either value under `any` is `Always`.
pub proof fn lemma_requirement_tautology(name: String)
    ensures
        Requirement::any_of(Requirement::Var(name, true), Requirement::Var(name, false)).optimized()
            == Requirement::Always,
{
}

/// Equal requirements are met under the same bindings.
pub proof fn lemma_requirement_equiv_holds(
    a: Requirement,
    b: Requirement,
    env: spec_fn(Seq<char>) -> bool,
)
    requires
        a.equiv(b),
    ensures
        a.holds(env) == b.holds(env),
    decreases a,
{
    match a {
        Requirement::All(x, y) => match b {
            Requirement::All(c, d) => {
                if x.equiv(*c) && y.equiv(*d) {
                    lemma_requirement_equiv_holds(*x, *c, env);
                    lemma_requirement_equiv_holds(*y, *d, env);
                } else {
                    lemma_requirement_equiv_holds(*x, *d, env);
                    lemma_requirement_equiv_holds(*y, *c, env);
                }
            },
            _ => {},
        },
        Requirement::Any(x, y) => match b {
            Requirement::Any(c, d) => {
                if x.equiv(*c) && y.equiv(*d) {
                    lemma_requirement_equiv_holds(*x, *c, env);
                    lemma_requirement_equiv_holds(*y, *d, env);
                } else {
                    lemma_requirement_equiv_holds(*x, *d, env);
                    lemma_requirement_equiv_holds(*y, *c, env);
                }
            },
            _ => {},
        },
        _ => {},
    }
}

/// `any` is met exactly when one of its sides is.
pub proof fn lemma_any_of_holds(l: Requirement, r: Requirement, env: spec_fn(Seq<char>) -> bool)
    ensures
        Requirement::any_of(l, r).holds(env) == (l.holds(env) || r.holds(env)),
{
    if l.equiv(r) {
        lemma_requirement_equiv_holds(l, r, env);
    }
}

/// `all` is met exactly when both of its sides are.
pub proof fn lemma_all_of_holds(l: Requirement, r: Requirement, env: spec_fn(Seq<char>) -> bool)
    ensures
        Requirement::all_of(l, r).holds(env) == (l.holds(env) && r.holds(env)),
    decreases l.node_count() + r.node_count(),
{
    if l.equiv(r) {
        lemma_requirement_equiv_holds(l, r, env);
    } else if l is Never || r is Never {
    } else if Requirement::opposed(l, r) {
    } else {
        match r {
            Requirement::Any(a, b) => {
                lemma_all_of_holds(l, *a, env);
                lemma_all_of_holds(l, *b, env);
                lemma_any_of_holds(
                    Requirement::all_of(l, *a),
                    Requirement::all_of(l, *b),
                    env,
                );
            },
            _ => match l {
                Requirement::Any(a, b) => {
                    lemma_all_of_holds(*a, r, env);
                    lemma_all_of_holds(*b, r, env);
                    lemma_any_of_holds(
                        Requirement::all_of(*a, r),
                        Requirement::all_of(*b, r),
                        env,
                    );
                },
                _ => {},
            },
        }
    }
}

/// `optimize` keeps the bindings under which a requirement is met.
pub proof fn lemma_requirement_optimize_holds(q: Requirement, env: spec_fn(Seq<char>) -> bool)
    ensures
        q.optimized().holds(env) == q.holds(env),
    decreases q,
{
    match q {
        Requirement::All(l, r) => {
            lemma_requirement_optimize_holds(*l, env);
            lemma_requirement_optimize_holds(*r, env);
            lemma_all_of_holds(l.optimized(), r.optimized(), env);
        },
        Requirement::Any(l, r) => {
            lemma_requirement_optimize_holds(*l, env);
            lemma_requirement_optimize_holds(*r, env);
            lemma_any_of_holds(l.optimized(), r.optimized(), env);
        },
        _ => {},
    }
}

/// The derived requirement describes exactly the bindings under which the
/// formula takes the expected value.
pub proof fn lemma_requirement_for_exact(
    e: Expression,
    expectative: bool,
    env: spec_fn(Seq<char>) -> bool,
)
    ensures
        requirement_for(e, expectative).holds(env) == (e.evaluate(env) == expectative),
    decreases e,
{
    match e {
        Expression::Not(a) => lemma_requirement_for_exact(*a, !expectative, env),
        Expression::Or(l, r) => {
            lemma_requirement_for_exact(*l, expectative, env);
            lemma_requirement_for_exact(*r, expectative, env);
            let left = requirement_for(*l, expectative);
            let right = requirement_for(*r, expectative);
            lemma_any_of_holds(left, right, env);
            lemma_all_of_holds(left, right, env);
        },
        Expression::And(l, r) => {
            lemma_requirement_for_exact(*l, expectative, env);
            lemma_requirement_for_exact(*r, expectative, env);
            let left = requirement_for(*l, expectative);
            let right = requirement_for(*r, expectative);
            lemma_any_of_holds(left, right, env);
            lemma_all_of_holds(left, right, env);
        },
        Expression::Xor(l, r) => {
            lemma_requirement_for_exact(*l, true, env);
            lemma_requirement_for_exact(*l, false, env);
            lemma_requirement_for_exact(*r, true, env);
            lemma_requirement_for_exact(*r, false, env);
            let lt = requirement_for(*l, true);
            let lf = requirement_for(*l, false);
            let rt = requirement_for(*r, true);
            let rf = requirement_for(*r, false);
            lemma_all_of_holds(lt, rf, env);
            lemma_all_of_holds(lf, rt, env);
            lemma_all_of_holds(lt, rt, env);
            lemma_all_of_holds(lf, rf, env);
            lemma_any_of_holds(Requirement::all_of(lt, rf), Requirement::all_of(lf, rt), env);
            lemma_any_of_holds(Requirement::all_of(lt, rt), Requirement::all_of(lf, rf), env);
        },
        _ => {},
    }
}

/// Equal formulas take the same value under every binding.
pub proof fn lemma_equiv_evaluate(a: Expression, b: Expression, env: spec_fn(Seq<char>) -> bool)
    requires
        a.equiv(b),
    ensures
        a.evaluate(env) == b.evaluate(env),
    decreases a,
{
    match a {
        Expression::Not(x) => match b {
            Expression::Not(y) => lemma_equiv_evaluate(*x, *y, env),
            _ => {},
        },
        Expression::Or(x, y) => match b {
            Expression::Or(c, d) => {
                if x.equiv(*c) && y.equiv(*d) {
                    lemma_equiv_evaluate(*x, *c, env);
                    lemma_equiv_evaluate(*y, *d, env);
                } else {
                    lemma_equiv_evaluate(*x, *d, env);
                    lemma_equiv_evaluate(*y, *c, env);
                }
            },
            _ => {},
        },
        Expression::And(x, y) => match b {
            Expression::And(c, d) => {
                if x.equiv(*c) && y.equiv(*d) {
                    lemma_equiv_evaluate(*x, *c, env);
                    lemma_equiv_evaluate(*y, *d, env);
                } else {
                    lemma_equiv_evaluate(*x, *d, env);
                    lemma_equiv_evaluate(*y, *c, env);
                }
            },
            _ => {},
        },
        Expression::Xor(x, y) => match b {
            Expression::Xor(c, d) => {
                lemma_equiv_evaluate(*x, *c, env);
                lemma_equiv_evaluate(*y, *d, env);
            },
            _ => {},
        },
        _ => {},
    }
}

proof fn lemma_negates_evaluate(n: Expression, e: Expression, env: spec_fn(Seq<char>) -> bool)
    requires
        Expression::negates(n, e),
    ensures
        n.evaluate(env) == !e.evaluate(env),
{
    match n {
        Expression::Not(x) => lemma_equiv_evaluate(*x, e, env),
        _ => {},
    }
}

proof fn lemma_operand_evaluate(o: Expression, e: Expression, env: spec_fn(Seq<char>) -> bool)
    ensures
        Expression::or_with_operand(o, e) && e.evaluate(env) ==> o.evaluate(env),
        Expression::and_with_operand(o, e) && o.evaluate(env) ==> e.evaluate(env),
{
    match o {
        Expression::Or(a, b) => {
            if a.equiv(e) {
                lemma_equiv_evaluate(*a, e, env);
            }
            if b.equiv(e) {
                lemma_equiv_evaluate(*b, e, env);
            }
        },
        Expression::And(a, b) => {
            if a.equiv(e) {
                lemma_equiv_evaluate(*a, e, env);
            }
            if b.equiv(e) {
                lemma_equiv_evaluate(*b, e, env);
            }
        },
        _ => {},
    }
}

/// `and` keeps the meaning of a conjunction.
pub proof fn lemma_conjunction_evaluate(
    l: Expression,
    r: Expression,
    env: spec_fn(Seq<char>) -> bool,
)
    ensures
        Expression::conjunction(l, r).evaluate(env) == (l.evaluate(env) && r.evaluate(env)),
{
    if l.equiv(r) {
        lemma_equiv_evaluate(l, r, env);
    }
    if Expression::negates(r, l) {
        lemma_negates_evaluate(r, l, env);
    }
    if Expression::negates(l, r) {
        lemma_negates_evaluate(l, r, env);
    }
    lemma_operand_evaluate(l, r, env);
    lemma_operand_evaluate(r, l, env);
}

/// `or` keeps the meaning of a disjunction.
pub proof fn lemma_disjunction_evaluate(
    l: Expression,
    r: Expression,
    env: spec_fn(Seq<char>) -> bool,
)
    ensures
        Expression::disjunction(l, r).evaluate(env) == (l.evaluate(env) || r.evaluate(env)),
{
    if l.equiv(r) {
        lemma_equiv_evaluate(l, r, env);
    }
    if Expression::negates(r, l) {
        lemma_negates_evaluate(r, l, env);
    }
    if Expression::negates(l, r) {
        lemma_negates_evaluate(l, r, env);
    }
    lemma_operand_evaluate(l, r, env);
    lemma_operand_evaluate(r, l, env);
}

/// `not` keeps the meaning of a negation.
pub proof fn lemma_negation_evaluate(e: Expression, env: spec_fn(Seq<char>) -> bool)
    ensures
        e.negation().evaluate(env) == !e.evaluate(env),
    decreases e,
{
    match e {
        Expression::And(l, r) => {
            lemma_negation_evaluate(*l, env);
            lemma_negation_evaluate(*r, env);
            lemma_disjunction_evaluate(l.negation(), r.negation(), env);
        },
        Expression::Or(l, r) => {
            lemma_negation_evaluate(*l, env);
            lemma_negation_evaluate(*r, env);
            lemma_conjunction_evaluate(l.negation(), r.negation(), env);
        },
        _ => {},
    }
}

/// `optimize` keeps the meaning of the formula.
pub proof fn lemma_optimize_evaluate(e: Expression, env: spec_fn(Seq<char>) -> bool)
    ensures
        e.optimized().evaluate(env) == e.evaluate(env),
    decreases e,
{
    match e {
        Expression::Not(a) => lemma_optimize_evaluate(*a, env),
        Expression::And(l, r) => {
            lemma_optimize_evaluate(*l, env);
            lemma_optimize_evaluate(*r, env);
            lemma_conjunction_evaluate(l.optimized(), r.optimized(), env);
        },
        Expression::Or(l, r) => {
            lemma_optimize_evaluate(*l, env);
            lemma_optimize_evaluate(*r, env);
            lemma_disjunction_evaluate(l.optimized(), r.optimized(), env);
        },
        Expression::Xor(l, r) => {
            lemma_optimize_evaluate(*l, env);
            lemma_optimize_evaluate(*r, env);
        },
        _ => {},
    }
}

/// `simplify` keeps the meaning of the formula.
pub proof fn lemma_simplify_evaluate(e: Expression, env: spec_fn(Seq<char>) -> bool)
    ensures
        e.simplified().evaluate(env) == e.evaluate(env),
    decreases e,
{
    reveal_with_fuel(Expression::evaluate, 6);
    match e {
        Expression::Not(a) => lemma_simplify_evaluate(*a, env),
        Expression::Or(l, r) => {
            lemma_simplify_evaluate(*l, env);
            lemma_simplify_evaluate(*r, env);
        },
        Expression::And(l, r) => {
            lemma_simplify_evaluate(*l, env);
            lemma_simplify_evaluate(*r, env);
        },
        Expression::Xor(l, r) => {
            lemma_simplify_evaluate(*l, env);
            lemma_simplify_evaluate(*r, env);
        },
        _ => {},
    }
}

/// `de_morgan` keeps the meaning of the formula.
pub proof fn lemma_de_morgan_evaluate(e: Expression, env: spec_fn(Seq<char>) -> bool)
    ensures
        e.de_morganed().evaluate(env) == e.evaluate(env),
    decreases e,
{
    reveal_with_fuel(Expression::evaluate, 3);
    match e {
        Expression::Not(a) => lemma_de_morgan_evaluate(*a, env),
        Expression::Or(l, r) => {
            lemma_de_morgan_evaluate(*l, env);
            lemma_de_morgan_evaluate(*r, env);
        },
        Expression::And(l, r) => {
            lemma_de_morgan_evaluate(*l, env);
            lemma_de_morgan_evaluate(*r, env);
        },
        Expression::Xor(l, r) => {
            lemma_de_morgan_evaluate(*l, env);
            lemma_de_morgan_evaluate(*r, env);
        },
        _ => {},
    }
}

/// The quick check never answers no for a value that some binding gives the
/// formula.
pub proof fn lemma_can_take_complete(e: Expression, env: spec_fn(Seq<char>) -> bool)
    ensures
        can_take(e, e.evaluate(env)),
    decreases e,
{
    match e {
        Expression::Not(a) => lemma_can_take_complete(*a, env),
        Expression::Or(l, r) => {
            lemma_can_take_complete(*l, env);
            lemma_can_take_complete(*r, env);
        },
        Expression::And(l, r) => {
            lemma_can_take_complete(*l, env);
            lemma_can_take_complete(*r, env);
        },
        Expression::Xor(l, r) => {
            lemma_can_take_complete(*l, env);
            lemma_can_take_complete(*r, env);
        },
        _ => {},
    }
}

} // verus!
