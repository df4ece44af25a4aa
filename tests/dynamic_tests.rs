use boolean_logic::expression::Expression;
use boolean_logic::satisfability::{DynamicSatisfability, Requirement};

#[test]
fn dynamic_var_expression_should_satisfies_true () {
    let expression = Expression::Var("a".to_string());

    let satisfability = DynamicSatisfability::new(&expression);
    
    assert_eq!(satisfability.satisfies(true), Requirement::Var("a".to_string(), true));
}

#[test]
fn dynamic_var_expression_should_satisfies_false () {
    let expression = Expression::Var("a".to_string());

    let satisfability = DynamicSatisfability::new(&expression);
    
    assert_eq!(satisfability.satisfies(false), Requirement::Var("a".to_string(), false));
}

#[test]
fn dynamic_not_expression_should_satisfies_true () {
    let expression = Expression::Not(
        Box::new(
            Expression::Var("a".to_string())
        )
    );

    let satisfability = DynamicSatisfability::new(&expression);
    
    assert_eq!(satisfability.satisfies(true), Requirement::Var("a".to_string(), false));
}

#[test]
fn dynamic_not_expression_should_satisfies_false () {
    let expression = Expression::Not(
        Box::new(
            Expression::Var("a".to_string())
        )
    );

    let satisfability = DynamicSatisfability::new(&expression);
    
    assert_eq!(satisfability.satisfies(false), Requirement::Var("a".to_string(), true));
}

#[test]
fn dynamic_and_expression_should_satisfies_true () {
    let expression = Expression::And(
        Box::new(
            Expression::Var("a".to_string())
        ),
        Box::new(
            Expression::Var("b".to_string())
        ),
    );

    let satisfability = DynamicSatisfability::new(&expression);
    
    assert_eq!(
        satisfability.satisfies(true),
        
        Requirement::All(
            Box::new(Requirement::Var("a".to_string(), true)),
            Box::new(Requirement::Var("b".to_string(), true)),
        )
    );
}

#[test]
fn dynamic_and_expression_should_satisfies_false () {
    let expression = Expression::And(
        Box::new(
            Expression::Var("a".to_string())
        ),
        Box::new(
            Expression::Var("b".to_string())
        ),
    );

    let satisfability = DynamicSatisfability::new(&expression);
    
    assert_eq!(
        satisfability.satisfies(false),
        
        Requirement::Any(
            Box::new(Requirement::Var("a".to_string(), false)),
            Box::new(Requirement::Var("b".to_string(), false)),
        )
    );
}

#[test]
fn or_expression_should_satisfies_true () {
    let expression = Expression::Or(
        Box::new(
            Expression::Var("a".to_string())
        ),
        Box::new(
            Expression::Var("b".to_string())
        ),
    );

    let satisfability = DynamicSatisfability::new(&expression);
    
    assert_eq!(
        satisfability.satisfies(true),

        Requirement::Any(
            Box::new(Requirement::Var("a".to_string(), true)),
            Box::new(Requirement::Var("b".to_string(), true)),
        )
    );  
}

#[test]
fn or_expression_should_satisfies_false () {
    let expression = Expression::Or(
        Box::new(
            Expression::Var("a".to_string())
        ),
        Box::new(
            Expression::Var("b".to_string())
        ),
    );

    let satisfability = DynamicSatisfability::new(&expression);

    assert_eq!(
        satisfability.satisfies(false),

        Requirement::All(
            Box::new(Requirement::Var("a".to_string(), false)),
            Box::new(Requirement::Var("b".to_string(), false)),
        )
    );
}

#[test]
fn not_and_expression_should_satisfies_true () {
    let expression = Expression::Not(
        Box::new(
            Expression::And(
                Box::new(
                    Expression::Var("a".to_string())
                ),
                Box::new(
                    Expression::Var("b".to_string())
                ),
            )
        )
    );

    let satisfability = DynamicSatisfability::new(&expression);
    
    assert_eq!(
        satisfability.satisfies(true),

        Requirement::Any(
            Box::new(Requirement::Var("a".to_string(), false)),
            Box::new(Requirement::Var("b".to_string(), false)),
        )
    );
}

#[test]
fn not_and_expression_should_satisfies_false () {
    let expression = Expression::Not(
        Box::new(
            Expression::And(
                Box::new(
                    Expression::Var("a".to_string())
                ),
                Box::new(
                    Expression::Var("b".to_string())
                ),
            )
        )
    );

    let satisfability = DynamicSatisfability::new(&expression);
    
    assert_eq!(
        satisfability.satisfies(false),
        
        Requirement::All(
            Box::new(Requirement::Var("a".to_string(), true)),
            Box::new(Requirement::Var("b".to_string(), true)),
        )
    );
}

fn var(name: &str, value: bool) -> Requirement {
    Requirement::Var(name.to_string(), value)
}

fn all(l: Requirement, r: Requirement) -> Requirement {
    Requirement::All(Box::new(l), Box::new(r))
}

fn any(l: Requirement, r: Requirement) -> Requirement {
    Requirement::Any(Box::new(l), Box::new(r))
}

fn ev(name: &str) -> Box<Expression> {
    Box::new(Expression::Var(name.to_string()))
}

#[test]
fn requirement_equality_is_commutative() {
    assert_eq!(all(var("a", true), var("b", false)), all(var("b", false), var("a", true)));
    assert_eq!(any(var("a", true), Requirement::Never), any(Requirement::Never, var("a", true)));
    assert_ne!(var("a", true), var("a", false));
    assert_ne!(all(var("a", true), var("b", true)), any(var("a", true), var("b", true)));
}

#[test]
fn requirement_contradiction() {
    assert_eq!(
        Requirement::all(var("a", true), var("a", false)).optimize(),
        Requirement::Never
    );
}

#[test]
fn requirement_tautology() {
    assert_eq!(
        Requirement::any(var("a", true), var("a", false)).optimize(),
        Requirement::Always
    );
}

#[test]
fn requirement_all_laws() {
    assert_eq!(Requirement::all(var("a", true), var("a", true)), var("a", true));
    assert_eq!(Requirement::all(Requirement::Never, var("a", true)), Requirement::Never);
    assert_eq!(Requirement::all(var("a", true), Requirement::Never), Requirement::Never);
    assert_eq!(
        Requirement::all(var("a", true), any(var("b", true), var("c", true))),
        any(all(var("a", true), var("b", true)), all(var("a", true), var("c", true)))
    );
    assert_eq!(
        Requirement::all(any(var("a", false), var("b", true)), var("a", true)),
        all(var("b", true), var("a", true))
    );
    assert_eq!(
        Requirement::all(var("a", true), var("b", true)),
        all(var("a", true), var("b", true))
    );
}

#[test]
fn requirement_any_laws() {
    assert_eq!(Requirement::any(var("a", true), var("a", true)), var("a", true));
    assert_eq!(Requirement::any(Requirement::Never, Requirement::Never), Requirement::Never);
    assert_eq!(Requirement::any(Requirement::Never, var("a", true)), var("a", true));
    assert_eq!(Requirement::any(var("a", true), Requirement::Never), var("a", true));
    assert_eq!(
        Requirement::any(var("a", true), var("b", true)),
        any(var("a", true), var("b", true))
    );
}

#[test]
fn requirement_optimize_rebuilds_bottom_up() {
    let raw = all(any(var("a", true), var("b", true)), var("a", false));
    assert_eq!(raw.optimize(), all(var("b", true), var("a", false)));
    assert_eq!(Requirement::Always.optimize(), Requirement::Always);
}

#[test]
fn requirement_format() {
    let r = any(all(var("a", true), var("b", true)), var("c", false));
    assert_eq!(r.format(), "a -> true, b -> true\nc -> false");
    assert_eq!(Requirement::Never.format(), "never");
}

#[test]
fn satisfies_xor() {
    let expression = Expression::Xor(ev("a"), ev("b"));
    let satisfability = DynamicSatisfability::new(&expression);
    assert_eq!(
        satisfability.satisfies(true),
        any(all(var("a", true), var("b", false)), all(var("a", false), var("b", true)))
    );
    assert_eq!(
        satisfability.satisfies(false),
        any(all(var("a", true), var("b", true)), all(var("a", false), var("b", false)))
    );
    assert_eq!(satisfability.took(), 0);
}

#[test]
fn satisfies_constants_and_contradictions() {
    let t = Expression::True;
    assert_eq!(DynamicSatisfability::new(&t).satisfies(true), Requirement::Always);
    assert_eq!(DynamicSatisfability::new(&t).satisfies(false), Requirement::Never);
    let f = Expression::False;
    assert_eq!(DynamicSatisfability::new(&f).satisfies(true), Requirement::Never);
    let contradiction = Expression::And(ev("a"), Box::new(Expression::Not(ev("a"))));
    assert_eq!(DynamicSatisfability::new(&contradiction).satisfies(true), Requirement::Never);
    assert_eq!(DynamicSatisfability::new(&contradiction).satisfies(false), Requirement::Always);
}
