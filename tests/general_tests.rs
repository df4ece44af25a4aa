use boolean_logic::expression::Expression;
use boolean_logic::satisfability::Expectative;

#[test]
fn general_var_expression_should_satisfies_true () {
    let expression = Expression::Var("a".to_string());
    
    assert!(expression.general_satisfability().satisfies(Expectative::True));
}

#[test]
fn general_var_expression_should_satisfies_false () {
    let expression = Expression::Var("a".to_string());
    
assert!(expression.general_satisfability().satisfies(Expectative::False));
}

#[test]
fn general_not_expression_should_satisfies_true () {
    let expression = Expression::Not(
        Box::new(
            Expression::Var("a".to_string())
        )
    );
    
    assert!(expression.general_satisfability().satisfies(Expectative::True));
}

#[test]
fn general_not_expression_should_satisfies_false () {
    let expression = Expression::Not(
        Box::new(
            Expression::Var("a".to_string())
        )
    );
    
    assert!(expression.general_satisfability().satisfies(Expectative::False));
}

#[test]
fn general_and_expression_should_satisfies_true () {
    let expression = Expression::And(
        Box::new(
            Expression::Var("a".to_string())
        ),
        Box::new(
            Expression::Var("b".to_string())
        ),
    );
    
    assert!(expression.general_satisfability().satisfies(Expectative::True));
}

#[test]
fn general_and_expression_should_satisfies_false () {
    let expression = Expression::And(
        Box::new(
            Expression::Var("a".to_string())
        ),
        Box::new(
            Expression::Var("b".to_string())
        ),
    );
    
    assert!(expression.general_satisfability().satisfies(Expectative::False));
}

#[test]
fn general_constants_and_any() {
    let t = Expression::True;
    assert!(t.general_satisfability().satisfies(Expectative::True));
    assert!(!t.general_satisfability().satisfies(Expectative::False));
    assert!(t.general_satisfability().satisfies(Expectative::Any));
    let f = Expression::False;
    assert!(!f.general_satisfability().satisfies(Expectative::True));
    assert!(f.general_satisfability().satisfies(Expectative::Any));
}

#[test]
fn general_combinations() {
    let and_false = Expression::And(
        Box::new(Expression::Var("a".to_string())),
        Box::new(Expression::False),
    );
    assert!(!and_false.general_satisfability().satisfies(Expectative::True));
    assert!(and_false.general_satisfability().satisfies(Expectative::False));
    let or_true = Expression::Or(
        Box::new(Expression::Var("a".to_string())),
        Box::new(Expression::True),
    );
    assert!(!or_true.general_satisfability().satisfies(Expectative::False));
    let xor_same = Expression::Xor(Box::new(Expression::True), Box::new(Expression::True));
    assert!(!xor_same.general_satisfability().satisfies(Expectative::True));
    assert!(xor_same.general_satisfability().satisfies(Expectative::False));
}

#[test]
fn general_ignores_repeated_variables() {
    // a & ¬a cannot be true, yet each occurrence is checked on its own.
    let e = Expression::And(
        Box::new(Expression::Var("a".to_string())),
        Box::new(Expression::Not(Box::new(Expression::Var("a".to_string())))),
    );
    assert!(e.general_satisfability().satisfies(Expectative::True));
}
