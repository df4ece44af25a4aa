use boolean_logic::expression::Expression;

#[test]
fn should_be_equal () {
    let comparisons = [
        (Expression::True, Expression::True),
        (Expression::False, Expression::False),

        (
            Expression::Var("a".to_string()),
            Expression::Var("a".to_string()),
        ),

        (
            Expression::Not(Box::new(Expression::Var("a".to_string()))),
            Expression::Not(Box::new(Expression::Var("a".to_string()))),
        ),

        (
            Expression::And(
                Box::new(Expression::Var("a".to_string())),
                Box::new(Expression::Var("a".to_string())),
            ),    
            Expression::And(
                Box::new(Expression::Var("a".to_string())),
                Box::new(Expression::Var("a".to_string())),
            )
        ),

        (
            Expression::And(
                Box::new(Expression::Var("a".to_string())),
                Box::new(Expression::Var("b".to_string())),
            ),    
            Expression::And(
                Box::new(Expression::Var("a".to_string())),
                Box::new(Expression::Var("b".to_string())),
            )
        ),

        (
            Expression::And(
                Box::new(Expression::Var("a".to_string())),
                Box::new(Expression::Var("b".to_string())),
            ),    
            Expression::And(
                Box::new(Expression::Var("b".to_string())),
                Box::new(Expression::Var("a".to_string())),
            )
        ),

        (
            Expression::Or(
                Box::new(Expression::Var("a".to_string())),
                Box::new(Expression::Var("b".to_string())),
            ),    
            Expression::Or(
                Box::new(Expression::Var("a".to_string())),
                Box::new(Expression::Var("b".to_string())),
            )
        ),

        (
            Expression::Or(
                Box::new(Expression::Var("a".to_string())),
                Box::new(Expression::Var("b".to_string())),
            ),    
            Expression::Or(
                Box::new(Expression::Var("b".to_string())),
                Box::new(Expression::Var("a".to_string())),
            )
        ),

        (
            Expression::Or(
                Box::new(Expression::Var("a".to_string())),
                Box::new(Expression::Var("a".to_string())),
            ),    
            Expression::Or(
                Box::new(Expression::Var("a".to_string())),
                Box::new(Expression::Var("a".to_string())),
            )
        ),
    ];

    for (left, right) in comparisons {
        assert_eq!(left, right);
        assert_eq!(right, left);
    }
}

#[test]
fn should_not_be_equal () {
    let comparisons = [
        (Expression::True, Expression::False),
        (Expression::False, Expression::True),

        (
            Expression::Var("a".to_string()),
            Expression::Var("b".to_string()),
        ),

        (
            Expression::Not(Box::new(Expression::Var("a".to_string()))),
            Expression::Not(Box::new(Expression::Var("b".to_string()))),
        ),

        (
            Expression::And(
                Box::new(Expression::Var("a".to_string())),
                Box::new(Expression::Var("a".to_string())),
            ),    
            Expression::And(
                Box::new(Expression::Var("b".to_string())),
                Box::new(Expression::Var("b".to_string())),
            )
        ),

        (
            Expression::And(
                Box::new(Expression::Var("a".to_string())),
                Box::new(Expression::Var("a".to_string())),
            ),    
            Expression::And(
                Box::new(Expression::Var("b".to_string())),
                Box::new(Expression::Var("c".to_string())),
            )
        ),

        (
            Expression::And(
                Box::new(Expression::Var("a".to_string())),
                Box::new(Expression::Var("b".to_string())),
            ),    
            Expression::And(
                Box::new(Expression::Var("c".to_string())),
                Box::new(Expression::Var("c".to_string())),
            ),
        ),

        (
            Expression::And(
                Box::new(Expression::Var("a".to_string())),
                Box::new(Expression::Var("b".to_string())),
            ),    
            Expression::And(
                Box::new(Expression::Var("c".to_string())),
                Box::new(Expression::Var("d".to_string())),
            )
        ),

        (
            Expression::Or(
                Box::new(Expression::Var("a".to_string())),
                Box::new(Expression::Var("a".to_string())),
            ),    
            Expression::Or(
                Box::new(Expression::Var("b".to_string())),
                Box::new(Expression::Var("b".to_string())),
            )
        ),

        (
            Expression::Or(
                Box::new(Expression::Var("a".to_string())),
                Box::new(Expression::Var("a".to_string())),
            ),    
            Expression::Or(
                Box::new(Expression::Var("b".to_string())),
                Box::new(Expression::Var("c".to_string())),
            )
        ),

        (
            Expression::Or(
                Box::new(Expression::Var("a".to_string())),
                Box::new(Expression::Var("b".to_string())),
            ),    
            Expression::Or(
                Box::new(Expression::Var("c".to_string())),
                Box::new(Expression::Var("c".to_string())),
            ),
        ),

        (
            Expression::Or(
                Box::new(Expression::Var("a".to_string())),
                Box::new(Expression::Var("b".to_string())),
            ),    
            Expression::Or(
                Box::new(Expression::Var("c".to_string())),
                Box::new(Expression::Var("d".to_string())),
            )
        ),
    ];

    for (left, right) in comparisons {
        assert_ne!(left, right);
        assert_ne!(right, left);
    }
}

#[test]
fn should_optimize_not () {
    let expression = Expression::not(Expression::Var("a".to_string()));
    
    assert_eq!(expression, Expression::Not(
        Box::new(
            Expression::Var("a".to_string())
        )
    ));
}

#[test]
fn should_optimize_not_true () {
    let expression = Expression::not(Expression::True);
    
    assert_eq!(expression, Expression::False);
}

#[test]
fn should_optimize_not_false () {
    let expression = Expression::not(
        Expression::False
    );
    
    assert_eq!(expression, Expression::True);
}

#[test]
fn should_apply_de_morgan_law_to_not_and () {
    let expression = Expression::not(
        Expression::and(
            Expression::Var("a".to_string()),
            Expression::Var("b".to_string()),
        ),
    );
    
    assert_eq!(
        expression,

        Expression::Or(
            Box::new(
                Expression::Not(
                    Box::new(
                        Expression::Var("a".to_string())
                    )
                )
            ),
            Box::new(
                Expression::Not(
                    Box::new(
                        Expression::Var("b".to_string())
                    )
                )
            ),
        )
    );
}

#[test]
fn should_apply_de_morgan_law_to_not_or () {
    let expression = Expression::not(
        Expression::or(
            Expression::Var("a".to_string()),
            Expression::Var("b".to_string()),
        )
    );
    
    assert_eq!(
        expression,

        Expression::And(
            Box::new(
                Expression::Not(
                    Box::new(
                        Expression::Var("a".to_string())
                    )
                )
            ),
            Box::new(
                Expression::Not(
                    Box::new(
                        Expression::Var("b".to_string())
                    )
                )
            ),
        )
    );
}

#[test]
fn should_not_apply_de_morgan_law_when_to_not_var () {
    let expression = Expression::not(
        Expression::Var("a".to_string())
    );
    
    assert_eq!(
        expression,

        Expression::Not(
            Box::new(
                Expression::Var("a".to_string())
            )
        )
    );
}

#[test]
fn should_optimize_double_not () {
    let double_not = Expression::not(
        Expression::not(
            Expression::Var("a".to_string())
        )
    );
    
    assert_eq!(double_not, Expression::Var("a".to_string()));
}

#[test]
fn should_optimize_and () {
    let and = Expression::and(
        Expression::Var("a".to_string()),
        Expression::Var("b".to_string()),
    );
    
    assert_eq!(and, Expression::And(
        Box::new(
            Expression::Var("a".to_string()),
        ),
        Box::new(
            Expression::Var("b".to_string()),
        ),
    ));
}

#[test]
fn should_optimize_and_with_idempotent_law () {
    let idempotent_and = Expression::and(
        Expression::Var("a".to_string()),
        Expression::Var("a".to_string()),
    );
    
    assert_eq!(idempotent_and, Expression::Var("a".to_string()));
}

#[test]
fn should_optimize_and_with_identity_law () {
    let expressions = [
        // Left
        Expression::and(
            Expression::True,
            Expression::Var("a".to_string()),
        ),

        // Right
        Expression::and(
            Expression::Var("a".to_string()),
            Expression::True,
        ),
    ];
    
    for expression in expressions {
        assert_eq!(expression, Expression::Var("a".to_string()));
    }
}

#[test]
fn should_optimize_and_with_null_law () {
    let expressions = [
        // Left
        Expression::and(
            Expression::False,
            Expression::Var("a".to_string()),
        ),

        // Right
        Expression::and(
            Expression::Var("a".to_string()),
            Expression::False,
        ),
    ];
    
    for expression in expressions {
        assert_eq!(expression, Expression::False);
    }
}

#[test]
fn should_optimize_and_with_complement_law () {
    let expressions = [
        // Left
        Expression::and(
            Expression::not(
                Expression::Var("a".to_string()),
            ),
            Expression::Var("a".to_string()),
        ),

        // Right
        Expression::and(
            Expression::Var("a".to_string()),
            Expression::not(
                Expression::Var("a".to_string()),
            )
        ),
    ];
    
    for expression in expressions {
        assert_eq!(expression, Expression::False);
    }
}

#[test]
fn should_optimize_and_with_absortion_law () {
    let expressions = [
        // Left left
        Expression::and(
            Expression::or(
                Expression::Var("a".to_string()),
                Expression::Var("b".to_string()),
            ),
            Expression::Var("a".to_string()),
        ),

        // Left right
        Expression::and(
            Expression::or(
                Expression::Var("b".to_string()),
                Expression::Var("a".to_string()),
            ),
            Expression::Var("a".to_string()),
        ),

        // Right left
        Expression::and(
            Expression::Var("a".to_string()),
            Expression::or(
                Expression::Var("a".to_string()),
                Expression::Var("b".to_string()),
            )
        ),

        // Right right
        Expression::and(
            Expression::Var("a".to_string()),
            Expression::or(
                Expression::Var("b".to_string()),
                Expression::Var("a".to_string()),
            ),
        ),
    ];

    for expression in expressions {
        assert_eq!(expression, Expression::Var("a".to_string()));
    }
}

#[test]
fn should_optimize_or () {
    let or = Expression::Or(
        Box::new(
            Expression::Var("a".to_string()),
        ),
        Box::new(
            Expression::Var("b".to_string()),
        ),
    );
    
    assert_eq!(or, Expression::Or(
        Box::new(
            Expression::Var("a".to_string()),
        ),
        Box::new(
            Expression::Var("b".to_string()),
        ),
    ));
}

#[test]
fn should_optimize_or_with_idempotent_law () {
    let idempotent_or = Expression::or(
        Expression::Var("a".to_string()),
        Expression::Var("a".to_string()),
    );
    
    assert_eq!(idempotent_or, Expression::Var("a".to_string()));
}

#[test]
fn should_optimize_or_with_identity_law () {
    let expressions = [
        // Left
        Expression::or(
            Expression::False,
            Expression::Var("a".to_string()),
        ),

        // Right
        Expression::or(
            Expression::Var("a".to_string()),
            Expression::False,
        )
    ];

    for expression in expressions {
        assert_eq!(expression, Expression::Var("a".to_string()));
    }
}

#[test]
fn should_optimize_or_with_null_law () {
    let expressions = [
        // Left
        Expression::or(
            Expression::True,
            Expression::Var("a".to_string()),
        ),

        // Right
        Expression::or(
            Expression::Var("a".to_string()),
            Expression::True,
        )
    ];

    for expression in expressions {
        assert_eq!(expression, Expression::True);
    }
}

#[test]
fn should_optimize_or_with_complement_law () {
    let expressions = [
        // Left
        Expression::or(
            Expression::not(
                Expression::Var("a".to_string()),
            ),
            Expression::Var("a".to_string()),
        ),

        // Right
        Expression::or(
            Expression::Var("a".to_string()),
            Expression::not(
                Expression::Var("a".to_string()),
            ),
        ),
    ];
    
    for expression in expressions {
        assert_eq!(expression, Expression::True);
    }
}

#[test]
fn should_optimize_or_with_absortion_law () {
    let expressions = [
        // Left left
        Expression::or(
            Expression::and(
                Expression::Var("a".to_string()),
                Expression::Var("b".to_string()),
            ),
            Expression::Var("a".to_string()),
        ),

        // Left right
        Expression::or(
            Expression::and(
                Expression::Var("b".to_string()),
                Expression::Var("a".to_string()),
            ),
            Expression::Var("a".to_string()),
        ),
        
        // Right left
        Expression::or(
            Expression::Var("a".to_string()),
            Expression::and(
                Expression::Var("a".to_string()),
                Expression::Var("b".to_string()),
            ),
        ),
            
        // Right right
        Expression::or(
            Expression::Var("a".to_string()),
            Expression::and(
                Expression::Var("b".to_string()),
                Expression::Var("a".to_string()),
            ),
        ),
    ];
    
    for expression in expressions {
        assert_eq!(expression, Expression::Var("a".to_string()));
    }
}
