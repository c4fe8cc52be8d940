use re_mini::ast::{Action, CmpOp, Condition, Expr, Op, Rule};
use re_mini::context::DataContext;
use re_mini::value::{EvalError, Value};

#[test]
fn test_expr_add() {
    let mut ctx = DataContext::new();
    ctx.set("A".into(), Value::Int(3));
    ctx.set("B".into(), Value::Int(5));

    let expr = Expr::BinOp {
        left: Box::new(Expr::FieldRef("A".into())),
        op: Op::Add,
        right: Box::new(Expr::FieldRef("B".into())),
    };
    let result = expr.evaluate(&ctx).unwrap();
    assert_eq!(result, Value::Int(8));
}

// Example
// rule: "when A == 3, set C = A + B"
#[test]
fn test_rule_evaluate_and_execute() {
    let mut ctx = DataContext::new();
    ctx.set("A".into(), Value::Int(3));
    ctx.set("B".into(), Value::Int(5));

    let mut actions = Vec::new();
    actions.push(Action::Assign {
        field: "C".into(),
        expr: Expr::BinOp {
            left: Box::new(Expr::FieldRef("A".into())),
            op: Op::Add,
            right: Box::new(Expr::FieldRef("B".into())),
        },
    });

    let rule = Rule {
        name: String::from("add_rule"),
        condition: Condition::Compare {
            left: Expr::FieldRef("A".into()),
            op: CmpOp::Eq,
            right: Expr::Literal(Value::Int(3)),
        },
        actions: actions,
    };

    assert_eq!(rule.evaluate(&ctx).unwrap(), true);
    rule.execute(&mut ctx).unwrap();

    assert_eq!(ctx.get("C".into()), Some(&Value::Int(8)));
}

#[test]
fn field_ref_absent_reports_field_not_found() {
    let ctx = DataContext::new();
    let expr = Expr::FieldRef("missing".into());
    match expr.evaluate(&ctx) {
        Err(EvalError::FieldNotFound { field }) => assert_eq!(field, "missing"),
        other => panic!("expected field-not-found, got {:?}", other),
    }
}

#[test]
fn and_short_circuits_past_error() {
    let ctx = DataContext::new();
    let false_cond = Condition::Compare {
        left: Expr::Literal(Value::Int(0)),
        op: CmpOp::Eq,
        right: Expr::Literal(Value::Int(1)),
    };
    let erroring = Condition::Compare {
        left: Expr::FieldRef("no_such_field".into()),
        op: CmpOp::Eq,
        right: Expr::Literal(Value::Int(0)),
    };
    let cond = Condition::And(Box::new(false_cond), Box::new(erroring));
    assert_eq!(cond.evaluate(&ctx).unwrap(), false);
}

#[test]
fn or_short_circuits_past_error() {
    let ctx = DataContext::new();
    let true_cond = Condition::Compare {
        left: Expr::Literal(Value::Int(0)),
        op: CmpOp::Eq,
        right: Expr::Literal(Value::Int(0)),
    };
    let erroring = Condition::Compare {
        left: Expr::FieldRef("no_such_field".into()),
        op: CmpOp::Eq,
        right: Expr::Literal(Value::Int(0)),
    };
    let cond = Condition::Or(Box::new(true_cond), Box::new(erroring));
    assert_eq!(cond.evaluate(&ctx).unwrap(), true);
}

#[test]
fn and_true_left_propagates_right_error() {
    let ctx = DataContext::new();
    let true_cond = Condition::Compare {
        left: Expr::Literal(Value::Int(0)),
        op: CmpOp::Eq,
        right: Expr::Literal(Value::Int(0)),
    };
    let erroring = Condition::Compare {
        left: Expr::FieldRef("no_such_field".into()),
        op: CmpOp::Eq,
        right: Expr::Literal(Value::Int(0)),
    };
    let cond = Condition::And(Box::new(true_cond), Box::new(erroring));
    assert!(matches!(
        cond.evaluate(&ctx),
        Err(EvalError::FieldNotFound { .. })
    ));
}

#[test]
fn comparison_operators_on_values() {
    let ctx = DataContext::new();
    let cmp = |l: i64, op: CmpOp, r: i64| Condition::Compare {
        left: Expr::Literal(Value::Int(l)),
        op,
        right: Expr::Literal(Value::Int(r)),
    };
    assert_eq!(cmp(2, CmpOp::Lt, 3).evaluate(&ctx).unwrap(), true);
    assert_eq!(cmp(3, CmpOp::Lt, 2).evaluate(&ctx).unwrap(), false);
    assert_eq!(cmp(3, CmpOp::Gt, 2).evaluate(&ctx).unwrap(), true);
    assert_eq!(cmp(2, CmpOp::Gt, 3).evaluate(&ctx).unwrap(), false);
    assert_eq!(cmp(2, CmpOp::Eq, 2).evaluate(&ctx).unwrap(), true);
    assert_eq!(cmp(2, CmpOp::Eq, 3).evaluate(&ctx).unwrap(), false);
}

#[test]
fn add_wraps_on_overflow() {
    let r = Value::Int(i64::MAX).add(&Value::Int(1)).unwrap();
    assert_eq!(r, Value::Int(i64::MIN));
    let r2 = Value::Int(i64::MIN).add(&Value::Int(-1)).unwrap();
    assert_eq!(r2, Value::Int(i64::MAX));
}

#[test]
fn round_trip_plain_field() {
    // `when A == 0 then A = 1` on facts {A: 0}, built directly as AST
    let mut ctx = DataContext::new();
    ctx.set("A".into(), Value::Int(0));
    let rule = Rule {
        name: "R".into(),
        condition: Condition::Compare {
            left: Expr::FieldRef("A".into()),
            op: CmpOp::Eq,
            right: Expr::Literal(Value::Int(0)),
        },
        actions: vec![Action::Assign {
            field: "A".into(),
            expr: Expr::Literal(Value::Int(1)),
        }],
    };
    assert_eq!(rule.evaluate(&ctx).unwrap(), true);
    rule.execute(&mut ctx).unwrap();
    assert_eq!(ctx.get("A".into()), Some(&Value::Int(1)));
}

#[test]
fn or_condition_runs_both_actions_in_order() {
    // `when A == 0 || B == 0 then A = 1; B = 1;` on facts {A: 0, B: 1}
    let mut ctx = DataContext::new();
    ctx.set("A".into(), Value::Int(0));
    ctx.set("B".into(), Value::Int(1));
    let rule = Rule {
        name: "Fib".into(),
        condition: Condition::Or(
            Box::new(Condition::Compare {
                left: Expr::FieldRef("A".into()),
                op: CmpOp::Eq,
                right: Expr::Literal(Value::Int(0)),
            }),
            Box::new(Condition::Compare {
                left: Expr::FieldRef("B".into()),
                op: CmpOp::Eq,
                right: Expr::Literal(Value::Int(0)),
            }),
        ),
        actions: vec![
            Action::Assign {
                field: "A".into(),
                expr: Expr::Literal(Value::Int(1)),
            },
            Action::Assign {
                field: "B".into(),
                expr: Expr::Literal(Value::Int(1)),
            },
        ],
    };
    assert_eq!(rule.evaluate(&ctx).unwrap(), true);
    rule.execute(&mut ctx).unwrap();
    assert_eq!(ctx.get("A".into()), Some(&Value::Int(1)));
    assert_eq!(ctx.get("B".into()), Some(&Value::Int(1)));
}

#[test]
fn execute_fails_fast_but_keeps_earlier_effects() {
    let mut ctx = DataContext::new();
    let rule = Rule {
        name: "R".into(),
        condition: Condition::Compare {
            left: Expr::Literal(Value::Int(0)),
            op: CmpOp::Eq,
            right: Expr::Literal(Value::Int(0)),
        },
        actions: vec![
            Action::Assign {
                field: "X".into(),
                expr: Expr::Literal(Value::Int(7)),
            },
            Action::Assign {
                field: "Y".into(),
                expr: Expr::FieldRef("absent".into()),
            },
        ],
    };
    assert!(matches!(
        rule.execute(&mut ctx),
        Err(EvalError::FieldNotFound { .. })
    ));
    assert_eq!(ctx.get("X".into()), Some(&Value::Int(7)));
    assert_eq!(ctx.get("Y".into()), None);
}
