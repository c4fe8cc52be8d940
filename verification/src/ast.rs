//! AST node types for expressions, conditions, actions and rules, together
//! with their evaluation against a fact store.
//!
//! Each node kind has a mathematical mirror (`ExprV`, `CondV`, ...) over
//! character sequences, and a spec-level evaluator; the executable
//! `evaluate`/`execute` methods are proved to return exactly what the
//! spec-level evaluator says.

use vstd::prelude::*;

use crate::context::DataContext;
use crate::value::{add_values, value_result_view, EvalErrV, EvalError, Value};

verus! {

/// A binary arithmetic operator.  Only addition is parsed today; the enum is
/// the extension seam for further operators.
#[derive(Clone, Copy, Debug, PartialEq, Eq, Structural)]
pub enum Op {
    Add,
}

/// A comparison operator of a condition.
#[derive(Clone, Copy, Debug, PartialEq, Eq, Structural)]
pub enum CmpOp {
    Eq,
    Lt,
    Gt,
}

/// An expression: a literal value, a reference to a named field of the fact
/// store, or a binary operation on two sub-expressions.
#[derive(Debug, PartialEq)]
pub enum Expr {
    Literal(Value),
    FieldRef(String),
    BinOp { left: Box<Expr>, op: Op, right: Box<Expr> },
}

/// The mathematical mirror of `Expr`, with field names as character
/// sequences.
pub enum ExprV {
    Literal(Value),
    FieldRef(Seq<char>),
    BinOp { left: Box<ExprV>, op: Op, right: Box<ExprV> },
}

/// A condition: a comparison of two expressions, or a short-circuiting
/// conjunction or disjunction of two sub-conditions.
#[derive(Debug, PartialEq)]
pub enum Condition {
    Compare { left: Expr, op: CmpOp, right: Expr },
    Or(Box<Condition>, Box<Condition>),
    And(Box<Condition>, Box<Condition>),
}

/// The mathematical mirror of `Condition`.
pub enum CondV {
    Compare { left: ExprV, op: CmpOp, right: ExprV },
    Or(Box<CondV>, Box<CondV>),
    And(Box<CondV>, Box<CondV>),
}

/// An action run when a rule fires.  The only action today assigns the value
/// of an expression to a named field.
#[derive(Debug, PartialEq)]
pub enum Action {
    Assign { field: String, expr: Expr },
}

/// The mathematical mirror of `Action`.
pub enum ActionV {
    Assign { field: Seq<char>, expr: ExprV },
}

/// A named rule: a condition and the ordered actions that run when it holds.
#[derive(Debug, PartialEq)]
pub struct Rule {
    pub name: String,
    pub condition: Condition,
    pub actions: Vec<Action>,
}

/// The mathematical mirror of `Rule`.
pub struct RuleV {
    pub name: Seq<char>,
    pub condition: CondV,
    pub actions: Seq<ActionV>,
}

pub open spec fn expr_view(e: Expr) -> ExprV
    decreases e,
{
    match e {
        Expr::Literal(v) => ExprV::Literal(v),
        Expr::FieldRef(name) => ExprV::FieldRef(name@),
        Expr::BinOp { left, op, right } => ExprV::BinOp {
            left: Box::new(expr_view(*left)),
            op,
            right: Box::new(expr_view(*right)),
        },
    }
}

pub open spec fn cond_view(c: Condition) -> CondV
    decreases c,
{
    match c {
        Condition::Compare { left, op, right } => CondV::Compare {
            left: expr_view(left),
            op,
            right: expr_view(right),
        },
        Condition::Or(a, b) => CondV::Or(Box::new(cond_view(*a)), Box::new(cond_view(*b))),
        Condition::And(a, b) => CondV::And(Box::new(cond_view(*a)), Box::new(cond_view(*b))),
    }
}

impl View for Expr {
    type V = ExprV;

    open spec fn view(&self) -> ExprV {
        expr_view(*self)
    }
}

impl DeepView for Expr {
    type V = ExprV;

    open spec fn deep_view(&self) -> ExprV {
        self.view()
    }
}

impl View for Condition {
    type V = CondV;

    open spec fn view(&self) -> CondV {
        cond_view(*self)
    }
}

impl DeepView for Condition {
    type V = CondV;

    open spec fn deep_view(&self) -> CondV {
        self.view()
    }
}

impl View for Action {
    type V = ActionV;

    open spec fn view(&self) -> ActionV {
        match *self {
            Action::Assign { field, expr } => ActionV::Assign {
                field: field@,
                expr: expr_view(expr),
            },
        }
    }
}

impl DeepView for Action {
    type V = ActionV;

    open spec fn deep_view(&self) -> ActionV {
        self.view()
    }
}

impl View for Rule {
    type V = RuleV;

    open spec fn view(&self) -> RuleV {
        RuleV {
            name: self.name@,
            condition: self.condition@,
            actions: self.actions.deep_view(),
        }
    }
}

impl DeepView for Rule {
    type V = RuleV;

    open spec fn deep_view(&self) -> RuleV {
        self.view()
    }
}

/// What applying a binary operator to two values yields.
pub open spec fn apply_op(op: Op, l: Value, r: Value) -> Result<Value, EvalErrV> {
    match op {
        Op::Add => add_values(l, r),
    }
}

/// What comparing two values yields.  Both operands must be of the integer
/// variant (always true today); the integers are compared.
pub open spec fn compare_values(op: CmpOp, l: Value, r: Value) -> bool {
    match (l, r) {
        (Value::Int(a), Value::Int(b)) => match op {
            CmpOp::Eq => a == b,
            CmpOp::Lt => a < b,
            CmpOp::Gt => a > b,
        },
    }
}

/// What evaluating an expression against the fact map yields: a literal is
/// itself, a field reference looks its name up (failing when absent), and a
/// binary operation evaluates the left then the right operand eagerly and
/// applies the operator, propagating the first error.
pub open spec fn eval_expr_spec(e: ExprV, m: Map<Seq<char>, Value>) -> Result<Value, EvalErrV>
    decreases e,
{
    match e {
        ExprV::Literal(v) => Ok(v),
        ExprV::FieldRef(name) => if m.contains_key(name) {
            Ok(m[name])
        } else {
            Err(EvalErrV::FieldNotFound(name))
        },
        ExprV::BinOp { left, op, right } => match eval_expr_spec(*left, m) {
            Ok(l) => match eval_expr_spec(*right, m) {
                Ok(r) => apply_op(op, l, r),
                Err(err) => Err(err),
            },
            Err(err) => Err(err),
        },
    }
}

/// What evaluating a condition against the fact map yields.  `And` and `Or`
/// short-circuit: once the left side settles the outcome, the right side is
/// not evaluated and an error it would raise is not reported.
pub open spec fn eval_cond_spec(c: CondV, m: Map<Seq<char>, Value>) -> Result<bool, EvalErrV>
    decreases c,
{
    match c {
        CondV::Compare { left, op, right } => match eval_expr_spec(left, m) {
            Ok(l) => match eval_expr_spec(right, m) {
                Ok(r) => Ok(compare_values(op, l, r)),
                Err(err) => Err(err),
            },
            Err(err) => Err(err),
        },
        CondV::And(a, b) => match eval_cond_spec(*a, m) {
            Ok(la) => if !la {
                Ok(false)
            } else {
                eval_cond_spec(*b, m)
            },
            Err(err) => Err(err),
        },
        CondV::Or(a, b) => match eval_cond_spec(*a, m) {
            Ok(la) => if la {
                Ok(true)
            } else {
                eval_cond_spec(*b, m)
            },
            Err(err) => Err(err),
        },
    }
}

/// What executing one action does to the fact map: the assigned expression is
/// evaluated and, on success, its value inserted under the field name; on
/// failure the map is unchanged.
pub open spec fn exec_action_spec(a: ActionV, m: Map<Seq<char>, Value>) -> Result<
    Map<Seq<char>, Value>,
    EvalErrV,
> {
    match a {
        ActionV::Assign { field, expr } => match eval_expr_spec(expr, m) {
            Ok(v) => Ok(m.insert(field, v)),
            Err(err) => Err(err),
        },
    }
}

/// What executing a sequence of actions does: they run in order, failing fast
/// on the first error; mutations made before the failing action remain
/// applied.  Yields the outcome and the resulting fact map.
pub open spec fn exec_actions_spec(s: Seq<ActionV>, m: Map<Seq<char>, Value>) -> (Result<
    (),
    EvalErrV,
>, Map<Seq<char>, Value>)
    decreases s.len(),
{
    if s.len() == 0 {
        (Ok(()), m)
    } else {
        match exec_action_spec(s[0], m) {
            Ok(m2) => exec_actions_spec(s.drop_first(), m2),
            Err(err) => (Err(err), m),
        }
    }
}

/// The abstraction of a `Result` carrying a bool, with the error replaced by
/// its view.
pub open spec fn bool_result_view(r: Result<bool, EvalError>) -> Result<bool, EvalErrV> {
    match r {
        Ok(b) => Ok(b),
        Err(e) => Err(e@),
    }
}

/// The abstraction of a `Result` carrying nothing, with the error replaced by
/// its view.
pub open spec fn unit_result_view(r: Result<(), EvalError>) -> Result<(), EvalErrV> {
    match r {
        Ok(u) => Ok(u),
        Err(e) => Err(e@),
    }
}

impl Expr {
    /// Evaluate the expression against the facts in `ctx`; the fact store is
    /// never mutated.
    pub fn evaluate(&self, ctx: &DataContext) -> (r: Result<Value, EvalError>)
        ensures
            value_result_view(r) == eval_expr_spec(self@, ctx@),
        decreases *self,
    {
        match self {
            Expr::Literal(v) => Ok(*v),
            Expr::FieldRef(name) => match ctx.get(name.clone()) {
                Some(v) => Ok(*v),
                None => Err(EvalError::FieldNotFound { field: name.clone() }),
            },
            Expr::BinOp { left, op, right } => {
                let l = match left.evaluate(ctx) {
                    Ok(v) => v,
                    Err(e) => {
                        return Err(e);
                    },
                };
                let r = match right.evaluate(ctx) {
                    Ok(v) => v,
                    Err(e) => {
                        return Err(e);
                    },
                };
                match op {
                    Op::Add => l.add(&r),
                }
            },
        }
    }
}

impl Condition {
    /// Evaluate the condition against the facts in `ctx`, short-circuiting
    /// `And` and `Or`; the fact store is never mutated.
    pub fn evaluate(&self, ctx: &DataContext) -> (r: Result<bool, EvalError>)
        ensures
            bool_result_view(r) == eval_cond_spec(self@, ctx@),
        decreases *self,
    {
        match self {
            Condition::Compare { left, op, right } => {
                let l = match left.evaluate(ctx) {
                    Ok(v) => v,
                    Err(e) => {
                        return Err(e);
                    },
                };
                let r = match right.evaluate(ctx) {
                    Ok(v) => v,
                    Err(e) => {
                        return Err(e);
                    },
                };
                match op {
                    CmpOp::Eq => Ok(l == r),
                    CmpOp::Lt => {
                        match (l, r) {
                            (Value::Int(a), Value::Int(b)) => Ok(a < b),
                        }
                    },
                    CmpOp::Gt => {
                        match (l, r) {
                            (Value::Int(a), Value::Int(b)) => Ok(a > b),
                        }
                    },
                }
            },
            Condition::And(a, b) => {
                let la = match a.evaluate(ctx) {
                    Ok(v) => v,
                    Err(e) => {
                        return Err(e);
                    },
                };
                if !la {
                    Ok(false)
                } else {
                    b.evaluate(ctx)
                }
            },
            Condition::Or(a, b) => {
                let la = match a.evaluate(ctx) {
                    Ok(v) => v,
                    Err(e) => {
                        return Err(e);
                    },
                };
                if la {
                    Ok(true)
                } else {
                    b.evaluate(ctx)
                }
            },
        }
    }
}

impl Action {
    /// Execute the action against `ctx`: evaluate the assigned expression and
    /// insert-or-overwrite the field on success; on failure the store is
    /// unchanged.
    pub fn execute(&self, ctx: &mut DataContext) -> (r: Result<(), EvalError>)
        ensures
            match exec_action_spec(self@, old(ctx)@) {
                Ok(m2) => r is Ok && final(ctx)@ == m2,
                Err(err) => (match r {
                    Ok(u) => false,
                    Err(e) => e@ == err && final(ctx)@ == old(ctx)@,
                }),
            },
    {
        match self {
            Action::Assign { field, expr } => {
                let val = match expr.evaluate(ctx) {
                    Ok(v) => v,
                    Err(e) => {
                        return Err(e);
                    },
                };
                ctx.set(field.clone(), val);
                Ok(())
            },
        }
    }
}

impl Rule {
    /// Whether the rule fires: delegates to its condition.
    pub fn evaluate(&self, ctx: &DataContext) -> (r: Result<bool, EvalError>)
        ensures
            bool_result_view(r) == eval_cond_spec(self@.condition, ctx@),
    {
        self.condition.evaluate(ctx)
    }

    /// Run the rule's actions in declaration order, failing fast on the first
    /// action error; mutations from actions executed before the failing one
    /// remain applied.
    pub fn execute(&self, ctx: &mut DataContext) -> (r: Result<(), EvalError>)
        ensures
            ({
                let (res, m2) = exec_actions_spec(self@.actions, old(ctx)@);
                final(ctx)@ == m2 && unit_result_view(r) == res
            }),
    {
        let ghost all = self.actions.deep_view();
        proof {
            assert(all.skip(0) =~= all);
        }
        let n = self.actions.len();
        let mut i: usize = 0;
        while i < n
            invariant
                n == self.actions@.len(),
                0 <= i <= n,
                all == self.actions.deep_view(),
                exec_actions_spec(all.skip(i as int), ctx@) == exec_actions_spec(
                    all,
                    old(ctx)@,
                ),
            decreases n - i,
        {
            proof {
                assert(all.skip(i as int).len() > 0);
                assert(all.skip(i as int)[0] == all[i as int]);
                assert(all.skip(i as int).drop_first() =~= all.skip(i as int + 1));
            }
            let a = &self.actions[i];
            match a.execute(ctx) {
                Ok(u) => {},
                Err(e) => {
                    return Err(e);
                },
            }
            i += 1;
        }
        proof {
            assert(all.skip(n as int) =~= Seq::<ActionV>::empty());
        }
        Ok(())
    }
}

/// For any two integer values `a` and `b` whose sum does not overflow,
/// executing an assignment of `a + b` into a field binds that field to
/// exactly the integer `a + b`, and changes nothing else.
pub proof fn lemma_assign_add(field: Seq<char>, a: i64, b: i64, m: Map<Seq<char>, Value>)
    requires
        i64::MIN <= a + b <= i64::MAX,
    ensures
        exec_action_spec(
            (ActionV::Assign {
                field,
                expr: (ExprV::BinOp {
                    left: Box::new(ExprV::Literal(Value::Int(a))),
                    op: Op::Add,
                    right: Box::new(ExprV::Literal(Value::Int(b))),
                }),
            }),
            m,
        ) == Ok::<Map<Seq<char>, Value>, EvalErrV>(m.insert(field, Value::Int((a + b) as i64))),
{
    assert(eval_expr_spec(ExprV::Literal(Value::Int(a)), m) == Ok::<Value, EvalErrV>(
        Value::Int(a),
    ));
    assert(eval_expr_spec(ExprV::Literal(Value::Int(b)), m) == Ok::<Value, EvalErrV>(
        Value::Int(b),
    ));
}

/// A field reference on a name absent from the fact store always fails with
/// the field-not-found error naming that field; it never yields a default.
pub proof fn lemma_field_ref_absent(name: Seq<char>, m: Map<Seq<char>, Value>)
    requires
        !m.contains_key(name),
    ensures
        eval_expr_spec(ExprV::FieldRef(name), m) == Err::<Value, EvalErrV>(
            EvalErrV::FieldNotFound(name),
        ),
{
}

/// `And` short-circuits: when the left side evaluates to false, the whole
/// conjunction is false, whatever the right side would do — even when it
/// would fail.
pub proof fn lemma_and_short_circuit(a: CondV, b: CondV, m: Map<Seq<char>, Value>)
    requires
        eval_cond_spec(a, m) == Ok::<bool, EvalErrV>(false),
    ensures
        eval_cond_spec(CondV::And(Box::new(a), Box::new(b)), m) == Ok::<bool, EvalErrV>(false),
{
}

/// `Or` short-circuits: when the left side evaluates to true, the whole
/// disjunction is true, whatever the right side would do — even when it
/// would fail.
pub proof fn lemma_or_short_circuit(a: CondV, b: CondV, m: Map<Seq<char>, Value>)
    requires
        eval_cond_spec(a, m) == Ok::<bool, EvalErrV>(true),
    ensures
        eval_cond_spec(CondV::Or(Box::new(a), Box::new(b)), m) == Ok::<bool, EvalErrV>(true),
{
}

} // verus!
