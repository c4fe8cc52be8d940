//! The tagged datum type stored in facts and produced by expressions, and the
//! errors that evaluation can report.

use vstd::prelude::*;

verus! {

/// A value held in the fact store.  Today only 64-bit signed integers exist;
/// the enum is meant to grow further variants (booleans, strings, ...) without
/// touching consumer code, which must match exhaustively.
#[derive(Clone, Copy, Debug, PartialEq, Eq, Structural)]
pub enum Value {
    Int(i64),
}

/// An error from evaluating an expression, condition or action.
#[derive(Clone, Debug, PartialEq, Eq)]
pub enum EvalError {
    /// A field reference named a field absent from the fact store.
    FieldNotFound { field: String },
    /// An operator was applied to operands of a variant it does not support.
    /// Unreachable while `Value` has only the integer variant; it is the
    /// error that further value variants will report.
    TypeMismatch,
}

/// The mathematical shape of an `EvalError`: the same variants with the field
/// name abstracted to its character sequence.
pub enum EvalErrV {
    FieldNotFound(Seq<char>),
    TypeMismatch,
}

impl View for EvalError {
    type V = EvalErrV;

    open spec fn view(&self) -> EvalErrV {
        match self {
            EvalError::FieldNotFound { field } => EvalErrV::FieldNotFound(field@),
            EvalError::TypeMismatch => EvalErrV::TypeMismatch,
        }
    }
}

/// The abstraction of a `Result` carrying a `Value`, with the error replaced
/// by its view.
pub open spec fn value_result_view(r: Result<Value, EvalError>) -> Result<Value, EvalErrV> {
    match r {
        Ok(v) => Ok(v),
        Err(e) => Err(e@),
    }
}

/// What adding two values yields: integer addition, wrapping around on 64-bit
/// overflow.  Defined on every pair of variants so that evaluation is total.
pub open spec fn add_values(a: Value, b: Value) -> Result<Value, EvalErrV> {
    match (a, b) {
        (Value::Int(x), Value::Int(y)) => Ok(
            Value::Int(vstd::wrapping::i64_specs::wrapping_add(x, y)),
        ),
    }
}

impl Value {
    /// Add two values.  Both operands must be of the integer variant (always
    /// true today); the sum wraps around on 64-bit overflow.
    pub fn add(&self, other: &Value) -> (r: Result<Value, EvalError>)
        ensures
            value_result_view(r) == add_values(*self, *other),
    {
        match (*self, *other) {
            (Value::Int(a), Value::Int(b)) => Ok(Value::Int(a.wrapping_add(b))),
        }
    }
}

} // verus!
