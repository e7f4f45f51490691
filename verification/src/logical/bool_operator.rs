//! The boolean connectives of the filter grammar, with their combination
//! and short-circuit rules.

use vstd::prelude::*;

verus! {

use crate::errors::EvalError;

/// A boolean connective: `&`, `|` or the unary `!`.
#[derive(Clone, Copy, Debug, PartialEq, Eq, Structural)]
pub enum BoolOperator {
    And,
    Or,
    Not,
}

/// What combining operands yields: `&` and `|` need a right operand, `!`
/// must not have one; any other arity is an error.
pub open spec fn spec_combine(op: BoolOperator, a: bool, b: Option<bool>) -> Result<bool, ()> {
    match (op, b) {
        (BoolOperator::And, Some(bb)) => Ok(a && bb),
        (BoolOperator::Or, Some(bb)) => Ok(a || bb),
        (BoolOperator::Not, None) => Ok(!a),
        _ => Err(()),
    }
}

/// Whether the operator's result is already decided by its left operand
/// alone: `&` by a false one, `|` by a true one.
pub open spec fn spec_short_circuits(op: BoolOperator, a: bool) -> bool {
    (op is And && !a) || (op is Or && a)
}

impl BoolOperator {
    /// Fold a binary result (`b` present) or a unary one (`b` absent).
    pub fn combine(self, a: bool, b: Option<bool>) -> (r: Result<bool, EvalError>)
        ensures
            spec_combine(self, a, b) matches Ok(v) ==> r == Ok::<bool, EvalError>(v),
            spec_combine(self, a, b) is Err <==> r == Err::<bool, EvalError>(
                EvalError::InvalidOperands,
            ),
    {
        match (self, b) {
            (BoolOperator::And, Some(bb)) => Ok(a && bb),
            (BoolOperator::Or, Some(bb)) => Ok(a || bb),
            (BoolOperator::Not, None) => Ok(!a),
            _ => Err(EvalError::InvalidOperands),
        }
    }

    /// Whether evaluation may skip the right operand.
    pub fn short_circuits(self, a: bool) -> (r: bool)
        ensures
            r == spec_short_circuits(self, a),
    {
        matches!((self, a), (BoolOperator::And, false) | (BoolOperator::Or, true))
    }
}

} // verus!
