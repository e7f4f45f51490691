//! Error types surfaced by parsing and evaluation.

use vstd::prelude::*;

verus! {

use vstd::string::StringExecFns;

/// Error returned when a comparison string cannot be parsed: the operand text
/// after the (optional) operator prefix is not a valid value of the target
/// type.
#[derive(Clone, Debug)]
pub struct ParseError {
    /// The operand text that failed to convert.
    pub text: String,
}

impl ParseError {
    /// A human-readable description of the failure.
    pub fn message(&self) -> (r: String)
        ensures
            r@ == "cannot parse operand: "@ + self.text@,
    {
        let m = String::from_str("cannot parse operand: ");
        m.concat(self.text.as_str())
    }
}

/// Error returned when a built filter cannot be evaluated.
#[derive(Clone, Debug, PartialEq)]
pub enum EvalError {
    /// An atom holds no comparison-operator character (`=`, `>`, `<`, `^`).
    NoComparison,
    /// An operator received the wrong arity of operands: a binary `&`/`|`
    /// without a right operand, or a unary `!` with one.
    InvalidOperands,
    /// The context could not resolve a variable, or failed internally.
    Context(String),
}

impl EvalError {
    /// A human-readable description of the failure.
    pub fn message(&self) -> (r: String)
        ensures
            self is NoComparison ==> r@ == "no comparison in atom"@,
            self is InvalidOperands ==> r@ == "operator applied to the wrong number of operands"@,
            self matches EvalError::Context(m) ==> r@ == m@,
    {
        match self {
            EvalError::NoComparison => String::from_str("no comparison in atom"),
            EvalError::InvalidOperands => String::from_str(
                "operator applied to the wrong number of operands",
            ),
            EvalError::Context(m) => m.clone(),
        }
    }
}

} // verus!
