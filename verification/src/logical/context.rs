//! The resolver interface between the filter engine and the host
//! application's data.

use vstd::prelude::*;

verus! {

use crate::errors::EvalError;

/// A caller-supplied resolver: it maps a variable name and the raw text of
/// a comparison to a boolean outcome, typically by looking the variable up
/// and applying the comparison parser to the field's own type.
///
/// `spec_evaluate` is the implementation's model of that decision, with
/// `None` standing for a failure of any kind; `evaluate` must follow it.
/// The filter's evaluator is verified against this model.
pub trait Context {
    /// The resolver's decision for a variable and a raw comparison, or
    /// `None` where resolution fails. Unless an implementation overrides
    /// this model and proves `evaluate` against it, nothing is promised:
    /// every resolution counts as a possible failure.
    open spec fn spec_evaluate(&self, key: Seq<char>, expression: Seq<char>) -> Option<bool> {
        None
    }

    /// Resolve one variable against one raw comparison string.
    fn evaluate(&self, key: &str, expression: &str) -> (r: Result<bool, EvalError>)
        ensures
            match self.spec_evaluate(key@, expression@) {
                Some(b) => r == Ok::<bool, EvalError>(b),
                None => r is Err,
            },
    ;
}

} // verus!
