//! The logical filter: tokenizing a full expression string into a boolean
//! expression tree, and evaluating it against a caller-supplied context.

pub mod bool_operator;
pub mod context;
pub mod filter;
