//! A small embeddable filter-expression engine.
//!
//! Comparison strings such as `>=300` or `^=yes` are parsed into typed
//! predicates ([`FilterExpr`]), and full boolean expressions such as
//! `a >= 300 | b == yes` are tokenized into a generic expression tree
//! ([`betree::BeTree`]) and evaluated with short-circuit semantics against a
//! caller-supplied [`Context`].

pub mod betree;
pub mod errors;
pub mod filter_expr;
pub mod logical;

pub use errors::EvalError;
pub use errors::ParseError;
pub use filter_expr::FilterExpr;
pub use filter_expr::ParseOperand;
pub use logical::bool_operator::BoolOperator;
pub use logical::context::Context;
pub use logical::filter::Filter;
