//! Composite Simpson's-rule quadrature: the decisions and the integer
//! skeleton of the rule, verified.

pub mod bounds;
pub mod error;
pub mod simpson;
pub mod function;
