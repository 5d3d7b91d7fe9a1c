//! A one-dimensional cyclic cellular automaton with a five-cell
//! neighbourhood rule and a square, scrolling history of its generations.

pub mod model;
pub mod rule;
pub mod universe;

pub use rule::rule_table;
pub use universe::{CaError, D1caUniverse};
