//! A rule engine: a nested boolean rule, the condition tree, is evaluated
//! on structured records with a lookup context, and the records that satisfy
//! it are kept.
//!
//! - `value`, `number`: the value model of records, literals and context.
//! - `operators`: the comparison operators and their registry.
//! - `condition`: the condition tree, its evaluation and the three filters.
//! - `document`: rules written as JSON documents.
//! - `laws`: what holds of every rule, record and context.
//! - `utils`: lookup by dotted path.

pub mod condition;
pub mod document;
pub mod error;
pub mod laws;
pub mod number;
pub mod operators;
pub mod text;
pub mod utils;
pub mod value;

pub use condition::{Condition, FilterFnParams, Logic};
