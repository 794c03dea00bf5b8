//! Ownership analysis for a small imperative language.
//!
//! The analyzer walks a syntax tree once and rejects the first use that
//! breaks a simplified affine discipline: a value that is not of a copy
//! type is moved by a plain read and may be read only once; a variable is
//! assigned to only if it was declared `mut`; a variable that was borrowed
//! with `&` is neither moved nor assigned to again; `break` and `continue`
//! stand inside loops.
//!
//! * [`ast`] is the tree that is walked.
//! * [`model`] and [`rules`] say what the analysis is: its state as
//!   mathematical values, and the outcome of visiting any node in any
//!   state.
//! * [`scope`] and [`semantic`] are the executable analyzer, held to the
//!   rules by their contracts.
//! * [`diagnostic`] is the one value that a failed analysis returns.
//! * [`invariants`] and [`laws`] state and prove what holds of every
//!   analysis.
//! * [`types`] holds the value types of the language and their casts.

pub mod ast;
pub mod diagnostic;
pub mod invariants;
pub mod laws;
pub mod model;
pub mod rules;
pub mod scope;
pub mod semantic;
pub mod text;
pub mod types;
