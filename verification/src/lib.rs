//! A structural template-expansion engine over token trees.
//!
//! Given a loop variable, a numeric range, and a template expressed as a tree
//! of tokens, the engine instantiates a designated repeated region once per
//! value in the range.  Inside each instantiation two rewrites apply: a bare
//! identifier equal to the loop variable becomes a numeric literal, and an
//! `identifier ~ variable` triple is spliced into one new identifier carrying
//! the value's decimal rendering.

pub mod expander;
pub mod header;
pub mod laws;
pub mod numeral;
pub mod scope;
pub mod specifier;
pub mod subst;
pub mod token;
