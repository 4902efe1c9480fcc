//! A verified parser for the structured comments that configure individual
//! test files: `//@` directive lines, `//~` diagnostic annotations, revision
//! scoping, and the consistency checks tying them together.
pub mod bytes;
pub mod comments;
pub mod condition;
pub mod errors;
pub mod foreign;
pub mod laws;
pub mod level;
pub mod num;
pub mod parse;
pub mod pattern;
pub mod quoted;
pub mod split;
