//! The expression converter: constructor calls, array literals and model
//! declarations, rewritten as script text.

pub mod array;
pub mod model;
pub mod object;
