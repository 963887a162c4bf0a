//! Turns view declarations written in a Swift builder syntax into reactive
//! web components: from the syntax tree of a source file to the text of one
//! module per view.

pub mod common;
pub mod component;
pub mod laws;
pub mod name_map;
pub mod paser;
pub mod pattern;
pub mod pipeline;
pub mod shape;
pub mod syntax;
pub mod text;
pub mod utils;
pub mod view;
