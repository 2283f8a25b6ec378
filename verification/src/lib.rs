//! Static analysis front end for GDScript projects: a position-tracked
//! parser, the syntax tree that it builds, and the inference and the
//! checks that walk the tree.

pub mod gdproject_metadata;
pub mod gdscript;
pub mod godot_project;
pub mod utils;
