//! Finds the most recently modified version-controlled projects in a
//! directory tree, over an in-memory model of that tree.

pub mod tree;
pub mod freshness;
pub mod walker;
pub mod select;
pub mod scan;
pub mod report;
