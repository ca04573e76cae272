//! Candidate test entry points of Elm modules, read off their syntax trees.
//!
//! A module that lists what it exposes offers the values on that list; a
//! module that exposes everything offers every value it binds at its top
//! level. Two ways lead to these names: a cursor walked by hand from the root
//! of the tree, and structural patterns matched against the whole tree. They
//! part on a file without a module header, where the walk fails for want of
//! a node and the patterns find nothing.

pub mod collect;
pub mod cursor;
pub mod error;
pub mod exposing;
pub mod handles;
pub mod laws;
pub mod names;
pub mod query;
pub mod syntax;
pub mod text;
pub mod toplevel;

pub use collect::{all_tests, all_tests_with, TestModule};
pub use error::ExplicitExposedValuesError;
pub use exposing::get_explicit_exposed_values;
pub use toplevel::{get_all_exposed_values, get_all_top_level_values};
