//! Application-wide systems: the global text selection and asset paths.

pub mod global_selection;
pub mod assets;
