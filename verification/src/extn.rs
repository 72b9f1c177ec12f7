//! Extensions of built-in classes that are written in host code.

pub mod matchdata;
pub mod regexp;
