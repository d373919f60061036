//! Helpers shared by every macro: attribute-argument handling and naming.

pub mod args;
pub mod emit;
