//! Verified core of the attribute and derive macros that register zsh
//! builtins and module state.
//!
//! The macros themselves only move tokens: `syn` turns the compiler's token
//! stream into syntax trees and `quote` turns a plan back into tokens.  Every
//! decision in between (which keys an attribute accepts, how literals are
//! normalised, which state type a builtin receives, what the companion module
//! is called) is made here, on a plain model of the syntax.

pub mod text;
pub mod syntax;
pub mod utils;
pub mod builtin;
pub mod state;
