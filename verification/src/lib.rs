//! The symbol table and command dispatch core of an interactive command
//! interpreter: scoped bindings, name resolution over five kinds of symbol,
//! the argument model, and the decisions of the native primitives.

pub mod text;
pub mod dict;
pub mod args;
pub mod builtins;
pub mod sym;
pub mod laws;
