//! Verified core of a DSL for declarative view code: the expansion of parsed
//! view trees into Rust tokens, and the decisions taken while reading them.

pub mod compose;
pub mod diag;
pub mod expand;
pub mod fragment;
pub mod grammar;
pub mod model;
pub mod naming;
pub mod path;
pub mod property;
pub mod read;
pub mod spec;
pub mod state;
pub mod syntax;
pub mod token;
pub mod view;
pub mod visit;
