//! A tiny embeddable rule language.
//!
//! Rule source text of the form `rule NAME { when <condition> then <actions> }`
//! is lexed into tokens, parsed into an AST, and evaluated against a mutable
//! fact store of named integer values.  A rule fires (its actions run) when its
//! condition evaluates to true against the current facts.

pub mod ast;
pub mod context;
pub mod lexer;
pub mod parser;
pub mod value;
