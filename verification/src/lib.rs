//! The shared part of a recursive-descent parser for expressions: a cursor over lexed tokens,
//! and one function per construct (strings, arrays, objects, built-in calls, ...), each of which
//! is handed the parser of whole expressions as a function.

pub mod access;
pub mod arena;
pub mod ast;
pub mod atoms;
pub mod builtin;
pub mod calls;
pub mod collections;
pub mod cursor;
pub mod decimal;
pub mod determined;
pub mod error;
pub mod forms;
pub mod grammar;
pub mod laws;
pub mod meaning;
pub mod meaning_chains;
pub mod meaning_forms;
pub mod meaning_lists;
pub mod parser;
pub mod progress;
pub mod steps;
pub mod text;
pub mod token;
