//! A small in-memory table store driven by a textual query language.
//!
//! Query text is lexed into a token sequence, matched against a registry of
//! declarative grammars, turned into a plan of typed queries, and executed
//! against the store.

pub mod assoc;
pub mod database;
pub mod errors;
pub mod queries;
pub mod text;
pub mod tokenizer;
