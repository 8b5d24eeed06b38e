//! Core of a source-code formatter for the GML scripting language family:
//! a comment-preserving scanner that turns raw source text into a stream of
//! position-annotated tokens, together with the token model and the statement
//! and expression data model that a downstream parser builds on.

pub mod config;
pub mod expressions;
pub mod lexer;
pub mod scan_model;
pub mod scanner;
pub mod statements;
