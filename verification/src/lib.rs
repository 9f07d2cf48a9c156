//! An in-memory key/value store that answers textual commands.
//!
//! A request is a buffer of bytes. [`connection`] finds the command line in
//! it and frames the response, [`lexer`] and [`parser`] turn the line into a
//! command, and [`evaluator`] runs the command against a [`store`] of
//! [`record`]s.

pub mod connection;
pub mod evaluator;
pub mod lexer;
pub mod parser;
pub mod prompt;
pub mod record;
pub mod store;
pub mod text;
