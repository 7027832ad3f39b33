//! Argument parsing for the `wildptr` command-line client.
//!
//! A [`cli::CLI`] holds two registries: the option flags and the commands that the program
//! understands. [`cli::CLI::parse`] reads the tokens of a command line from left to right and
//! decides what the program has to do with them: run a command, show the help, or report an
//! error. It prints nothing and ends nothing: the caller acts on the outcome.
//!
//! - [`cli`]: the registries and the lookups in them.
//! - [`parser`]: the pass over the tokens and its outcome.
//! - [`laws`]: what holds of the parser on every registry.
//! - [`help`]: the help text.
//! - [`report`]: the lines that report an error.
//! - [`api`]: the records that the client shows.
//! - [`text`]: strings as sequences of characters.
pub mod text;
pub mod cli;
pub mod parser;
pub mod laws;
pub mod help;
pub mod report;
pub mod api;
