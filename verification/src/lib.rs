//! Core of a small interactive shell: a quoting/escaping line tokenizer,
//! redirection parsing, builtin-command dispatch, and search-path resolution.
//!
//! The surrounding read-eval-print loop (prompting, reading lines, touching
//! the filesystem, spawning processes) lives outside this library; everything
//! here is a pure function from plain values to plain values, with a proved
//! contract.

pub mod dispatch;
pub mod numbers;
pub mod resolve;
pub mod text;
pub mod tokenizer;
