//! Core of an interactive command interpreter: a tokenizer that turns a raw
//! input line into shell words (honoring quoting and escaping), a
//! redirection-aware command parser, a pipeline splitter, and the pure
//! decision logic of the pipeline executor and builtin dispatcher.
//!
//! Everything here is ordinary computation on strings and is verified; the
//! surrounding interpreter (line editing, file and process handling) lives
//! outside the library and only hands plain values in and out.

mod strutil;
pub mod commands;
pub mod completion;
pub mod pipeline;
pub mod redirection;
pub mod tokenize;
