//! Dot-command grammar of an interactive database shell.

pub mod command_parser;
pub mod errors;
pub mod grammar;
pub mod text;
