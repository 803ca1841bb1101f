//! The core of an interactive command shell: the grammar of a command line, the
//! line editor and its painter, the built-in commands and the key dispatcher.
//! Everything here computes on plain values; reading keys, painting the
//! terminal and running programs are left to the caller.

pub mod text;
pub mod grammar;
pub mod parser;
pub mod builtins;
pub mod prompt;
pub mod render;
pub mod command_line;
pub mod shell;
pub mod report;
