//! The two commands, `alias` and `path`, and what they share.
pub mod alias;
pub mod command;
pub mod path;
pub mod shell;
