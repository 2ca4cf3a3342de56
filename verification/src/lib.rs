//! Aliases and entries of the search path, kept in the user's shell
//! configuration file.
//!
//! The library reads and writes no file itself. It is told what the world
//! outside looks like, in an `Environment`, and answers with the `Effect`s
//! that carry a command line out.
pub mod command;
pub mod error;
pub mod text;
