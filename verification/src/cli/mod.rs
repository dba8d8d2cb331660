//! The command line: what can be asked for, and what is printed.

pub mod add;
pub mod command;
pub mod scale;
pub mod sync;
