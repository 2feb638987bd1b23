//! The computing part of each command: what to send, print and store,
//! given what was read.

pub mod alias;
pub mod exec;
pub mod runtime;
pub mod shell;
