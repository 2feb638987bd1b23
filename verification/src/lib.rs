//! Verified core of `agctl`, a declarative command-line tool for agent
//! runtimes: alias resolution, ARN handling, region selection, runtime
//! specs, the plans behind each command, and the interactive shell's wire
//! protocol.

pub mod text;
pub mod table;
pub mod config;
pub mod commands;
