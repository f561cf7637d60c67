//! GPIO lines of a board served over a line protocol: the pin table with its
//! lazy direction changes, the round-robin watcher, the command grammar and
//! the per-connection session engine.

pub mod command_evaluator;
pub mod command_parser;
pub mod pin_laws;
pub mod rush_pin_manager;
pub mod session;
pub mod text;
