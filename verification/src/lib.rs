//! Verified admission rules for coding workspace evidence, hosted coding
//! actions, disconnected deployment inventory and the command-line dispatcher.

pub mod acceptance;
pub mod authority;
pub mod cli;
pub mod computer;
pub mod computer_evidence;
pub mod deployment;
pub mod hosted;
pub mod search;
pub mod text;
