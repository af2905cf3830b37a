//! Temporary sudo grants: the rules that decide which users get a sudoers
//! entry, for how long and on which hosts, and how the records that hold
//! those grants are written and read back.

pub mod text;
pub mod common;
pub mod agent;
pub mod cli;
pub mod server;
