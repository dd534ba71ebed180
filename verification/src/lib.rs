//! Verified core of the LuatOS flashing tool: serial byte buffering, log line
//! reassembly, boot-log checks, command-line parsing and the flashing workflow.

pub mod text;
pub mod serial;
pub mod boot;
pub mod cli;
pub mod flash;
pub mod luadb;
