//! The command line: what the commands take and what they say.

pub mod args;
pub mod config;
pub mod ground;
pub mod init_repo;
