//! The decisions and texts of each command; running processes and touching
//! files is left to the caller.

pub mod exec;
pub mod init;
pub mod ls;
pub mod setup;
pub mod shell;
pub mod show;
