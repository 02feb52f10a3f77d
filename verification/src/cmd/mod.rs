//! What the commands decide and print.

pub mod daemon;
pub mod init;
pub mod mount;
pub mod mount_stub;
pub mod ps;
pub mod run_nfs;
pub mod run_stub;
pub mod setup;
