//! The file system as a network file server sees it.

pub mod attr;
pub mod files;
pub mod ids;
pub mod laws;
pub mod ops;
pub mod server;
