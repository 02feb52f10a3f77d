//! The file system that lives in a database.

pub mod laws;
pub mod ops;
pub mod reports;
pub mod store;
pub mod tables;
pub mod types;
