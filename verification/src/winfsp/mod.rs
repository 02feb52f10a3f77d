//! The file system as Windows sees it.

pub mod adapter;
pub mod files;
pub mod info;
pub mod jobs;
