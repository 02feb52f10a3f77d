//! The file system as the kernel asks for it.

pub mod adapter;
pub mod calls;
pub mod dispatch;
pub mod jobs;
pub mod laws;
pub mod listing;
pub mod model;
pub mod requests;
pub mod wire;
