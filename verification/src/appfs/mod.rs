//! The application file system: actions that agents submit by writing to
//! `.act` files, and the event stream that answers them.

pub mod segments;
pub mod payload;
pub mod adapter;
pub mod bridge;
pub mod telling;
pub mod testkit;
pub mod course;
pub mod events;
pub mod gate;
pub mod layout;
pub mod paging;
pub mod poll;
pub mod round;
pub mod rules;
pub mod runtime;
