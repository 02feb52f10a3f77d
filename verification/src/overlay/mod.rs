//! A writable layer over a base that is never changed.

pub mod calls;
pub mod copy;
pub mod laws;
pub mod layers;
pub mod moving;
pub mod ops;
