//! Sets backed by boolean slice storage.

pub mod set;
