//! Hash-backed containers.

pub mod set;
