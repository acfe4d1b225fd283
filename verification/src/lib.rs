//! Fixed-domain, range-indexable set containers over small integer-like key
//! spaces, backed interchangeably by unpacked boolean storage, bit-packed byte
//! storage, or a general hash set, all exposed through one uniform set
//! abstraction.

pub mod abstra;
pub mod bool_flag;
pub mod bool_slice;
pub mod byte_slice;
pub mod hash;
pub mod index;
pub mod set;
pub mod slices;
