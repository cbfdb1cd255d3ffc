//! A page-granular linear memory in the WebAssembly model: little-endian scalar
//! access at every width, atomic cells, and an address-keyed wait/notify registry.

pub mod codec;
pub mod mapping;
pub mod memory;
pub mod atomics;
pub mod scalar;
pub mod waiting;
pub mod laws;
