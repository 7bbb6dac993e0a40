//! Memory that devices read and write directly: an arena that places
//! buffers in pages set aside for it, and buffers seen through the cache.
pub mod arena;
pub mod buffer;
