//! The tiered, content-addressed cache of per-file analysis results.
//!
//! The cache decides; its caller reads and writes the files. Each operation
//! takes what the caller found on disk as plain values and says what is to
//! be written or removed.

pub mod entry;
pub mod key;
pub mod keyed;
pub mod index;
pub mod validity;
pub mod hot_tier;
pub mod compress;
pub mod store;
pub mod laws;
