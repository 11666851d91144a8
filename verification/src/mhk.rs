//! The Mohawk container format: header and table records, the archive
//! index reader, the shared-cursor resource view, and the per-stack
//! resolver.

pub mod archive;
pub mod chunks;
pub mod format;
pub mod map;
pub mod narrow;
