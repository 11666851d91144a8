//! Read-only access to Mohawk-format archive containers and decoders for the
//! resource records they hold, including the proprietary compressed bitmap
//! codec.

pub mod bitmap;
pub mod bytes;
pub mod direct;
pub mod error;
pub mod filesystem;
pub mod format;
pub mod game;
pub mod map;
pub mod mhk;
pub mod resource_type;
pub mod resources;
pub mod riven;
pub mod stack;

use vstd::prelude::*;

verus! {

/// A resource identifier, unique within one (container, type tag) pair.
pub type ResourceId = u16;

} // verus!
