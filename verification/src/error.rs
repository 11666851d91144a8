//! Error taxonomy: structural format violations, missing resources, and
//! propagated read failures.

use vstd::prelude::*;

verus! {

/// Why an archive or resource could not be handled.
#[derive(Debug, Clone, PartialEq, Eq)]
pub enum MhkError {
    /// Structural violation of the container or bitmap binary layout.
    InvalidFormat(&'static str),
    /// A valid index was consulted but the requested key is absent.
    /// Fields: the stack's ordinal (when resolution went through a
    /// stack), the type tag packed big-endian, and the resource id.
    ResourceNotFound(Option<usize>, u32, u16),
    /// The underlying byte source failed or ended early.
    Io,
}

} // verus!
