//! A resource map that stores each resource as one file of a filesystem,
//! used for exported asset trees rather than packed containers.

use vstd::prelude::*;

verus! {

/// Maps each resource to its own file under `filesystem`, interpreting
/// the bytes with `format`. The file naming itself is storage wiring and
/// is left to the embedding application.
#[derive(Debug)]
pub struct DirectMap<F, Fmt> {
    pub filesystem: F,
    pub format: Fmt,
}

impl<F, Fmt> DirectMap<F, Fmt> {
    /// A direct map over the given filesystem and format.
    pub fn new(filesystem: F, format: Fmt) -> (r: DirectMap<F, Fmt>)
        ensures
            r.filesystem == filesystem,
            r.format == format,
    {
        DirectMap { filesystem, format }
    }
}

} // verus!
