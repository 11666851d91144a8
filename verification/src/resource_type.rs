//! The resource types a container can hold, each knowing its four-byte
//! tag.

use vstd::prelude::*;

verus! {

/// One resource type: its decoded data shape and its on-disk tag.
pub trait ResourceType: Sized {
    /// What this resource type decodes to.
    type Data;

    /// The four-character tag naming the type inside a container.
    fn name(&self) -> &'static str;
}

} // verus!
