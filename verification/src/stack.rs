//! The grouping of containers into named stacks.

use vstd::prelude::*;

verus! {

/// A named logical grouping of containers. Implementations enumerate every
/// stack of one game and give each its file-name stem.
pub trait Stack: Sized {
    /// The stem used to derive the stack's default container file name.
    fn name(&self) -> &'static str;

    /// Every stack of the game, in a fixed order.
    fn all() -> Vec<Self>;
}

} // verus!
