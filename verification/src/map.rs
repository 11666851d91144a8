//! Resolution of resources by stack, type tag and id, behind a trait so
//! that packed containers and exported file trees can stand in for one
//! another.

use vstd::prelude::*;

use crate::error::MhkError;
use crate::filesystem::Filesystem;
use crate::mhk::map::MhkMap;

verus! {

/// Resolves `(stack, tag, id)` to a resource's raw bytes.
pub trait ResourceMap: Sized {
    /// How the implementation names a stack.
    type Stack;

    /// The implementation's own soundness invariant.
    spec fn inv(&self) -> bool;

    /// Whether `stack` addresses a configured stack.
    spec fn valid_stack(&self, stack: &Self::Stack) -> bool;

    /// Reads the resource `(tag, id)` of `stack` whole.
    fn read_raw(&mut self, stack: &Self::Stack, tag: u32, id: u16) -> (r: Result<
        Vec<u8>,
        MhkError,
    >)
        requires
            old(self).inv(),
            old(self).valid_stack(stack),
        ensures
            final(self).inv(),
    ;
}

/// A resource map that can also enumerate the ids under one type tag.
pub trait ResourceMapList: ResourceMap {
    /// Lists every id under `tag` in `stack`, ascending and without
    /// duplicates.
    fn list(&mut self, stack: &Self::Stack, tag: u32) -> (r: Result<Vec<u16>, MhkError>)
        requires
            old(self).inv(),
            old(self).valid_stack(stack),
        ensures
            final(self).inv(),
    ;
}

/// A resource map that can also store resources back.
pub trait ResourceMapWrite: ResourceMap {
    /// Writes the resource `(tag, id)` of `stack`.
    fn write_raw(&mut self, stack: &Self::Stack, tag: u32, id: u16, data: &[u8]) -> (r: Result<
        (),
        MhkError,
    >)
        requires
            old(self).inv(),
            old(self).valid_stack(stack),
        ensures
            final(self).inv(),
    ;
}

impl<F: Filesystem> ResourceMap for MhkMap<F> {
    type Stack = usize;

    open spec fn inv(&self) -> bool {
        self.wf()
    }

    open spec fn valid_stack(&self, stack: &usize) -> bool {
        *stack < self.stacks@.len()
    }

    fn read_raw(&mut self, stack: &usize, tag: u32, id: u16) -> Result<Vec<u8>, MhkError> {
        self.read_resource(*stack, tag, id)
    }
}

impl<F: Filesystem> ResourceMapList for MhkMap<F> {
    fn list(&mut self, stack: &usize, tag: u32) -> Result<Vec<u16>, MhkError> {
        MhkMap::list(self, *stack, tag)
    }
}

} // verus!
