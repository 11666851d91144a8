//! The top of the reading stack: a resource map paired with the formats
//! that interpret what it yields.

use vstd::prelude::*;

use crate::bytes::be32;
use crate::error::MhkError;
use crate::format::Format;
use crate::map::ResourceMap;
use crate::resource_type::ResourceType;
use vstd::string::StringSliceAdditionalSpecFns;

verus! {

/// The packed four-byte tag of a resource type's name, when the name is
/// exactly four bytes long.
pub fn tag_of_name(name: &str) -> (r: Option<u32>)
    ensures
        match r {
            Some(t) => name.spec_bytes().len() == 4 && t == be32(name.spec_bytes(), 0),
            None => name.spec_bytes().len() != 4,
        },
{
    let b = name.as_bytes();
    if b.len() != 4 {
        return None;
    }
    Some(crate::bytes::read_be32(b, 0))
}

/// Read access to a game's resources through a resolver map.
#[derive(Debug)]
pub struct Resources<M> {
    pub map: M,
}

impl<M> Resources<M> {
    /// Wraps a resolver map.
    pub fn new(map: M) -> (r: Resources<M>)
        ensures
            r.map == map,
    {
        Resources { map }
    }
}

impl<M: ResourceMap> Resources<M> {
    /// Resolves and reads one resource's raw bytes, deriving the wire tag
    /// from the resource type's four-character name.
    pub fn open_raw<R: ResourceType>(&mut self, stack: &M::Stack, typ: &R, id: u16) -> (r: Result<
        Vec<u8>,
        MhkError,
    >)
        requires
            old(self).map.inv(),
            old(self).map.valid_stack(stack),
        ensures
            final(self).map.inv(),
    {
        let tag = match tag_of_name(typ.name()) {
            Some(t) => t,
            None => {
                return Err(MhkError::InvalidFormat("resource type tag must be four bytes"));
            },
        };
        self.map.read_raw(stack, tag, id)
    }

    /// Resolves, reads and parses one resource in one step.
    pub fn open<R: ResourceType, D, Fmt: Format<R, D>>(
        &mut self,
        fmt: &Fmt,
        stack: &M::Stack,
        typ: &R,
        id: u16,
    ) -> (r: Result<D, MhkError>)
        requires
            old(self).map.inv(),
            old(self).map.valid_stack(stack),
        ensures
            final(self).map.inv(),
    {
        let raw = match self.open_raw(stack, typ, id) {
            Ok(v) => v,
            Err(e) => {
                return Err(e);
            },
        };
        fmt.parse(typ, raw.as_slice())
    }
}

} // verus!
