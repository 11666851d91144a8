//! The card-map resource: a bare array of 32-bit codes with no count
//! prefix; the resource's length determines the count.

use vstd::prelude::*;

use crate::bytes::be32;
use crate::error::MhkError;

verus! {

/// Marker for the card-map resource type.
#[derive(Clone, Copy, Debug, PartialEq, Eq, Hash, Structural)]
pub struct TRmap;

/// Decodes the whole card map. Succeeds exactly when the input length is
/// a multiple of four, and then yields one big-endian code per group.
pub fn parse_rmap(s: &[u8]) -> (r: Result<Vec<u32>, MhkError>)
    ensures
        match r {
            Ok(v) => {
                &&& s@.len() % 4 == 0
                &&& v@.len() == s@.len() / 4
                &&& forall|i: int| 0 <= i < v@.len() ==> (#[trigger] v@[i]) == be32(s@, 4 * i)
            },
            Err(e) => s@.len() % 4 != 0 && e matches MhkError::InvalidFormat(_),
        },
{
    if s.len() % 4 != 0 {
        return Err(MhkError::InvalidFormat("bad RMAP size"));
    }
    let count = s.len() / 4;
    proof {
        vstd::arithmetic::div_mod::lemma_fundamental_div_mod(s@.len() as int, 4);
    }
    let mut v: Vec<u32> = Vec::new();
    let mut i: usize = 0;
    while i < count
        invariant
            i <= count,
            count == s@.len() / 4,
            4 * count <= s@.len(),
            s@.len() <= usize::MAX,
            v@.len() == i,
            forall|k: int| 0 <= k < i ==> (#[trigger] v@[k]) == be32(s@, 4 * k),
        decreases count - i,
    {
        let code = crate::bytes::read_be32(s, 4 * i);
        v.push(code);
        i = i + 1;
    }
    Ok(v)
}

} // verus!
