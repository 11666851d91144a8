//! The button-list resource: a count-prefixed table of fixed-width
//! button activation records.

use vstd::prelude::*;

use crate::bytes::be16;
use crate::error::MhkError;

verus! {

/// Marker for the button-list resource type.
#[derive(Clone, Copy, Debug, PartialEq, Eq, Hash, Structural)]
pub struct TBlst;

/// One button activation record.
#[derive(Debug, PartialEq, Eq, Clone, Copy, Structural)]
pub struct ButtonMeta {
    pub index: u16,
    pub enabled: u16,
    pub hotspot_id: u16,
}

/// The record at table slot `i`: three big-endian fields of two bytes
/// each, after the two-byte count.
pub open spec fn button_at(s: Seq<u8>, i: int) -> ButtonMeta {
    ButtonMeta {
        index: be16(s, 2 + 6 * i),
        enabled: be16(s, 2 + 6 * i + 2),
        hotspot_id: be16(s, 2 + 6 * i + 4),
    }
}

/// Decodes the whole button list. Succeeds exactly when the declared
/// count of six-byte records fits in the input.
pub fn parse_blst(s: &[u8]) -> (r: Result<Vec<ButtonMeta>, MhkError>)
    ensures
        match r {
            Ok(v) => {
                &&& s@.len() >= 2
                &&& 2 + 6 * (be16(s@, 0) as int) <= s@.len()
                &&& v@.len() == be16(s@, 0)
                &&& forall|i: int| 0 <= i < v@.len() ==> (#[trigger] v@[i]) == button_at(s@, i)
            },
            Err(e) => {
                &&& s@.len() < 2 || 2 + 6 * (be16(s@, 0) as int) > s@.len()
                &&& e matches MhkError::InvalidFormat(_)
            },
        },
{
    if s.len() < 2 {
        return Err(MhkError::InvalidFormat("short BLST record"));
    }
    let count = crate::bytes::read_be16(s, 0) as usize;
    if (s.len() - 2) / 6 < count {
        return Err(MhkError::InvalidFormat("short BLST record"));
    }
    proof {
        vstd::arithmetic::div_mod::lemma_fundamental_div_mod((s@.len() - 2) as int, 6);
    }
    let mut v: Vec<ButtonMeta> = Vec::new();
    let mut i: usize = 0;
    while i < count
        invariant
            i <= count,
            count == be16(s@, 0),
            2 + 6 * count <= s@.len(),
            v@.len() == i,
            forall|k: int| 0 <= k < i ==> (#[trigger] v@[k]) == button_at(s@, k),
        decreases count - i,
    {
        let base = 2 + 6 * i;
        let rec = ButtonMeta {
            index: crate::bytes::read_be16(s, base),
            enabled: crate::bytes::read_be16(s, base + 2),
            hotspot_id: crate::bytes::read_be16(s, base + 4),
        };
        proof {
            assert(rec == button_at(s@, i as int));
        }
        v.push(rec);
        i = i + 1;
    }
    Ok(v)
}

} // verus!
