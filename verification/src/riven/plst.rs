//! The picture-list resource: a count-prefixed table of fixed-width
//! picture placement records.

use vstd::prelude::*;

use crate::bytes::be16;
use crate::error::MhkError;

verus! {

/// Marker for the picture-list resource type.
#[derive(Clone, Copy, Debug, PartialEq, Eq, Hash, Structural)]
pub struct TPlst;

/// One picture placement record.
#[derive(Debug, PartialEq, Eq, Clone, Copy, Structural)]
pub struct PictureMeta {
    pub index: u16,
    pub bitmap_id: u16,
    pub left: u16,
    pub top: u16,
    pub right: u16,
    pub bottom: u16,
}

/// The record at table slot `i`: six big-endian fields of two bytes
/// each, after the two-byte count.
pub open spec fn picture_at(s: Seq<u8>, i: int) -> PictureMeta {
    PictureMeta {
        index: be16(s, 2 + 12 * i),
        bitmap_id: be16(s, 2 + 12 * i + 2),
        left: be16(s, 2 + 12 * i + 4),
        top: be16(s, 2 + 12 * i + 6),
        right: be16(s, 2 + 12 * i + 8),
        bottom: be16(s, 2 + 12 * i + 10),
    }
}

/// Decodes the whole picture list. Succeeds exactly when the declared
/// count of twelve-byte records fits in the input.
pub fn parse_plst(s: &[u8]) -> (r: Result<Vec<PictureMeta>, MhkError>)
    ensures
        match r {
            Ok(v) => {
                &&& s@.len() >= 2
                &&& 2 + 12 * (be16(s@, 0) as int) <= s@.len()
                &&& v@.len() == be16(s@, 0)
                &&& forall|i: int| 0 <= i < v@.len() ==> (#[trigger] v@[i]) == picture_at(s@, i)
            },
            Err(e) => {
                &&& s@.len() < 2 || 2 + 12 * (be16(s@, 0) as int) > s@.len()
                &&& e matches MhkError::InvalidFormat(_)
            },
        },
{
    if s.len() < 2 {
        return Err(MhkError::InvalidFormat("short PLST record"));
    }
    let count = crate::bytes::read_be16(s, 0) as usize;
    if (s.len() - 2) / 12 < count {
        return Err(MhkError::InvalidFormat("short PLST record"));
    }
    proof {
        vstd::arithmetic::div_mod::lemma_fundamental_div_mod((s@.len() - 2) as int, 12);
    }
    let mut v: Vec<PictureMeta> = Vec::new();
    let mut i: usize = 0;
    while i < count
        invariant
            i <= count,
            count == be16(s@, 0),
            2 + 12 * count <= s@.len(),
            v@.len() == i,
            forall|k: int| 0 <= k < i ==> (#[trigger] v@[k]) == picture_at(s@, k),
        decreases count - i,
    {
        let base = 2 + 12 * i;
        let rec = PictureMeta {
            index: crate::bytes::read_be16(s, base),
            bitmap_id: crate::bytes::read_be16(s, base + 2),
            left: crate::bytes::read_be16(s, base + 4),
            top: crate::bytes::read_be16(s, base + 6),
            right: crate::bytes::read_be16(s, base + 8),
            bottom: crate::bytes::read_be16(s, base + 10),
        };
        proof {
            assert(rec == picture_at(s@, i as int));
        }
        v.push(rec);
        i = i + 1;
    }
    Ok(v)
}

} // verus!
