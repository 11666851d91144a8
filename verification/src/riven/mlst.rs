//! The movie-list resource: a count-prefixed table of fixed-width movie
//! placement records.

use vstd::prelude::*;

use crate::bytes::be16;
use crate::error::MhkError;

verus! {

/// Marker for the movie-list resource type.
#[derive(Clone, Copy, Debug, PartialEq, Eq, Hash, Structural)]
pub struct TMlst;

/// One movie placement record. The three unknown middle fields of the
/// wire form are carried as separate scalars.
#[derive(Debug, PartialEq, Eq, Clone, Copy, Structural)]
pub struct MovieMeta {
    pub index: u16,
    pub movie_id: u16,
    pub code: u16,
    pub left: u16,
    pub top: u16,
    pub u0_0: u16,
    pub u0_1: u16,
    pub u0_2: u16,
    pub looping: u16,
    pub volume: u16,
    pub u1: u16,
}

/// The record at table slot `i`: eleven big-endian fields of two bytes
/// each, after the two-byte count.
pub open spec fn movie_at(s: Seq<u8>, i: int) -> MovieMeta {
    MovieMeta {
        index: be16(s, 2 + 22 * i),
        movie_id: be16(s, 2 + 22 * i + 2),
        code: be16(s, 2 + 22 * i + 4),
        left: be16(s, 2 + 22 * i + 6),
        top: be16(s, 2 + 22 * i + 8),
        u0_0: be16(s, 2 + 22 * i + 10),
        u0_1: be16(s, 2 + 22 * i + 12),
        u0_2: be16(s, 2 + 22 * i + 14),
        looping: be16(s, 2 + 22 * i + 16),
        volume: be16(s, 2 + 22 * i + 18),
        u1: be16(s, 2 + 22 * i + 20),
    }
}

/// Decodes the whole movie list. Succeeds exactly when the declared
/// count of twenty-two-byte records fits in the input.
pub fn parse_mlst(s: &[u8]) -> (r: Result<Vec<MovieMeta>, MhkError>)
    ensures
        match r {
            Ok(v) => {
                &&& s@.len() >= 2
                &&& 2 + 22 * (be16(s@, 0) as int) <= s@.len()
                &&& v@.len() == be16(s@, 0)
                &&& forall|i: int| 0 <= i < v@.len() ==> (#[trigger] v@[i]) == movie_at(s@, i)
            },
            Err(e) => {
                &&& s@.len() < 2 || 2 + 22 * (be16(s@, 0) as int) > s@.len()
                &&& e matches MhkError::InvalidFormat(_)
            },
        },
{
    if s.len() < 2 {
        return Err(MhkError::InvalidFormat("short MLST record"));
    }
    let count = crate::bytes::read_be16(s, 0) as usize;
    if (s.len() - 2) / 22 < count {
        return Err(MhkError::InvalidFormat("short MLST record"));
    }
    proof {
        vstd::arithmetic::div_mod::lemma_fundamental_div_mod((s@.len() - 2) as int, 22);
    }
    let mut v: Vec<MovieMeta> = Vec::new();
    let mut i: usize = 0;
    while i < count
        invariant
            i <= count,
            count == be16(s@, 0),
            2 + 22 * count <= s@.len(),
            v@.len() == i,
            forall|k: int| 0 <= k < i ==> (#[trigger] v@[k]) == movie_at(s@, k),
        decreases count - i,
    {
        let base = 2 + 22 * i;
        let rec = MovieMeta {
            index: crate::bytes::read_be16(s, base),
            movie_id: crate::bytes::read_be16(s, base + 2),
            code: crate::bytes::read_be16(s, base + 4),
            left: crate::bytes::read_be16(s, base + 6),
            top: crate::bytes::read_be16(s, base + 8),
            u0_0: crate::bytes::read_be16(s, base + 10),
            u0_1: crate::bytes::read_be16(s, base + 12),
            u0_2: crate::bytes::read_be16(s, base + 14),
            looping: crate::bytes::read_be16(s, base + 16),
            volume: crate::bytes::read_be16(s, base + 18),
            u1: crate::bytes::read_be16(s, base + 20),
        };
        proof {
            assert(rec == movie_at(s@, i as int));
        }
        v.push(rec);
        i = i + 1;
    }
    Ok(v)
}

} // verus!
