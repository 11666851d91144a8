//! The name-table resource: parallel offset and value tables, each offset
//! locating a zero-terminated string in the trailing pool.

use vstd::prelude::*;

use crate::bytes::{be16, read_be16};
use crate::error::MhkError;

verus! {

/// Marker for the name-table resource type.
#[derive(Clone, Copy, Debug, PartialEq, Eq, Hash, Structural)]
pub struct TName;

/// One name: its sibling value from the second table and its text.
#[derive(Debug, PartialEq, Eq)]
pub struct Name {
    pub unknown: u16,
    pub name: String,
}

/// What the lossy byte-to-text conversion yields for the given bytes:
/// the result depends on the bytes alone.
pub uninterp spec fn lossy_utf8_of(bytes: Seq<u8>) -> Seq<char>;

/// Relies on String::from_utf8_lossy: converts bytes to text, replacing
/// invalid sequences, as a function of the bytes alone; no bytes yield an
/// empty text.
#[verifier::external_body]
fn utf8_lossy(bytes: &Vec<u8>) -> (r: String)
    ensures
        r@ == lossy_utf8_of(bytes@),
        bytes@.len() == 0 ==> r@.len() == 0,
{
    String::from_utf8_lossy(bytes).into_owned()
}

/// The position of the first zero byte at or after `from`, or the end of
/// `s` when none follows.
pub open spec fn zero_end(s: Seq<u8>, from: int) -> int
    recommends
        0 <= from <= s.len(),
    decreases s.len() - from,
{
    if from >= s.len() {
        s.len() as int
    } else if s[from] == 0 {
        from
    } else {
        zero_end(s, from + 1)
    }
}

/// Decodes the whole name table: a count, that many string-pool offsets,
/// that many values, then the string pool itself. Each name's text is the
/// pool's bytes from its offset up to the first zero byte, or to the end
/// of the resource when no zero follows.
pub fn parse_name(s: &[u8]) -> (r: Result<Vec<Name>, MhkError>)
    ensures
        match r {
            Ok(v) => {
                &&& s@.len() >= 2
                &&& 2 + 4 * (be16(s@, 0) as int) <= s@.len()
                &&& v@.len() == be16(s@, 0)
                &&& forall|i: int|
                    0 <= i < v@.len() ==> (#[trigger] v@[i]).unknown == be16(
                        s@,
                        2 + 2 * (be16(s@, 0) as int) + 2 * i,
                    )
                &&& forall|i: int|
                    0 <= i < v@.len() ==> {
                        let start = 2 + 4 * (be16(s@, 0) as int) + be16(s@, 2 + 2 * i) as int;
                        (#[trigger] v@[i]).name@ == (if start <= s@.len() {
                            lossy_utf8_of(s@.subrange(start, zero_end(s@, start)))
                        } else {
                            lossy_utf8_of(Seq::empty())
                        })
                    }
            },
            Err(e) => {
                &&& s@.len() < 2 || 2 + 4 * (be16(s@, 0) as int) > s@.len()
                &&& e matches MhkError::InvalidFormat(_)
            },
        },
{
    if s.len() < 2 {
        return Err(MhkError::InvalidFormat("short NAME record"));
    }
    let count = read_be16(s, 0) as usize;
    if (s.len() - 2) / 4 < count {
        return Err(MhkError::InvalidFormat("short NAME record"));
    }
    proof {
        vstd::arithmetic::div_mod::lemma_fundamental_div_mod((s@.len() - 2) as int, 4);
    }
    let pool = 2 + 4 * count;
    let mut v: Vec<Name> = Vec::new();
    let mut i: usize = 0;
    while i < count
        invariant
            i <= count,
            count == be16(s@, 0),
            2 + 4 * count <= s@.len(),
            s@.len() <= usize::MAX,
            pool == 2 + 4 * count,
            v@.len() == i,
            forall|k: int|
                0 <= k < i ==> (#[trigger] v@[k]).unknown == be16(s@, 2 + 2 * count + 2 * k),
            forall|k: int|
                0 <= k < i ==> {
                    let start = 2 + 4 * (count as int) + be16(s@, 2 + 2 * k) as int;
                    (#[trigger] v@[k]).name@ == (if start <= s@.len() {
                        lossy_utf8_of(s@.subrange(start, zero_end(s@, start)))
                    } else {
                        lossy_utf8_of(Seq::empty())
                    })
                },
        decreases count - i,
    {
        let off = read_be16(s, 2 + 2 * i) as usize;
        let unknown = read_be16(s, 2 + 2 * count + 2 * i);
        let mut bytes: Vec<u8> = Vec::new();
        if pool + off <= s.len() {
            let start = pool + off;
            let mut p = start;
            while p < s.len() && s[p] != 0
                invariant
                    start <= p <= s@.len(),
                    zero_end(s@, start as int) == zero_end(s@, p as int),
                    bytes@ == s@.subrange(start as int, p as int),
                decreases s@.len() - p,
            {
                let b = s[p];
                bytes.push(b);
                proof {
                    assert(s@.subrange(start as int, (p + 1) as int) =~= s@.subrange(
                        start as int,
                        p as int,
                    ).push(b));
                }
                p = p + 1;
            }
            proof {
                assert(zero_end(s@, p as int) == p);
                assert(bytes@ =~= s@.subrange(start as int, zero_end(s@, start as int)));
            }
        } else {
            proof {
                assert(bytes@ =~= Seq::<u8>::empty());
            }
        }
        let name = utf8_lossy(&bytes);
        v.push(Name { unknown, name });
        i = i + 1;
    }
    Ok(v)
}

} // verus!
