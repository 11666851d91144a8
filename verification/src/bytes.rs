//! Big-endian fixed-width integer readers over in-memory byte sequences.
//! Every multi-byte integer in the container format is big-endian.

use vstd::prelude::*;

verus! {

/// The big-endian 16-bit integer stored at offset `i` of `s`.
pub open spec fn be16(s: Seq<u8>, i: int) -> u16
    recommends
        0 <= i,
        i + 2 <= s.len(),
{
    (s[i] * 256 + s[i + 1]) as u16
}

/// The big-endian 32-bit integer stored at offset `i` of `s`.
pub open spec fn be32(s: Seq<u8>, i: int) -> u32
    recommends
        0 <= i,
        i + 4 <= s.len(),
{
    (s[i] * 0x1000000 + s[i + 1] * 0x10000 + s[i + 2] * 0x100 + s[i + 3]) as u32
}

/// The little-endian 16-bit integer stored at offset `i` of `s`.
pub open spec fn le16(s: Seq<u8>, i: int) -> u16
    recommends
        0 <= i,
        i + 2 <= s.len(),
{
    (s[i + 1] * 256 + s[i]) as u16
}

/// The little-endian 32-bit integer stored at offset `i` of `s`.
pub open spec fn le32(s: Seq<u8>, i: int) -> u32
    recommends
        0 <= i,
        i + 4 <= s.len(),
{
    (s[i + 3] * 0x1000000 + s[i + 2] * 0x10000 + s[i + 1] * 0x100 + s[i]) as u32
}

/// Reads the big-endian `u16` at offset `i`.
pub fn read_be16(s: &[u8], i: usize) -> (r: u16)
    requires
        i + 2 <= s@.len(),
    ensures
        r == be16(s@, i as int),
{
    let hi = s[i];
    let lo = s[i + 1];
    (hi as u16) * 256 + (lo as u16)
}

/// Reads the big-endian `u32` at offset `i`.
pub fn read_be32(s: &[u8], i: usize) -> (r: u32)
    requires
        i + 4 <= s@.len(),
    ensures
        r == be32(s@, i as int),
{
    let b0 = s[i];
    let b1 = s[i + 1];
    let b2 = s[i + 2];
    let b3 = s[i + 3];
    (b0 as u32) * 0x1000000 + (b1 as u32) * 0x10000 + (b2 as u32) * 0x100 + (b3 as u32)
}

/// Reads the little-endian `u16` at offset `i`.
pub fn read_le16(s: &[u8], i: usize) -> (r: u16)
    requires
        i + 2 <= s@.len(),
    ensures
        r == le16(s@, i as int),
{
    let lo = s[i];
    let hi = s[i + 1];
    (hi as u16) * 256 + (lo as u16)
}

/// Reads the little-endian `u32` at offset `i`.
pub fn read_le32(s: &[u8], i: usize) -> (r: u32)
    requires
        i + 4 <= s@.len(),
    ensures
        r == le32(s@, i as int),
{
    let b0 = s[i];
    let b1 = s[i + 1];
    let b2 = s[i + 2];
    let b3 = s[i + 3];
    (b3 as u32) * 0x1000000 + (b2 as u32) * 0x10000 + (b1 as u32) * 0x100 + (b0 as u32)
}

/// The big-endian 16-bit integer interpreted as a signed value, as the
/// container format stores a few signed fields.
pub open spec fn be16_signed(s: Seq<u8>, i: int) -> i16 {
    be16(s, i) as i16
}

/// Reads the big-endian `u16` at offset `i` and reinterprets it as `i16`.
pub fn read_be16_signed(s: &[u8], i: usize) -> (r: i16)
    requires
        i + 2 <= s@.len(),
    ensures
        r == be16_signed(s@, i as int),
{
    read_be16(s, i) as i16
}

/// Reads the big-endian `u16` at `*pos` and advances past it; fails
/// without moving when fewer than two bytes remain.
pub fn take_u16(s: &[u8], pos: &mut usize) -> (r: Result<u16, crate::error::MhkError>)
    ensures
        match r {
            Ok(v) => {
                &&& *old(pos) + 2 <= s@.len()
                &&& *final(pos) == *old(pos) + 2
                &&& v == be16(s@, *old(pos) as int)
            },
            Err(e) => {
                &&& *old(pos) + 2 > s@.len()
                &&& *final(pos) == *old(pos)
                &&& e matches crate::error::MhkError::InvalidFormat(_)
            },
        },
{
    if s.len() < 2 || *pos > s.len() - 2 {
        return Err(crate::error::MhkError::InvalidFormat("unexpected end of record"));
    }
    let v = read_be16(s, *pos);
    *pos = *pos + 2;
    Ok(v)
}

/// Reads the big-endian `u32` at `*pos` and advances past it; fails
/// without moving when fewer than four bytes remain.
pub fn take_u32(s: &[u8], pos: &mut usize) -> (r: Result<u32, crate::error::MhkError>)
    ensures
        match r {
            Ok(v) => {
                &&& *old(pos) + 4 <= s@.len()
                &&& *final(pos) == *old(pos) + 4
                &&& v == be32(s@, *old(pos) as int)
            },
            Err(e) => {
                &&& *old(pos) + 4 > s@.len()
                &&& *final(pos) == *old(pos)
                &&& e matches crate::error::MhkError::InvalidFormat(_)
            },
        },
{
    if s.len() < 4 || *pos > s.len() - 4 {
        return Err(crate::error::MhkError::InvalidFormat("unexpected end of record"));
    }
    let v = read_be32(s, *pos);
    *pos = *pos + 4;
    Ok(v)
}

/// Reads the big-endian `u16` at `*pos` as a signed value and advances.
pub fn take_i16(s: &[u8], pos: &mut usize) -> (r: Result<i16, crate::error::MhkError>)
    ensures
        match r {
            Ok(v) => {
                &&& *old(pos) + 2 <= s@.len()
                &&& *final(pos) == *old(pos) + 2
                &&& v == be16_signed(s@, *old(pos) as int)
            },
            Err(e) => {
                &&& *old(pos) + 2 > s@.len()
                &&& *final(pos) == *old(pos)
                &&& e matches crate::error::MhkError::InvalidFormat(_)
            },
        },
{
    match take_u16(s, pos) {
        Ok(v) => Ok(v as i16),
        Err(e) => Err(e),
    }
}

} // verus!
