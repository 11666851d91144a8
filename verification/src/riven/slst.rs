//! The sound-list resource: a count-prefixed list of ambient sound
//! records, each carrying parallel per-sound columns.

use vstd::prelude::*;

use crate::bytes::{be16, take_i16, take_u16};
use crate::error::MhkError;

verus! {

/// Marker for the sound-list resource type.
#[derive(Clone, Copy, Debug, PartialEq, Eq, Hash, Structural)]
pub struct TSlst;

/// One sound of a sound record, assembled from the record's parallel
/// columns.
#[derive(Debug, PartialEq, Eq, Clone, Copy, Structural)]
pub struct SoundMetaEntry {
    pub id: u16,
    pub volume: u16,
    pub balance: i16,
    pub u2: u16,
}

/// One ambient sound record.
#[derive(Debug, PartialEq, Eq)]
pub struct SoundMeta {
    pub index: u16,
    pub fade_flags: u16,
    pub looping: u16,
    pub global_volume: u16,
    pub u0: u16,
    pub u1: u16,
    pub sounds: Vec<SoundMetaEntry>,
}

/// Decodes the whole sound list: each record holds its index, a
/// count-prefixed id table, five fixed fields, and then one volume,
/// balance and extra column per id, zipped here into one entry per sound.
pub fn parse_slst(s: &[u8]) -> (r: Result<Vec<SoundMeta>, MhkError>)
    ensures
        match r {
            Ok(v) => s@.len() >= 2 && v@.len() == be16(s@, 0),
            Err(e) => e matches MhkError::InvalidFormat(_),
        },
{
    let mut pos: usize = 0;
    let count = match take_u16(s, &mut pos) {
        Ok(v) => v,
        Err(e) => {
            return Err(e);
        },
    };
    let mut v: Vec<SoundMeta> = Vec::new();
    let mut i: usize = 0;
    while i < count as usize
        invariant
            i <= count as usize,
            v@.len() == i,
            pos <= s@.len(),
        decreases count as usize - i,
    {
        let index = match take_u16(s, &mut pos) {
            Ok(x) => x,
            Err(e) => {
                return Err(e);
            },
        };
        let nsounds = match take_u16(s, &mut pos) {
            Ok(x) => x,
            Err(e) => {
                return Err(e);
            },
        };
        let mut ids: Vec<u16> = Vec::new();
        let mut k: usize = 0;
        while k < nsounds as usize
            invariant
                k <= nsounds as usize,
                ids@.len() == k,
                pos <= s@.len(),
            decreases nsounds as usize - k,
        {
            let id = match take_u16(s, &mut pos) {
                Ok(x) => x,
                Err(e) => {
                    return Err(e);
                },
            };
            ids.push(id);
            k = k + 1;
        }
        let fade_flags = match take_u16(s, &mut pos) {
            Ok(x) => x,
            Err(e) => {
                return Err(e);
            },
        };
        let looping = match take_u16(s, &mut pos) {
            Ok(x) => x,
            Err(e) => {
                return Err(e);
            },
        };
        let global_volume = match take_u16(s, &mut pos) {
            Ok(x) => x,
            Err(e) => {
                return Err(e);
            },
        };
        let u0 = match take_u16(s, &mut pos) {
            Ok(x) => x,
            Err(e) => {
                return Err(e);
            },
        };
        let u1 = match take_u16(s, &mut pos) {
            Ok(x) => x,
            Err(e) => {
                return Err(e);
            },
        };
        let mut volumes: Vec<u16> = Vec::new();
        let mut k2: usize = 0;
        while k2 < nsounds as usize
            invariant
                k2 <= nsounds as usize,
                volumes@.len() == k2,
                pos <= s@.len(),
            decreases nsounds as usize - k2,
        {
            let x = match take_u16(s, &mut pos) {
                Ok(x) => x,
                Err(e) => {
                    return Err(e);
                },
            };
            volumes.push(x);
            k2 = k2 + 1;
        }
        let mut balances: Vec<i16> = Vec::new();
        let mut k3: usize = 0;
        while k3 < nsounds as usize
            invariant
                k3 <= nsounds as usize,
                balances@.len() == k3,
                pos <= s@.len(),
            decreases nsounds as usize - k3,
        {
            let x = match take_i16(s, &mut pos) {
                Ok(x) => x,
                Err(e) => {
                    return Err(e);
                },
            };
            balances.push(x);
            k3 = k3 + 1;
        }
        let mut extras: Vec<u16> = Vec::new();
        let mut k4: usize = 0;
        while k4 < nsounds as usize
            invariant
                k4 <= nsounds as usize,
                extras@.len() == k4,
                pos <= s@.len(),
            decreases nsounds as usize - k4,
        {
            let x = match take_u16(s, &mut pos) {
                Ok(x) => x,
                Err(e) => {
                    return Err(e);
                },
            };
            extras.push(x);
            k4 = k4 + 1;
        }
        let mut sounds: Vec<SoundMetaEntry> = Vec::new();
        let mut k5: usize = 0;
        while k5 < nsounds as usize
            invariant
                k5 <= nsounds as usize,
                sounds@.len() == k5,
                ids@.len() == nsounds as int,
                volumes@.len() == nsounds as int,
                balances@.len() == nsounds as int,
                extras@.len() == nsounds as int,
            decreases nsounds as usize - k5,
        {
            sounds.push(
                SoundMetaEntry {
                    id: ids[k5],
                    volume: volumes[k5],
                    balance: balances[k5],
                    u2: extras[k5],
                },
            );
            k5 = k5 + 1;
        }
        v.push(SoundMeta { index, fade_flags, looping, global_volume, u0, u1, sounds });
        i = i + 1;
    }
    Ok(v)
}

} // verus!
