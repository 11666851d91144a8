//! The hotspot resource: a count-prefixed list of hotspot records, each a
//! fixed part followed by that hotspot's event-handler script.

use vstd::prelude::*;

use crate::bytes::{be16, take_i16, take_u16};
use crate::error::MhkError;
use super::script::{deserialize_handlers, Command, Event};

verus! {

/// Marker for the hotspot resource type.
#[derive(Clone, Copy, Debug, PartialEq, Eq, Hash, Structural)]
pub struct THspt;

/// One decoded hotspot: its screen rectangle, cursor, ordering fields,
/// and script.
#[derive(Debug, PartialEq, Eq)]
pub struct Hotspot {
    pub blst_id: u16,
    pub name_rec: i16,
    pub left: i16,
    pub top: i16,
    pub right: i16,
    pub bottom: i16,
    pub u0: u16,
    pub mouse_cursor: u16,
    pub index: u16,
    pub u1: i16,
    pub zip_mode: u16,
    pub script: Vec<(Event, Vec<Command>)>,
}

/// Decodes the whole hotspot list. The trailing variable-length script of
/// each record forces a record-by-record walk.
pub fn parse_hspt(s: &[u8]) -> (r: Result<Vec<Hotspot>, MhkError>)
    ensures
        match r {
            Ok(v) => s@.len() >= 2 && v@.len() == be16(s@, 0),
            Err(e) => e matches MhkError::InvalidFormat(_),
        },
{
    let mut pos: usize = 0;
    let count = match take_u16(s, &mut pos) {
        Ok(v) => v,
        Err(e) => {
            return Err(e);
        },
    };
    let mut v: Vec<Hotspot> = Vec::new();
    let mut i: usize = 0;
    while i < count as usize
        invariant
            i <= count as usize,
            v@.len() == i,
            pos <= s@.len(),
        decreases count as usize - i,
    {
        let blst_id = match take_u16(s, &mut pos) {
            Ok(x) => x,
            Err(e) => {
                return Err(e);
            },
        };
        let name_rec = match take_i16(s, &mut pos) {
            Ok(x) => x,
            Err(e) => {
                return Err(e);
            },
        };
        let left = match take_i16(s, &mut pos) {
            Ok(x) => x,
            Err(e) => {
                return Err(e);
            },
        };
        let top = match take_i16(s, &mut pos) {
            Ok(x) => x,
            Err(e) => {
                return Err(e);
            },
        };
        let right = match take_i16(s, &mut pos) {
            Ok(x) => x,
            Err(e) => {
                return Err(e);
            },
        };
        let bottom = match take_i16(s, &mut pos) {
            Ok(x) => x,
            Err(e) => {
                return Err(e);
            },
        };
        let u0 = match take_u16(s, &mut pos) {
            Ok(x) => x,
            Err(e) => {
                return Err(e);
            },
        };
        let mouse_cursor = match take_u16(s, &mut pos) {
            Ok(x) => x,
            Err(e) => {
                return Err(e);
            },
        };
        let index = match take_u16(s, &mut pos) {
            Ok(x) => x,
            Err(e) => {
                return Err(e);
            },
        };
        let u1 = match take_i16(s, &mut pos) {
            Ok(x) => x,
            Err(e) => {
                return Err(e);
            },
        };
        let zip_mode = match take_u16(s, &mut pos) {
            Ok(x) => x,
            Err(e) => {
                return Err(e);
            },
        };
        let ghost hp = pos as int;
        let script = match deserialize_handlers(s, &mut pos) {
            Ok(x) => x,
            Err(e) => {
                return Err(e);
            },
        };
        proof {
            super::script::lemma_handlers_spec_advances(s@, hp);
        }
        v.push(
            Hotspot {
                blst_id,
                name_rec,
                left,
                top,
                right,
                bottom,
                u0,
                mouse_cursor,
                index,
                u1,
                zip_mode,
                script,
            },
        );
        i = i + 1;
    }
    Ok(v)
}

} // verus!
