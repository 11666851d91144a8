//! The card resource: a name reference, a zip-mode flag, and the card's
//! event-handler script.

use vstd::prelude::*;

use crate::bytes::{be16, be16_signed, take_i16, take_u16};
use crate::error::MhkError;
use super::script::{deserialize_handlers, handlers_spec, view_handlers, Command, Event};

verus! {

/// Marker for the card resource type.
#[derive(Clone, Copy, Debug, PartialEq, Eq, Hash, Structural)]
pub struct TCard;

/// One decoded card.
#[derive(Debug, PartialEq, Eq)]
pub struct Card {
    pub name_rec: i16,
    pub zip_mode_place: u16,
    pub script: Vec<(Event, Vec<Command>)>,
}

/// Decodes one card: two fixed fields, then its handler table, which is
/// decoded exactly as the handler grammar spec says. Succeeds exactly
/// when the fixed fields are present and the grammar accepts the rest.
pub fn parse_card(s: &[u8]) -> (r: Result<Card, MhkError>)
    ensures
        r is Ok <==> s@.len() >= 4 && handlers_spec(s@, 4) is Some,
        match r {
            Ok(c) => {
                &&& c.name_rec == be16_signed(s@, 0)
                &&& c.zip_mode_place == be16(s@, 2)
                &&& (handlers_spec(s@, 4) matches Some((models, _)) && view_handlers(c.script@)
                    == models)
                &&& c.script@.len() == be16(s@, 4)
            },
            Err(e) => e matches MhkError::InvalidFormat(_),
        },
{
    let mut pos: usize = 0;
    let name_rec = match take_i16(s, &mut pos) {
        Ok(v) => v,
        Err(e) => {
            return Err(e);
        },
    };
    let zip_mode_place = match take_u16(s, &mut pos) {
        Ok(v) => v,
        Err(e) => {
            return Err(e);
        },
    };
    let script = match deserialize_handlers(s, &mut pos) {
        Ok(v) => v,
        Err(e) => {
            return Err(e);
        },
    };
    proof {
        super::script::lemma_handlers_spec_advances(s@, 4);
        super::script::lemma_view_handlers_len(script@);
    }
    Ok(Card { name_rec, zip_mode_place, script })
}

} // verus!
