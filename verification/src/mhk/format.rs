//! The container-native format: parses each resource type's bytes with
//! the decoders of this crate, and re-encodes by pass-through copy, which
//! suffices for re-archiving a read-only format.

use vstd::prelude::*;

use crate::bitmap::Bitmap;
use crate::bytes::{be16, be32};
use crate::error::MhkError;
use crate::format::{Format, FormatWrite, Record};
use crate::riven::blst::{parse_blst, ButtonMeta, TBlst};
use crate::riven::card::{parse_card, Card, TCard};
use crate::riven::flst::{parse_flst, EffectMeta, TFlst};
use crate::riven::hspt::{parse_hspt, Hotspot, THspt};
use crate::riven::mlst::{parse_mlst, MovieMeta, TMlst};
use crate::riven::plst::{parse_plst, PictureMeta, TPlst};
use crate::riven::rmap::{parse_rmap, TRmap};
use crate::riven::slst::{parse_slst, SoundMeta, TSlst};
use crate::riven::tbmp::{bitmap_matches, parse_tbmp, TBmp};

verus! {

/// The Mohawk container's own resource encodings.
#[derive(Debug, PartialEq, Eq, Hash, Clone, Copy, Structural)]
pub struct MhkFormat;

/// Copies `input` unchanged: the container format is read-only, so
/// re-archiving passes the raw bytes through.
fn copy_bytes(input: &[u8]) -> (r: Vec<u8>)
    ensures
        r@ == input@,
{
    let mut v: Vec<u8> = Vec::new();
    let mut i: usize = 0;
    while i < input.len()
        invariant
            i <= input@.len(),
            v@ == input@.subrange(0, i as int),
        decreases input@.len() - i,
    {
        let b = input[i];
        v.push(b);
        proof {
            assert(input@.subrange(0, (i + 1) as int) =~= input@.subrange(0, i as int).push(b));
        }
        i = i + 1;
    }
    proof {
        assert(v@ =~= input@);
    }
    v
}

impl Format<TBmp, Bitmap> for MhkFormat {
    open spec fn parses(&self, res: &TBmp, input: Seq<u8>, d: Bitmap) -> bool {
        bitmap_matches(input, d)
    }

    fn extension(&self, _res: &TBmp) -> Option<&'static str> {
        None
    }

    fn parse(&self, _res: &TBmp, input: &[u8]) -> Result<Bitmap, MhkError> {
        if input.len() >= 0xffff_ff00 {
            return Err(MhkError::InvalidFormat("oversized tBMP resource"));
        }
        parse_tbmp(input)
    }
}

impl FormatWrite<MhkFormat, TBmp, Bitmap> for MhkFormat {
    fn convert(&self, _fmti: &MhkFormat, _res: &TBmp, input: &[u8]) -> Result<Vec<u8>, MhkError> {
        Ok(copy_bytes(input))
    }
}

impl Format<TBlst, Record<Vec<ButtonMeta>>> for MhkFormat {
    open spec fn parses(&self, res: &TBlst, input: Seq<u8>, d: Record<Vec<ButtonMeta>>) -> bool {
        &&& input.len() >= 2
        &&& d.0@.len() == be16(input, 0)
        &&& forall|i: int|
            0 <= i < d.0@.len() ==> (#[trigger] d.0@[i]) == crate::riven::blst::button_at(
                input,
                i,
            )
    }

    fn extension(&self, _res: &TBlst) -> Option<&'static str> {
        None
    }

    fn parse(&self, _res: &TBlst, input: &[u8]) -> Result<Record<Vec<ButtonMeta>>, MhkError> {
        match parse_blst(input) {
            Ok(v) => Ok(Record(v)),
            Err(e) => Err(e),
        }
    }
}

impl Format<TCard, Record<Card>> for MhkFormat {
    open spec fn parses(&self, res: &TCard, input: Seq<u8>, d: Record<Card>) -> bool {
        &&& input.len() >= 4
        &&& d.0.name_rec == crate::bytes::be16_signed(input, 0)
        &&& d.0.zip_mode_place == be16(input, 2)
        &&& crate::riven::script::handlers_spec(input, 4) matches Some((models, _))
            && crate::riven::script::view_handlers(d.0.script@) == models
    }

    fn extension(&self, _res: &TCard) -> Option<&'static str> {
        None
    }

    fn parse(&self, _res: &TCard, input: &[u8]) -> Result<Record<Card>, MhkError> {
        match parse_card(input) {
            Ok(v) => Ok(Record(v)),
            Err(e) => Err(e),
        }
    }
}

impl Format<TFlst, Record<Vec<EffectMeta>>> for MhkFormat {
    open spec fn parses(&self, res: &TFlst, input: Seq<u8>, d: Record<Vec<EffectMeta>>) -> bool {
        &&& input.len() >= 2
        &&& d.0@.len() == be16(input, 0)
        &&& forall|i: int|
            0 <= i < d.0@.len() ==> (#[trigger] d.0@[i]) == crate::riven::flst::effect_meta_at(
                input,
                i,
            )
    }

    fn extension(&self, _res: &TFlst) -> Option<&'static str> {
        None
    }

    fn parse(&self, _res: &TFlst, input: &[u8]) -> Result<Record<Vec<EffectMeta>>, MhkError> {
        match parse_flst(input) {
            Ok(v) => Ok(Record(v)),
            Err(e) => Err(e),
        }
    }
}

impl Format<THspt, Record<Vec<Hotspot>>> for MhkFormat {
    open spec fn parses(&self, res: &THspt, input: Seq<u8>, d: Record<Vec<Hotspot>>) -> bool {
        input.len() >= 2 && d.0@.len() == be16(input, 0)
    }

    fn extension(&self, _res: &THspt) -> Option<&'static str> {
        None
    }

    fn parse(&self, _res: &THspt, input: &[u8]) -> Result<Record<Vec<Hotspot>>, MhkError> {
        match parse_hspt(input) {
            Ok(v) => Ok(Record(v)),
            Err(e) => Err(e),
        }
    }
}

impl Format<TMlst, Record<Vec<MovieMeta>>> for MhkFormat {
    open spec fn parses(&self, res: &TMlst, input: Seq<u8>, d: Record<Vec<MovieMeta>>) -> bool {
        &&& input.len() >= 2
        &&& d.0@.len() == be16(input, 0)
        &&& forall|i: int|
            0 <= i < d.0@.len() ==> (#[trigger] d.0@[i]) == crate::riven::mlst::movie_at(input, i)
    }

    fn extension(&self, _res: &TMlst) -> Option<&'static str> {
        None
    }

    fn parse(&self, _res: &TMlst, input: &[u8]) -> Result<Record<Vec<MovieMeta>>, MhkError> {
        match parse_mlst(input) {
            Ok(v) => Ok(Record(v)),
            Err(e) => Err(e),
        }
    }
}

impl Format<TPlst, Record<Vec<PictureMeta>>> for MhkFormat {
    open spec fn parses(&self, res: &TPlst, input: Seq<u8>, d: Record<Vec<PictureMeta>>) -> bool {
        &&& input.len() >= 2
        &&& d.0@.len() == be16(input, 0)
        &&& forall|i: int|
            0 <= i < d.0@.len() ==> (#[trigger] d.0@[i]) == crate::riven::plst::picture_at(
                input,
                i,
            )
    }

    fn extension(&self, _res: &TPlst) -> Option<&'static str> {
        None
    }

    fn parse(&self, _res: &TPlst, input: &[u8]) -> Result<Record<Vec<PictureMeta>>, MhkError> {
        match parse_plst(input) {
            Ok(v) => Ok(Record(v)),
            Err(e) => Err(e),
        }
    }
}

impl Format<TRmap, Record<Vec<u32>>> for MhkFormat {
    open spec fn parses(&self, res: &TRmap, input: Seq<u8>, d: Record<Vec<u32>>) -> bool {
        &&& input.len() % 4 == 0
        &&& d.0@.len() == input.len() / 4
        &&& forall|i: int| 0 <= i < d.0@.len() ==> (#[trigger] d.0@[i]) == be32(input, 4 * i)
    }

    fn extension(&self, _res: &TRmap) -> Option<&'static str> {
        None
    }

    fn parse(&self, _res: &TRmap, input: &[u8]) -> Result<Record<Vec<u32>>, MhkError> {
        match parse_rmap(input) {
            Ok(v) => Ok(Record(v)),
            Err(e) => Err(e),
        }
    }
}

impl Format<TSlst, Record<Vec<SoundMeta>>> for MhkFormat {
    open spec fn parses(&self, res: &TSlst, input: Seq<u8>, d: Record<Vec<SoundMeta>>) -> bool {
        input.len() >= 2 && d.0@.len() == be16(input, 0)
    }

    fn extension(&self, _res: &TSlst) -> Option<&'static str> {
        None
    }

    fn parse(&self, _res: &TSlst, input: &[u8]) -> Result<Record<Vec<SoundMeta>>, MhkError> {
        match parse_slst(input) {
            Ok(v) => Ok(Record(v)),
            Err(e) => Err(e),
        }
    }
}

} // verus!
