//! How raw resource bytes become typed data: a format parses one resource
//! type's bytes, and a writing format re-encodes parsed data for export.

use vstd::prelude::*;

use crate::error::MhkError;

verus! {

/// Decodes resources of type `R` into `D` values from their raw bytes.
pub trait Format<R, D>: Sized {
    /// What a successful parse of `input` yields: every implementation
    /// ties its results to the bytes through this relation, so callers
    /// through the trait inherit the decoder's guarantees.
    spec fn parses(&self, res: &R, input: Seq<u8>, d: D) -> bool;

    /// The file extension this format uses when resources are stored as
    /// individual files, if any.
    fn extension(&self, res: &R) -> Option<&'static str>;

    /// Parses one resource's bytes.
    fn parse(&self, res: &R, input: &[u8]) -> (r: Result<D, MhkError>)
        ensures
            r matches Ok(d) ==> self.parses(res, input@, d),
    ;
}

/// Re-encodes data parsed by the format `Fi` into this format's byte
/// form.
pub trait FormatWrite<Fi, R, D>: Format<R, D> {
    /// Parses `input` with `fmti` and encodes the result in this format.
    fn convert(&self, fmti: &Fi, res: &R, input: &[u8]) -> Result<Vec<u8>, MhkError>;
}

/// A wrapper marking plain-old-data records, so that record formats and
/// bitmap formats can coexist on one type.
#[derive(Debug, PartialEq, Eq)]
pub struct Record<T>(pub T);

/// A format pair: one member for bitmaps, one for records.
#[derive(Debug, Clone, Copy, PartialEq, Eq)]
pub struct MixedFormat<B, R> {
    pub bitmap: B,
    pub record: R,
}

} // verus!
