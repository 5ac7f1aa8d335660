//! The embedded payload: the archive, compressed as one Snappy block.

use vstd::prelude::*;
use crate::archive::{Archive, RecordModel};
use crate::errors::{ErrorModel, WrapperError};
use crate::format::{decode_archive, decoded_archive};

verus! {

/// The error of `snap`. Its content is not looked into.
#[verifier::external_type_specification]
#[verifier::external_body]
pub struct ExSnapError(snap::Error);

/// The bytes that `snap` decompresses `compressed` to, as one raw Snappy
/// block; `None` where it refuses the block.
pub uninterp spec fn snap_decompressed(compressed: Seq<u8>) -> Option<Seq<u8>>;

/// `snap::raw::Decoder::decompress_vec` on a decoder of its own. Nothing is
/// claimed of which blocks the decoder accepts, only that the outcome is the
/// one that [`snap_decompressed`] names: the same block always gives the same
/// bytes, or is always refused.
#[verifier::external_body]
fn snap_decompress(compressed: &[u8]) -> (raw: Result<Vec<u8>, snap::Error>)
    ensures
        match raw {
            Ok(bytes) => snap_decompressed(compressed@) == Some(bytes@),
            Err(_) => snap_decompressed(compressed@) is None,
        },
{
    snap::raw::Decoder::new().decompress_vec(compressed)
}

/// The archive that a payload holds: what the block decompresses to, read as
/// an archive. `None` where either step fails.
pub open spec fn payload_archive(payload: Seq<u8>) -> Option<Seq<RecordModel>> {
    match snap_decompressed(payload) {
        Some(raw) => decoded_archive(raw),
        None => None,
    }
}

/// Unpacks the payload in memory: decompresses it and reads the archive. A
/// payload that does not decompress, or that decompresses to anything but an
/// archive, is refused as `PayloadDecompressFailed`; no record is handed out
/// then, so none of it is ever written.
pub fn decompress_payload(payload: &[u8]) -> (unpacked: Result<Archive, WrapperError>)
    ensures
        match unpacked {
            Ok(archive) => payload_archive(payload@) == Some(archive@),
            Err(error) => error@ == ErrorModel::PayloadDecompressFailed && payload_archive(
                payload@,
            ) is None,
        },
{
    match snap_decompress(payload) {
        Ok(raw) => decode_archive(raw.as_slice()),
        Err(_) => Err(WrapperError::PayloadDecompressFailed),
    }
}

} // verus!
