//! Checksum finalization: the save file ends in the CRC-32 of every byte
//! before the trailing 4-byte slot. The checksum itself comes from an
//! outside crate; its value is named, not restated.

use vstd::prelude::*;

verus! {

/// The CRC-32 (reflected polynomial 0xEDB88320, all-ones initial value and
/// final XOR) of a byte sequence: a function of the bytes alone.
pub uninterp spec fn crc32_of(data: Seq<u8>) -> u32;

/// Relies on crc32fast::hash: the CRC-32 of the bytes, depending on the
/// bytes alone.
#[verifier::external_body]
pub(crate) fn crc32(data: &[u8]) -> (r: u32)
    ensures
        r == crc32_of(data@),
{
    crc32fast::hash(data)
}

} // verus!
