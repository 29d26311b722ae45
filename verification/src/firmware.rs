//! Decoding of the firmware version.

use vstd::prelude::*;

use crate::request::REPORT_FIRMWARE;
use crate::texto::{decimal, push_decimal_u8};
use crate::{delimited, reject, rejected_view, NoReading};

verus! {

/// Byte the firmware puts right after the report id in a valid answer.
pub const FIRMWARE_MARK: u8 = 0x01;

/// Number of leading bytes of the firmware channel that carry identified
/// fields: report id, mark and the four version bytes.
pub const FIRMWARE_FIELDS: usize = 6;

/// Firmware version of the dongle or of the headset.
#[derive(Debug, Clone, Copy, PartialEq, Eq)]
#[non_exhaustive]
pub struct FirmwareVersion {
    /// The four raw bytes, as they came. These are what compares when an
    /// order is needed.
    pub bytes: [u8; 4],
}

/// The vendor's textual form: each byte in decimal, concatenated.
pub open spec fn spec_vendor_string(bytes: Seq<u8>) -> Seq<char> {
    decimal(bytes[0] as nat) + decimal(bytes[1] as nat) + decimal(bytes[2] as nat) + decimal(
        bytes[3] as nat,
    )
}

impl FirmwareVersion {
    /// Builds a version from its four raw bytes.
    pub fn new(bytes: [u8; 4]) -> (v: FirmwareVersion)
        ensures
            v.bytes == bytes,
    {
        FirmwareVersion { bytes }
    }

    /// The vendor's textual form: each byte as a decimal number, concatenated.
    ///
    /// Display only: as soon as a byte passes 9 the length changes and the
    /// lexicographic order stops meaning anything. Compare `bytes` instead.
    pub fn vendor_string(&self) -> (s: String)
        ensures
            s@ == spec_vendor_string(self.bytes@),
    {
        let mut s = String::new();
        push_decimal_u8(&mut s, self.bytes[0]);
        push_decimal_u8(&mut s, self.bytes[1]);
        push_decimal_u8(&mut s, self.bytes[2]);
        push_decimal_u8(&mut s, self.bytes[3]);
        s
    }
}

/// Whether `buf` is a firmware answer the decoder accepts: report `0xAA`,
/// mark `0x01`, and the four version bytes present.
pub open spec fn firmware_accepts(buf: Seq<u8>) -> bool {
    &&& buf.len() >= 6
    &&& buf[0] == REPORT_FIRMWARE
    &&& buf[1] == FIRMWARE_MARK
}

/// Reads the answer of the firmware feature report: the version is bytes 2 to 5.
///
/// A refusal carries the first six bytes (or fewer) when the packet is on the
/// firmware channel, and nothing otherwise.
pub fn decode_firmware(buf: &[u8]) -> (r: Result<FirmwareVersion, NoReading<'_>>)
    ensures
        r.is_ok() <==> firmware_accepts(buf@),
        r matches Ok(v) ==> v.bytes@ == buf@.subrange(2, 6),
        r matches Err(e) ==> rejected_view(e.rejected) == delimited(buf@, REPORT_FIRMWARE, 6),
{
    let ours = buf.len() > 0 && buf[0] == REPORT_FIRMWARE;
    if !ours || buf.len() < 2 || buf[1] != FIRMWARE_MARK {
        return Err(reject(ours, buf, FIRMWARE_FIELDS));
    }
    if buf.len() < 6 {
        return Err(reject(ours, buf, FIRMWARE_FIELDS));
    }
    let bytes = [buf[2], buf[3], buf[4], buf[5]];
    assert(bytes@ =~= buf@.subrange(2, 6));
    Ok(FirmwareVersion { bytes })
}

/// The decoder reads only the first six bytes: anything appended to an answer
/// changes neither whether it is accepted nor the version it carries.
pub proof fn law_firmware_ignores_excess(buf: Seq<u8>, extra: Seq<u8>)
    requires
        buf.len() >= 6,
    ensures
        firmware_accepts(buf + extra) == firmware_accepts(buf),
        (buf + extra).subrange(2, 6) == buf.subrange(2, 6),
{
    assert((buf + extra).subrange(2, 6) =~= buf.subrange(2, 6));
}

/// Every answer shorter than six bytes is refused: the version field ends at
/// index 5.
pub proof fn law_short_firmware_answers_are_refused(buf: Seq<u8>)
    requires
        buf.len() < 6,
    ensures
        !firmware_accepts(buf),
{
}

/// The textual form is at least one character per byte, and exactly one per
/// byte when every byte is below ten, which is why it orders nothing: a byte
/// above nine lengthens it.
pub proof fn law_vendor_string_length(bytes: Seq<u8>)
    requires
        bytes.len() == 4,
    ensures
        spec_vendor_string(bytes).len() >= 4,
        (forall|i: int| 0 <= i < 4 ==> bytes[i] < 10) ==> spec_vendor_string(bytes).len() == 4,
        (exists|i: int| 0 <= i < 4 && bytes[i] >= 10) ==> spec_vendor_string(bytes).len() > 4,
{
    crate::texto::lemma_decimal_len(bytes[0] as nat);
    crate::texto::lemma_decimal_len(bytes[1] as nat);
    crate::texto::lemma_decimal_len(bytes[2] as nat);
    crate::texto::lemma_decimal_len(bytes[3] as nat);
}

} // verus!
