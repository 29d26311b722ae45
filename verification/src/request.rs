//! The packets sent to the device.
//!
//! The API is closed on purpose: exactly two constructors, and no function
//! accepts a report id or a payload from the caller.

use vstd::prelude::*;

verus! {

/// Report id of the battery channel (usage page `0xFF90`), input and output.
pub const REPORT_BATTERY: u8 = 0x55;

/// Report id of the firmware channel (usage page `0xFF22`), feature.
pub const REPORT_FIRMWARE: u8 = 0xAA;

/// Battery query command, inside report `0x55`.
pub const CMD_BATTERY: u8 = 0x65;

/// Size of every buffer exchanged with the device: one report id byte plus
/// the 63 payload bytes that the descriptor declares.
pub const REPORT_LEN: usize = 64;

/// Mandatory wait, in milliseconds, between `SET_FEATURE` and `GET_FEATURE`
/// of report `0xAA`. Reading earlier returns zeros.
pub const FEATURE_ROUNDTRIP_WAIT_MS: u64 = 300;

/// Deadline, in milliseconds, for the device to answer the battery query
/// (the vendor's default, `timeOut = 2e3`).
pub const BATTERY_RESPONSE_TIMEOUT_MS: u64 = 2000;

/// Whose firmware version is asked for.
#[derive(Debug, Clone, Copy, PartialEq, Eq)]
pub enum FirmwareTarget {
    /// The USB receiver.
    Dongle,
    /// The headset.
    Headset,
}

/// Selector byte of a target inside the request.
pub open spec fn spec_selector(target: FirmwareTarget) -> u8 {
    match target {
        FirmwareTarget::Dongle => 1,
        FirmwareTarget::Headset => 0,
    }
}

impl FirmwareTarget {
    /// Byte that selects the target inside the request.
    pub fn selector(self) -> (b: u8)
        ensures
            b == spec_selector(self),
    {
        match self {
            FirmwareTarget::Dongle => 1,
            FirmwareTarget::Headset => 0,
        }
    }
}

/// A report of `REPORT_LEN` bytes that starts with `prefix` and is zero after it.
pub open spec fn is_request(buf: Seq<u8>, prefix: Seq<u8>) -> bool {
    &&& buf.len() == REPORT_LEN
    &&& buf.subrange(0, prefix.len() as int) == prefix
    &&& forall|i: int| prefix.len() <= i < REPORT_LEN ==> buf[i] == 0
}

/// Builds the battery query: `[0x55, 0x65, 0x01, 0x00 x 61]`.
pub fn battery_request() -> (buf: [u8; 64])
    ensures
        is_request(buf@, seq![REPORT_BATTERY, CMD_BATTERY, 0x01u8]),
{
    let mut buf = [0u8; 64];
    buf[0] = REPORT_BATTERY;
    buf[1] = CMD_BATTERY;
    buf[2] = 0x01;
    assert(buf@.subrange(0, 3) =~= seq![REPORT_BATTERY, CMD_BATTERY, 0x01u8]);
    buf
}

/// Builds the firmware version query for the dongle or the headset:
/// `[0xAA, 0x01, selector, 0x00 x 61]`.
pub fn firmware_request(target: FirmwareTarget) -> (buf: [u8; 64])
    ensures
        is_request(buf@, seq![REPORT_FIRMWARE, 0x01u8, spec_selector(target)]),
{
    let mut buf = [0u8; 64];
    buf[0] = REPORT_FIRMWARE;
    buf[1] = 0x01;
    buf[2] = target.selector();
    assert(buf@.subrange(0, 3) =~= seq![REPORT_FIRMWARE, 0x01u8, spec_selector(target)]);
    buf
}

} // verus!
