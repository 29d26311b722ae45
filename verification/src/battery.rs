//! Decoding of the battery answer.
//!
//! The same decoder serves the requested answer and the spontaneous push: the
//! headset sends this report by itself when its state changes.

use vstd::prelude::*;

use crate::request::{CMD_BATTERY, REPORT_BATTERY};
use crate::{delimited, reject, rejected_view, NoReading};

verus! {

/// Number of leading bytes of the battery channel that carry identified fields.
pub const BATTERY_FIELDS: usize = 4;

/// Charge state reported by the headset.
#[derive(Debug, Clone, Copy, PartialEq, Eq)]
#[non_exhaustive]
pub enum ChargeState {
    /// In use, off the charger.
    Discharging,
    /// Charging. Rarely seen: the headset drops the 2.4GHz link when plugged in.
    Charging,
    /// Battery full.
    Full,
    /// Asleep.
    Asleep,
    /// A byte the firmware sent that is not mapped yet, kept as it came.
    Unknown(u8),
}

/// The charge state that a status byte stands for.
pub open spec fn spec_charge_state(byte: u8) -> ChargeState {
    if byte == 2 {
        ChargeState::Discharging
    } else if byte == 3 {
        ChargeState::Charging
    } else if byte == 4 {
        ChargeState::Full
    } else if byte == 26 {
        ChargeState::Asleep
    } else {
        ChargeState::Unknown(byte)
    }
}

impl ChargeState {
    /// Reads a status byte: `2` discharging, `3` charging, `4` full, `26`
    /// asleep, anything else kept as `Unknown`.
    pub fn from_byte(byte: u8) -> (s: ChargeState)
        ensures
            s == spec_charge_state(byte),
    {
        match byte {
            2 => ChargeState::Discharging,
            3 => ChargeState::Charging,
            4 => ChargeState::Full,
            26 => ChargeState::Asleep,
            other => ChargeState::Unknown(other),
        }
    }
}

/// A valid battery reading.
#[derive(Debug, Clone, Copy, PartialEq, Eq)]
#[non_exhaustive]
pub struct BatteryReading {
    /// Charge in percent; always within `0..=100` when it comes from the decoder.
    pub percent: u8,
    /// Charge state.
    pub state: ChargeState,
}

impl BatteryReading {
    /// Builds a reading. The percentage is not checked here; the decoder does that.
    pub fn new(percent: u8, state: ChargeState) -> (r: BatteryReading)
        ensures
            r.percent == percent,
            r.state == state,
    {
        BatteryReading { percent, state }
    }
}

/// Whether `buf` is a battery answer the decoder accepts: report `0x55`,
/// command `0x65`, a percentage and a status byte, the percentage at most 100.
pub open spec fn battery_accepts(buf: Seq<u8>) -> bool {
    &&& buf.len() >= 4
    &&& buf[0] == REPORT_BATTERY
    &&& buf[1] == CMD_BATTERY
    &&& buf[2] <= 100
}

/// The reading an accepted battery answer carries.
pub open spec fn spec_battery_reading(buf: Seq<u8>) -> BatteryReading {
    BatteryReading { percent: buf[2], state: spec_charge_state(buf[3]) }
}

/// Reads the battery answer.
///
/// Bytes past the fourth are ignored. A refusal carries the first four bytes
/// (or fewer) when the packet is on the battery channel, and nothing when it is
/// foreign traffic (media keys, telephony) or empty.
pub fn decode_battery(buf: &[u8]) -> (r: Result<BatteryReading, NoReading<'_>>)
    ensures
        r.is_ok() <==> battery_accepts(buf@),
        r matches Ok(reading) ==> reading == spec_battery_reading(buf@),
        r matches Err(e) ==> rejected_view(e.rejected) == delimited(buf@, REPORT_BATTERY, 4),
{
    let ours = buf.len() > 0 && buf[0] == REPORT_BATTERY;
    if !ours || buf.len() < 2 || buf[1] != CMD_BATTERY {
        return Err(reject(ours, buf, BATTERY_FIELDS));
    }
    if buf.len() < 4 {
        return Err(reject(ours, buf, BATTERY_FIELDS));
    }
    let percent = buf[2];
    let state = buf[3];
    if percent > 100 {
        return Err(reject(ours, buf, BATTERY_FIELDS));
    }
    Ok(BatteryReading { percent, state: ChargeState::from_byte(state) })
}

/// A reading that the decoder hands out never shows more than 100%: a wrong
/// number on the screen is worse than no number.
pub proof fn law_reading_is_a_percentage(buf: Seq<u8>)
    requires
        battery_accepts(buf),
    ensures
        spec_battery_reading(buf).percent <= 100,
{
}

/// The decoder reads only the first four bytes: anything appended to an
/// answer changes neither whether it is accepted nor what it says.
pub proof fn law_battery_ignores_excess(buf: Seq<u8>, extra: Seq<u8>)
    requires
        buf.len() >= 4,
    ensures
        battery_accepts(buf + extra) == battery_accepts(buf),
        battery_accepts(buf) ==> spec_battery_reading(buf + extra) == spec_battery_reading(buf),
        delimited(buf + extra, REPORT_BATTERY, 4) == delimited(buf, REPORT_BATTERY, 4),
{
    assert((buf + extra).subrange(0, 4) =~= buf.subrange(0, 4));
}

/// Foreign traffic (media keys, telephony, or an empty buffer) is refused
/// without a trace, and a truncated packet of our channel is refused with the
/// bytes it has.
pub proof fn law_battery_refusals(buf: Seq<u8>)
    ensures
        (buf.len() == 0 || buf[0] != REPORT_BATTERY) ==> !battery_accepts(buf) && delimited(buf, REPORT_BATTERY, 4) is None,
        (0 < buf.len() < 4 && buf[0] == REPORT_BATTERY) ==> !battery_accepts(buf) && delimited(buf, REPORT_BATTERY, 4) == Some(buf),
{
    if 0 < buf.len() < 4 && buf[0] == REPORT_BATTERY {
        assert(buf.subrange(0, buf.len() as int) =~= buf);
    }
}

/// An accepted answer is read as it came: the percentage is byte 2, unchanged,
/// and the state is byte 3 read as `2` discharging, `3` charging, `4` full,
/// `26` asleep, any other byte kept as `Unknown`.
pub proof fn law_reading_is_the_packet(buf: Seq<u8>)
    requires
        battery_accepts(buf),
    ensures
        spec_battery_reading(buf).percent == buf[2],
        buf[3] == 2 ==> spec_battery_reading(buf).state == ChargeState::Discharging,
        buf[3] == 3 ==> spec_battery_reading(buf).state == ChargeState::Charging,
        buf[3] == 4 ==> spec_battery_reading(buf).state == ChargeState::Full,
        buf[3] == 26 ==> spec_battery_reading(buf).state == ChargeState::Asleep,
        buf[3] != 2 && buf[3] != 3 && buf[3] != 4 && buf[3] != 26
            ==> spec_battery_reading(buf).state == ChargeState::Unknown(buf[3]),
{
}

/// Exactly the answers that start `0x55 0x65`, carry a percentage and a
/// status byte, and whose percentage is at most 100 are accepted.
pub proof fn law_accepted_answers(buf: Seq<u8>)
    ensures
        battery_accepts(buf) <==> (buf.len() >= 4 && buf[0] == 0x55 && buf[1] == 0x65 && buf[2] <= 100),
{
}

} // verus!
