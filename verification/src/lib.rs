//! MCHOSE V9 PRO headset support: the HID protocol (bytes to types and back),
//! the decisions of the device session and of hotplug supervision, the
//! applet's display state, and the pure parts of the PipeWire equalizer.
//!
//! Nothing here opens a file or talks to a device; the binary under `app/`
//! does the I/O and hands plain values to these functions.

use vstd::prelude::*;

pub mod battery;
pub mod config;
pub mod device;
pub mod discovery;
pub mod firmware;
pub mod hotplug;
pub mod install;
pub mod machine;
pub mod pipewire;
pub mod texto;
pub mod request;
pub mod state;
pub mod transport;

verus! {

/// Absence of a reading.
///
/// A prefix that does not match, a packet that is too short and content out
/// of range mean the same thing to the consumer: there is no number to show.
#[derive(Debug, Clone, Copy, PartialEq, Eq)]
pub struct NoReading<'a> {
    /// The bytes of the rejected packet, delimited by the protocol, when the
    /// packet came on one of our channels and therefore deserves a log line.
    /// `None` when the packet was not ours (media keys, telephony).
    pub rejected: Option<&'a [u8]>,
}

/// The view of a rejection: the delimited bytes, if any.
pub open spec fn rejected_view(rejected: Option<&[u8]>) -> Option<Seq<u8>> {
    match rejected {
        Some(bytes) => Some(bytes@),
        None => None,
    }
}

/// The smaller of two integers.
pub open spec fn min_int(a: int, b: int) -> int {
    if a <= b { a } else { b }
}

/// What a decoder hands back when it refuses `buf`: the first `n` bytes (or
/// fewer, if `buf` is shorter) when the packet is on the channel `report`,
/// nothing otherwise.
pub open spec fn delimited(buf: Seq<u8>, report: u8, n: int) -> Option<Seq<u8>> {
    if buf.len() > 0 && buf[0] == report {
        Some(buf.subrange(0, min_int(n, buf.len() as int)))
    } else {
        None
    }
}

/// Builds the refusal of `buf`: with the first `n` bytes when the packet is
/// ours, with nothing when it is foreign traffic.
pub fn reject<'a>(ours: bool, buf: &'a [u8], n: usize) -> (e: NoReading<'a>)
    ensures
        ours ==> rejected_view(e.rejected) == Some(buf@.subrange(0, min_int(n as int, buf@.len() as int))),
        !ours ==> e.rejected.is_none(),
{
    if ours {
        let end = if n <= buf.len() { n } else { buf.len() };
        NoReading { rejected: Some(vstd::slice::slice_subrange(buf, 0, end)) }
    } else {
        NoReading { rejected: None }
    }
}

} // verus!
