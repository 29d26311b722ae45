//! Identification of the device.
//!
//! The VID/PID pair does **not** identify the product: `291d:385d` is shared by
//! S9 PRO, G9 PRO, V9 and V9 PRO. The name decides, by content, because the
//! kernel exposes two forms of it for the same device.

use vstd::prelude::*;
use vstd::utf8::valid_utf8;

use crate::texto::{contains_bytes, find_bytes};

verus! {

/// Vendor id of the 2.4GHz dongle. Shared with the siblings.
pub const VENDOR_ID: u16 = 0x291D;

/// Product id of the 2.4GHz dongle. Shared with the siblings.
pub const PRODUCT_ID: u16 = 0x385D;

/// `"V9 PRO"`, the part the name must contain.
pub open spec fn name_must_contain() -> Seq<u8> {
    seq![0x56u8, 0x39u8, 0x20u8, 0x50u8, 0x52u8, 0x4Fu8]
}

/// `"V9 PRO 2"`, the part that disqualifies: the V9 PRO 2 takes another path
/// in the firmware.
pub open spec fn name_must_not_contain() -> Seq<u8> {
    seq![0x56u8, 0x39u8, 0x20u8, 0x50u8, 0x52u8, 0x4Fu8, 0x20u8, 0x32u8]
}

/// The identification rule: our ids, a name that is UTF-8, that does not
/// contain `"V9 PRO 2"` and that contains `"V9 PRO"`.
pub open spec fn spec_is_supported(vid: u16, pid: u16, name: Seq<u8>) -> bool {
    &&& vid == VENDOR_ID
    &&& pid == PRODUCT_ID
    &&& valid_utf8(name)
    &&& !contains_bytes(name, name_must_not_contain())
    &&& contains_bytes(name, name_must_contain())
}

/// `std::str::from_utf8`, asked only whether it succeeds.
///
/// Trusted: the result is taken to be `Ok` exactly when the bytes are valid
/// UTF-8 as vstd's `valid_utf8` defines it, which is what std documents
/// ("Returns `Err` if the slice is not UTF-8").
#[verifier::external_body]
fn is_utf8(bytes: &[u8]) -> (r: bool)
    ensures
        r == valid_utf8(bytes@),
{
    std::str::from_utf8(bytes).is_ok()
}

/// Says whether the device is the MCHOSE V9 PRO.
///
/// The name comes as raw bytes from the USB descriptor, that is, it is input
/// controlled by the device: bytes that are not UTF-8 are not recognised, and
/// nothing panics. The exclusion is checked before the inclusion, because
/// `"MCHOSE V9 PRO 2"` contains `"V9 PRO"`.
pub fn is_supported(vid: u16, pid: u16, product_name: &[u8]) -> (r: bool)
    ensures
        r == spec_is_supported(vid, pid, product_name@),
{
    if vid != VENDOR_ID || pid != PRODUCT_ID {
        return false;
    }
    if !is_utf8(product_name) {
        return false;
    }
    let excluded: [u8; 8] = [0x56, 0x39, 0x20, 0x50, 0x52, 0x4F, 0x20, 0x32];
    let included: [u8; 6] = [0x56, 0x39, 0x20, 0x50, 0x52, 0x4F];
    assert(excluded@ =~= name_must_not_contain());
    assert(included@ =~= name_must_contain());
    !find_bytes(product_name, excluded.as_slice()) && find_bytes(product_name, included.as_slice())
}

/// Matching by VID/PID alone is never enough: whatever is recognised carries
/// `"V9 PRO"` in its name.
pub proof fn law_ids_alone_do_not_identify(vid: u16, pid: u16, name: Seq<u8>)
    requires
        spec_is_supported(vid, pid, name),
    ensures
        contains_bytes(name, name_must_contain()),
{
}

/// A name that contains `"V9 PRO 2"` is never recognised, whatever else it holds.
pub proof fn law_v9_pro_2_is_excluded(vid: u16, pid: u16, name: Seq<u8>)
    requires
        contains_bytes(name, name_must_not_contain()),
    ensures
        !spec_is_supported(vid, pid, name),
{
}

/// Another VID or PID is never recognised, whatever the name.
pub proof fn law_other_ids_are_excluded(vid: u16, pid: u16, name: Seq<u8>)
    requires
        vid != VENDOR_ID || pid != PRODUCT_ID,
    ensures
        !spec_is_supported(vid, pid, name),
{
}

/// Matching is by content, not by equality: the name the kernel's ioctl gives
/// (`"C-Media Electronics Inc MCHOSE V9 PRO"`) and the one udev gives
/// (`"MCHOSE V9 PRO"`) are both recognised, and so is any UTF-8 name that
/// extends a recognised name with a prefix, as long as the prefix does not
/// complete a `"V9 PRO 2"`.
pub proof fn law_prefix_keeps_recognition(prefix: Seq<u8>, name: Seq<u8>)
    requires
        spec_is_supported(VENDOR_ID, PRODUCT_ID, name),
        valid_utf8(prefix + name),
        !contains_bytes(prefix + name, name_must_not_contain()),
    ensures
        spec_is_supported(VENDOR_ID, PRODUCT_ID, prefix + name),
{
    let i = choose|i: int| 0 <= i && i + name_must_contain().len() <= name.len() && #[trigger] name.subrange(i, i + name_must_contain().len()) == name_must_contain();
    let j = prefix.len() + i;
    assert((prefix + name).subrange(j, j + name_must_contain().len()) =~= name.subrange(i, i + name_must_contain().len()));
}

} // verus!
