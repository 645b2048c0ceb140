//! Monitor records as the display server reports them.

use vstd::prelude::*;
use crate::edid::{decoded_as, edid_identity, find_descriptor, header_valid, manufacturer_code, parse_edid, serial_bytes, TAG_MONITOR_NAME};
use crate::text::{hex_fixed, hex_fixed_bytes, lossy_text, opt_text, text_of};

verus! {

/// A monitor as named by the display server.
#[derive(Debug, Clone)]
pub struct MonitorId {
    /// Output name, such as `DP-3`.
    pub name: String,
    /// Upper-case hex of the EDID's first 16 bytes.
    pub edid_hash: Option<String>,
}

/// What is known of one connected output.
#[derive(Debug, Clone)]
pub struct MonitorInfo {
    pub id: MonitorId,
    pub manufacturer: Option<String>,
    pub model: Option<String>,
    pub serial: Option<String>,
    /// Width and height in millimetres.
    pub size_mm: Option<(u16, u16)>,
    /// Width, height and refresh rate in millihertz.
    pub current_mode: Option<(u32, u32, u32)>,
}

/// Whether brightness can be read, and its value out of 100.
#[derive(Debug, Clone)]
pub struct BrightnessInfo {
    pub supported: bool,
    pub value: Option<u8>,
}

/// Two upper-case hex digits per byte of `b`.
pub open spec fn hex_upper(b: Seq<u8>) -> Seq<u8>
    decreases b.len(),
{
    if b.len() == 0 {
        Seq::empty()
    } else {
        hex_upper(b.drop_last()) + hex_fixed(b.last() as nat, 2)
    }
}

/// Identifying hash of an EDID: the hex of its first 16 bytes.
pub open spec fn edid_hash_of(b: Seq<u8>) -> Seq<u8> {
    hex_upper(b.subrange(0, if b.len() < 16 { b.len() as int } else { 16 }))
}

/// Two upper-case hex digits per byte.
pub fn hex_upper_bytes(b: &[u8]) -> (r: Vec<u8>)
    ensures
        r@ == hex_upper(b@),
{
    let mut r: Vec<u8> = Vec::new();
    let mut i: usize = 0;
    while i < b.len()
        invariant
            i <= b@.len(),
            r@ == hex_upper(b@.subrange(0, i as int)),
        decreases b@.len() - i,
    {
        proof {
            assert(b@.subrange(0, i + 1).drop_last() =~= b@.subrange(0, i as int));
        }
        let mut d = hex_fixed_bytes(b[i] as u32, 2);
        r.append(&mut d);
        i = i + 1;
    }
    assert(b@.subrange(0, b@.len() as int) =~= b@);
    r
}

/// The record of a connected output named `name` whose EDID property holds
/// `edid` and whose physical size is `mm_width` by `mm_height`: an empty
/// EDID gives no hash, and an EDID that does not decode gives no vendor,
/// model or serial.
pub fn monitor_info_from_output(name: String, edid: &[u8], mm_width: u32, mm_height: u32) -> (r: MonitorInfo)
    ensures
        r.id.name@ == name@,
        edid@.len() == 0 ==> r.id.edid_hash is None,
        edid@.len() > 0 ==> opt_text(r.id.edid_hash) == Some(lossy_text(edid_hash_of(edid@))),
        header_valid(edid@) ==> opt_text(r.manufacturer) == edid_identity(edid@).manufacturer
            && opt_text(r.model) == edid_identity(edid@).model
            && opt_text(r.serial) == Some(edid_identity(edid@).serial)
            && decoded_as(r.manufacturer, manufacturer_code(edid@))
            && decoded_as(r.model, find_descriptor(edid@, TAG_MONITOR_NAME, 0))
            && decoded_as(r.serial, Some(serial_bytes(edid@))),
        !header_valid(edid@) ==> r.manufacturer is None && r.model is None && r.serial is None,
        r.size_mm == Some(((mm_width % 65536) as u16, (mm_height % 65536) as u16)),
        r.current_mode is None,
{
    let mut manufacturer: Option<String> = None;
    let mut model: Option<String> = None;
    let mut serial: Option<String> = None;
    let mut edid_hash: Option<String> = None;
    if edid.len() > 0 {
        let n: usize = if edid.len() < 16 {
            edid.len()
        } else {
            16
        };
        let h = hex_upper_bytes(&edid[0..n]);
        edid_hash = Some(text_of(h.as_slice()));
        match parse_edid(edid) {
            Ok((m, d, s)) => {
                manufacturer = m;
                model = d;
                serial = s;
            },
            Err(_) => {},
        }
    }
    MonitorInfo {
        id: MonitorId { name, edid_hash },
        manufacturer,
        model,
        serial,
        size_mm: Some(((mm_width % 65536) as u16, (mm_height % 65536) as u16)),
        current_mode: None,
    }
}

} // verus!
