//! EDID base-block decoder: a pure function from the first 128 bytes of a
//! monitor's identification data to the fields this library uses.

use vstd::prelude::*;
use vstd::slice::slice_to_vec;
use vstd::utf8::{decode_utf8, valid_utf8};
use crate::text::{hex_fixed, hex_fixed_bytes, lossy_text, opt_text, text_of, trim_bounds, trim_spaces};

verus! {

/// Length of the EDID base block.
pub const EDID_BLOCK_LEN: usize = 128;

/// Why a buffer yields no identity.
#[derive(Debug, Clone, Copy, PartialEq, Eq, Structural)]
pub enum EdidError {
    /// Shorter than a base block, or the header bytes are wrong.
    InvalidOrShortEdid,
}

/// Display shape derived from the physical size.
#[derive(Debug, Clone, Copy, PartialEq, Eq, Structural)]
pub enum AspectRatio {
    Wide16x9,
    Wide16x10,
    Standard4x3,
    Ultrawide21x9,
    /// Width over height, in hundredths, rounded half up.
    Other { hundredths: u32 },
}

/// Physical size in centimetres.
#[derive(Debug, Clone, Copy, PartialEq, Eq, Structural)]
pub struct SizeCm {
    pub width: u8,
    pub height: u8,
}

/// Active pixels of a timing.
#[derive(Debug, Clone, Copy, PartialEq, Eq, Structural)]
pub struct Resolution {
    pub width: u16,
    pub height: u16,
}

/// EDID structure version and revision.
#[derive(Debug, Clone, Copy, PartialEq, Eq, Structural)]
pub struct EdidVersion {
    pub version: u8,
    pub revision: u8,
}

/// What the decoder extracts from one EDID.
#[derive(Debug, Clone)]
pub struct MonitorIdentity {
    /// Three-letter PNP vendor code.
    pub manufacturer: Option<String>,
    /// Text of the first non-empty monitor-name descriptor.
    pub model: Option<String>,
    /// Text of the first non-empty serial descriptor, else the serial
    /// number field as eight upper-case hex digits.
    pub serial: String,
    pub manufacture_year: Option<u16>,
    pub manufacture_week: Option<u8>,
    pub version: EdidVersion,
    pub size_cm: Option<SizeCm>,
    pub aspect_ratio: Option<AspectRatio>,
    /// Active size of the first detailed timing.
    pub resolution: Option<Resolution>,
    /// The video input definition byte.
    pub video_input: u8,
}

/// Mathematical content of a `MonitorIdentity`.
pub struct IdentityView {
    pub manufacturer: Option<Seq<char>>,
    pub model: Option<Seq<char>>,
    pub serial: Seq<char>,
    pub manufacture_year: Option<u16>,
    pub manufacture_week: Option<u8>,
    pub version: EdidVersion,
    pub size_cm: Option<SizeCm>,
    pub aspect_ratio: Option<AspectRatio>,
    pub resolution: Option<Resolution>,
    pub video_input: u8,
}

impl View for MonitorIdentity {
    type V = IdentityView;

    open spec fn view(&self) -> IdentityView {
        IdentityView {
            manufacturer: opt_text(self.manufacturer),
            model: opt_text(self.model),
            serial: self.serial@,
            manufacture_year: self.manufacture_year,
            manufacture_week: self.manufacture_week,
            version: self.version,
            size_cm: self.size_cm,
            aspect_ratio: self.aspect_ratio,
            resolution: self.resolution,
            video_input: self.video_input,
        }
    }
}

/// When the bytes `t` are valid UTF-8, `o` holds exactly the text they
/// encode.
pub open spec fn decoded_as(o: Option<String>, t: Option<Seq<u8>>) -> bool {
    match t {
        Some(x) => valid_utf8(x) ==> o is Some && o->Some_0@ == decode_utf8(x),
        None => true,
    }
}

/// At least a base block, starting `00 FF .. .. .. .. .. 00`.
pub open spec fn header_valid(b: Seq<u8>) -> bool {
    &&& b.len() >= 128
    &&& b[0] == 0x00
    &&& b[1] == 0xFF
    &&& b[7] == 0x00
}

/// Bytes 8 and 9 as a big-endian word.
pub open spec fn vendor_word(b: Seq<u8>) -> nat {
    b[8] as nat * 256 + b[9] as nat
}

/// The three 5-bit letter fields of the vendor word, first letter first.
pub open spec fn vendor_fields(b: Seq<u8>) -> Seq<nat> {
    let w = vendor_word(b);
    seq![(w / 1024) % 32, (w / 32) % 32, w % 32]
}

/// The vendor code, when all three fields are letters `A`..`Z`.
pub open spec fn manufacturer_code(b: Seq<u8>) -> Option<Seq<u8>> {
    let f = vendor_fields(b);
    if 1 <= f[0] <= 26 && 1 <= f[1] <= 26 && 1 <= f[2] <= 26 {
        Some(seq![(f[0] + 0x40) as u8, (f[1] + 0x40) as u8, (f[2] + 0x40) as u8])
    } else {
        None
    }
}

/// Index of the first line feed or NUL in `s`, or its length.
pub open spec fn text_end(s: Seq<u8>) -> nat
    decreases s.len(),
{
    if s.len() == 0 || s[0] == 0x0A || s[0] == 0x00 {
        0
    } else {
        1 + text_end(s.drop_first())
    }
}

/// Descriptor text: up to the first line feed or NUL, without surrounding
/// whitespace.
pub open spec fn descriptor_text(s: Seq<u8>) -> Seq<u8> {
    trim_spaces(s.subrange(0, text_end(s) as int))
}

/// Offset of the `k`-th 18-byte descriptor slot.
pub open spec fn slot_start(k: nat) -> int {
    54 + 18 * (k as int)
}

/// Slot `k` is a display descriptor carrying `tag`.
pub open spec fn slot_has_tag(b: Seq<u8>, k: nat, tag: u8) -> bool {
    let s = slot_start(k);
    &&& b[s] == 0x00
    &&& b[s + 1] == 0x00
    &&& b[s + 2] == 0x00
    &&& b[s + 3] == tag
}

/// Text held in slot `k`.
pub open spec fn slot_text(b: Seq<u8>, k: nat) -> Seq<u8> {
    descriptor_text(b.subrange(slot_start(k) + 5, slot_start(k) + 18))
}

/// Text of the first slot from `k` on that carries `tag` and non-empty text.
pub open spec fn find_descriptor(b: Seq<u8>, tag: u8, k: nat) -> Option<Seq<u8>>
    decreases 4 - k,
{
    if k >= 4 {
        None
    } else if slot_has_tag(b, k, tag) && slot_text(b, k).len() > 0 {
        Some(slot_text(b, k))
    } else {
        find_descriptor(b, tag, k + 1)
    }
}

/// Tag of a monitor-name descriptor.
pub const TAG_MONITOR_NAME: u8 = 0xFC;
/// Tag of a serial-string descriptor.
pub const TAG_SERIAL: u8 = 0xFF;

/// The serial-number field, bytes 12 to 15 big-endian.
pub open spec fn serial_number(b: Seq<u8>) -> nat {
    b[12] as nat * 16777216 + b[13] as nat * 65536 + b[14] as nat * 256 + b[15] as nat
}

/// The serial as text bytes.
pub open spec fn serial_bytes(b: Seq<u8>) -> Seq<u8> {
    match find_descriptor(b, TAG_SERIAL, 0) {
        Some(t) => t,
        None => hex_fixed(serial_number(b), 8),
    }
}

/// `w / h` lies within a tenth of `n / d`.
pub open spec fn near_ratio(w: int, h: int, n: int, d: int) -> bool {
    let diff = w * d - n * h;
    10 * (if diff < 0 { -diff } else { diff }) < h * d
}

/// Shape of a `w` by `h` screen, both positive.
pub open spec fn aspect_of(w: int, h: int) -> AspectRatio {
    if near_ratio(w, h, 16, 9) {
        AspectRatio::Wide16x9
    } else if near_ratio(w, h, 16, 10) {
        AspectRatio::Wide16x10
    } else if near_ratio(w, h, 4, 3) {
        AspectRatio::Standard4x3
    } else if near_ratio(w, h, 21, 9) {
        AspectRatio::Ultrawide21x9
    } else {
        AspectRatio::Other { hundredths: ((200 * w + h) / (2 * h)) as u32 }
    }
}

/// Active pixels of the first detailed timing, as bytes 58, 61 and 62 hold
/// them.
pub open spec fn active_pixels(b: Seq<u8>) -> (int, int) {
    (b[58] * 16 + b[62] / 16, b[61] * 16 + b[62] % 16)
}

/// The identity that a valid EDID describes.
pub open spec fn edid_identity(b: Seq<u8>) -> IdentityView {
    let (hw, vw) = active_pixels(b);
    IdentityView {
        manufacturer: match manufacturer_code(b) {
            Some(c) => Some(lossy_text(c)),
            None => None,
        },
        model: match find_descriptor(b, TAG_MONITOR_NAME, 0) {
            Some(t) => Some(lossy_text(t)),
            None => None,
        },
        serial: lossy_text(serial_bytes(b)),
        manufacture_year: if b[17] > 0 { Some((b[17] + 1990) as u16) } else { None },
        manufacture_week: if 1 <= b[16] <= 54 { Some(b[16]) } else { None },
        version: EdidVersion { version: b[18], revision: b[19] },
        size_cm: if b[21] > 0 && b[22] > 0 { Some(SizeCm { width: b[21], height: b[22] }) } else { None },
        aspect_ratio: if b[21] > 0 && b[22] > 0 {
            Some(aspect_of(b[21] as int, b[22] as int))
        } else {
            None
        },
        resolution: if hw > 0 && vw > 0 { Some(Resolution { width: hw as u16, height: vw as u16 }) } else { None },
        video_input: b[20],
    }
}

/// Index of the first line feed or NUL in `s`, or its length.
fn text_end_index(s: &[u8]) -> (r: usize)
    ensures
        r as nat == text_end(s@),
        r <= s@.len(),
{
    let mut i: usize = 0;
    assert(s@.subrange(0, s@.len() as int) =~= s@);
    while i < s.len() && s[i] != 0x0A && s[i] != 0x00
        invariant
            i <= s@.len(),
            text_end(s@) == i + text_end(s@.subrange(i as int, s@.len() as int)),
        decreases s@.len() - i,
    {
        proof {
            let t = s@.subrange(i as int, s@.len() as int);
            assert(t.drop_first() =~= s@.subrange(i + 1, s@.len() as int));
        }
        i = i + 1;
    }
    proof {
        let t = s@.subrange(i as int, s@.len() as int);
        assert(text_end(t) == 0);
    }
    i
}

/// Bytes of the descriptor text held in `s`.
pub fn descriptor_text_bytes(s: &[u8]) -> (r: Vec<u8>)
    ensures
        r@ == descriptor_text(s@),
{
    let e = text_end_index(s);
    let head = &s[0..e];
    let (lo, hi) = trim_bounds(head);
    slice_to_vec(&head[lo..hi])
}

/// Text of a descriptor body: up to the first line feed or NUL, without
/// surrounding whitespace.
pub fn parse_descriptor_text(bytes: &[u8]) -> (r: String)
    ensures
        r@ == lossy_text(descriptor_text(bytes@)),
        valid_utf8(descriptor_text(bytes@)) ==> r@ == decode_utf8(descriptor_text(bytes@)),
{
    let t = descriptor_text_bytes(bytes);
    text_of(t.as_slice())
}

/// Text of the first descriptor slot that carries `tag` and non-empty text.
pub fn find_descriptor_text(b: &[u8], tag: u8) -> (r: Option<Vec<u8>>)
    requires
        b@.len() >= 128,
    ensures
        match r {
            Some(v) => find_descriptor(b@, tag, 0) == Some(v@),
            None => find_descriptor(b@, tag, 0) is None,
        },
{
    let mut k: usize = 0;
    while k < 4
        invariant
            k <= 4,
            b@.len() >= 128,
            find_descriptor(b@, tag, 0) == find_descriptor(b@, tag, k as nat),
        decreases 4 - k,
    {
        let s: usize = 54 + 18 * k;
        if b[s] == 0x00 && b[s + 1] == 0x00 && b[s + 2] == 0x00 && b[s + 3] == tag {
            let t = descriptor_text_bytes(&b[s + 5..s + 18]);
            if t.len() > 0 {
                return Some(t);
            }
        }
        k = k + 1;
    }
    None
}

/// Vendor code of an EDID, when its three letter fields are letters.
pub fn manufacturer_bytes(b: &[u8]) -> (r: Option<Vec<u8>>)
    requires
        b@.len() >= 10,
    ensures
        match r {
            Some(v) => manufacturer_code(b@) == Some(v@),
            None => manufacturer_code(b@) is None,
        },
{
    let w: u32 = b[8] as u32 * 256 + b[9] as u32;
    let f0: u32 = (w / 1024) % 32;
    let f1: u32 = (w / 32) % 32;
    let f2: u32 = w % 32;
    if 1 <= f0 && f0 <= 26 && 1 <= f1 && f1 <= 26 && 1 <= f2 && f2 <= 26 {
        let mut v: Vec<u8> = Vec::new();
        v.push((f0 + 0x40) as u8);
        v.push((f1 + 0x40) as u8);
        v.push((f2 + 0x40) as u8);
        assert(v@ =~= manufacturer_code(b@)->Some_0);
        Some(v)
    } else {
        None
    }
}

/// Shape of a `w` by `h` screen.
pub fn aspect_ratio_of(w: u8, h: u8) -> (r: AspectRatio)
    requires
        w > 0,
        h > 0,
    ensures
        r == aspect_of(w as int, h as int),
{
    let w: u32 = w as u32;
    let h: u32 = h as u32;
    if near(w, h, 16, 9) {
        AspectRatio::Wide16x9
    } else if near(w, h, 16, 10) {
        AspectRatio::Wide16x10
    } else if near(w, h, 4, 3) {
        AspectRatio::Standard4x3
    } else if near(w, h, 21, 9) {
        AspectRatio::Ultrawide21x9
    } else {
        AspectRatio::Other { hundredths: (200 * w + h) / (2 * h) }
    }
}

fn near(w: u32, h: u32, n: u32, d: u32) -> (r: bool)
    requires
        w < 256,
        h < 256,
        n <= 21,
        d <= 10,
    ensures
        r == near_ratio(w as int, h as int, n as int, d as int),
{
    assert(w * d <= 255 * 10) by (nonlinear_arith)
        requires
            w < 256,
            d <= 10,
    ;
    assert(n * h <= 21 * 255) by (nonlinear_arith)
        requires
            h < 256,
            n <= 21,
    ;
    assert(h * d <= 255 * 10) by (nonlinear_arith)
        requires
            h < 256,
            d <= 10,
    ;
    let a: u32 = w * d;
    let c: u32 = n * h;
    let diff: u32 = if a >= c {
        a - c
    } else {
        c - a
    };
    10 * diff < h * d
}

/// Decodes an EDID base block. Fails exactly when the buffer is shorter
/// than a base block or its header bytes are wrong; otherwise the identity
/// is the one the bytes describe.
pub fn decode_edid(b: &[u8]) -> (r: Result<MonitorIdentity, EdidError>)
    ensures
        r is Ok <==> header_valid(b@),
        r is Ok ==> r->Ok_0@ == edid_identity(b@),
        r is Ok ==> decoded_as(r->Ok_0.manufacturer, manufacturer_code(b@)),
        r is Ok ==> decoded_as(r->Ok_0.model, find_descriptor(b@, TAG_MONITOR_NAME, 0)),
        r is Ok ==> decoded_as(Some(r->Ok_0.serial), Some(serial_bytes(b@))),
        r is Err ==> r == Err::<MonitorIdentity, EdidError>(EdidError::InvalidOrShortEdid),
{
    if b.len() < EDID_BLOCK_LEN || b[0] != 0x00 || b[1] != 0xFF || b[7] != 0x00 {
        return Err(EdidError::InvalidOrShortEdid);
    }
    let manufacturer = match manufacturer_bytes(b) {
        Some(v) => Some(text_of(v.as_slice())),
        None => None,
    };
    let model = match find_descriptor_text(b, TAG_MONITOR_NAME) {
        Some(v) => Some(text_of(v.as_slice())),
        None => None,
    };
    let serial_text = match find_descriptor_text(b, TAG_SERIAL) {
        Some(v) => v,
        None => {
            let n: u32 = b[12] as u32 * 16777216 + b[13] as u32 * 65536 + b[14] as u32 * 256
                + b[15] as u32;
            hex_fixed_bytes(n, 8)
        },
    };
    let serial = text_of(serial_text.as_slice());
    let manufacture_year = if b[17] > 0 {
        Some(b[17] as u16 + 1990)
    } else {
        None
    };
    let manufacture_week = if 1 <= b[16] && b[16] <= 54 {
        Some(b[16])
    } else {
        None
    };
    let (size_cm, aspect_ratio) = if b[21] > 0 && b[22] > 0 {
        (Some(SizeCm { width: b[21], height: b[22] }), Some(aspect_ratio_of(b[21], b[22])))
    } else {
        (None, None)
    };
    let hw: u16 = b[58] as u16 * 16 + b[62] as u16 / 16;
    let vw: u16 = b[61] as u16 * 16 + b[62] as u16 % 16;
    let resolution = if hw > 0 && vw > 0 {
        Some(Resolution { width: hw, height: vw })
    } else {
        None
    };
    let id = MonitorIdentity {
        manufacturer,
        model,
        serial,
        manufacture_year,
        manufacture_week,
        version: EdidVersion { version: b[18], revision: b[19] },
        size_cm,
        aspect_ratio,
        resolution,
        video_input: b[20],
    };
    proof {
        assert(id@.serial == edid_identity(b@).serial);
        assert(id@ == edid_identity(b@));
    }
    Ok(id)
}

/// Vendor code, monitor name and serial of an EDID: the serial-string
/// descriptor, or else the serial number as eight upper-case hex digits.
pub fn parse_edid(edid: &[u8]) -> (r: Result<(Option<String>, Option<String>, Option<String>), EdidError>)
    ensures
        r is Ok <==> header_valid(edid@),
        r is Ok ==> {
            let (m, n, s) = r->Ok_0;
            &&& opt_text(m) == edid_identity(edid@).manufacturer
            &&& opt_text(n) == edid_identity(edid@).model
            &&& opt_text(s) == Some(edid_identity(edid@).serial)
            &&& decoded_as(m, manufacturer_code(edid@))
            &&& decoded_as(n, find_descriptor(edid@, TAG_MONITOR_NAME, 0))
            &&& decoded_as(s, Some(serial_bytes(edid@)))
        },
        r is Err ==> r->Err_0 == EdidError::InvalidOrShortEdid,
{
    match decode_edid(edid) {
        Ok(id) => Ok((id.manufacturer, id.model, Some(id.serial))),
        Err(e) => Err(e),
    }
}

proof fn lemma_find_descriptor_base_block(a: Seq<u8>, b: Seq<u8>, tag: u8, k: nat)
    requires
        a.len() >= 128,
        b.len() >= 128,
        a.subrange(0, 128) == b.subrange(0, 128),
    ensures
        find_descriptor(a, tag, k) == find_descriptor(b, tag, k),
    decreases 4 - k,
{
    if k < 4 {
        let s = slot_start(k);
        assert(a[s] == a.subrange(0, 128)[s]);
        assert(b[s] == b.subrange(0, 128)[s]);
        assert(a[s + 1] == a.subrange(0, 128)[s + 1]);
        assert(b[s + 1] == b.subrange(0, 128)[s + 1]);
        assert(a[s + 2] == a.subrange(0, 128)[s + 2]);
        assert(b[s + 2] == b.subrange(0, 128)[s + 2]);
        assert(a[s + 3] == a.subrange(0, 128)[s + 3]);
        assert(b[s + 3] == b.subrange(0, 128)[s + 3]);
        assert(a.subrange(s + 5, s + 18) =~= a.subrange(0, 128).subrange(s + 5, s + 18));
        assert(b.subrange(s + 5, s + 18) =~= b.subrange(0, 128).subrange(s + 5, s + 18));
        lemma_find_descriptor_base_block(a, b, tag, k + 1);
    }
}

/// Decoding is a function of the base block: two buffers that agree on
/// their first 128 bytes describe the same monitor, whatever follows.
pub proof fn lemma_identity_of_base_block(a: Seq<u8>, b: Seq<u8>)
    requires
        a.len() >= 128,
        b.len() >= 128,
        a.subrange(0, 128) == b.subrange(0, 128),
    ensures
        header_valid(a) == header_valid(b),
        edid_identity(a) == edid_identity(b),
{
    assert forall|i: int| 0 <= i < 128 implies a[i] == b[i] by {
        assert(a[i] == a.subrange(0, 128)[i]);
        assert(b[i] == b.subrange(0, 128)[i]);
    }
    lemma_find_descriptor_base_block(a, b, TAG_MONITOR_NAME, 0);
    lemma_find_descriptor_base_block(a, b, TAG_SERIAL, 0);
}

} // verus!
