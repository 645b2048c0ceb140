//! DDC/CI frames: building requests with their checksum and reading the
//! monitor's replies. The bus itself is driven by the caller, which writes a
//! request, waits the settle delay given here, then reads the reply.

use vstd::prelude::*;

verus! {

/// I2C slave address of the DDC/CI command channel.
pub const DDC_ADDR: u16 = 0x37;
/// I2C slave address of the EDID memory.
pub const EDID_ADDR: u16 = 0x50;
/// VCP feature code of the luminance control.
pub const VCP_BRIGHTNESS: u8 = 0x10;
/// Seed of every request checksum: the monitor's address as the host sees it.
pub const CHECKSUM_SEED: u8 = 0x6E;
/// First byte of every reply.
pub const REPLY_ADDR: u8 = 0x6E;
/// Wait between a Get/Set VCP request and its reply, in milliseconds.
pub const VCP_SETTLE_MS: u64 = 50;
/// Wait between a capabilities request and its reply, in milliseconds.
pub const CAPABILITIES_SETTLE_MS: u64 = 200;
/// Wait between writing the EDID offset and reading the block, in milliseconds.
pub const EDID_SETTLE_MS: u64 = 10;
/// Size of a Get VCP Feature reply.
pub const VCP_REPLY_LEN: usize = 12;
/// Size of the buffer a capabilities reply is read into.
pub const CAPABILITIES_REPLY_LEN: usize = 256;

/// XOR of all bytes of `s`.
pub open spec fn xor_fold(s: Seq<u8>) -> u8
    decreases s.len(),
{
    if s.len() == 0 {
        0
    } else {
        xor_fold(s.drop_last()) ^ s.last()
    }
}

/// Checksum byte that closes a request whose other bytes are `req`.
pub open spec fn request_checksum(req: Seq<u8>) -> u8 {
    CHECKSUM_SEED ^ xor_fold(req)
}

/// `req` followed by its checksum.
pub open spec fn framed(req: Seq<u8>) -> Seq<u8> {
    req.push(request_checksum(req))
}

/// Get VCP Feature request for `code`.
pub open spec fn get_vcp_frame(code: u8) -> Seq<u8> {
    framed(seq![0x51u8, 0x02u8, 0x01u8, code])
}

/// Set VCP Feature request writing `value` (high byte zero) to `code`.
pub open spec fn set_vcp_frame(code: u8, value: u8) -> Seq<u8> {
    framed(seq![0x51u8, 0x04u8, 0x03u8, code, 0x00u8, value])
}

/// Capabilities Request for the first fragment.
pub open spec fn capabilities_frame() -> Seq<u8> {
    framed(seq![0x51u8, 0x01u8, 0xF3u8])
}

/// Checksum of a request: the seed XOR every byte.
pub fn checksum(req: &[u8]) -> (r: u8)
    ensures
        r == request_checksum(req@),
{
    let mut acc: u8 = 0;
    let mut i: usize = 0;
    while i < req.len()
        invariant
            i <= req@.len(),
            acc == xor_fold(req@.subrange(0, i as int)),
        decreases req@.len() - i,
    {
        assert(req@.subrange(0, i + 1).drop_last() =~= req@.subrange(0, i as int));
        acc = acc ^ req[i];
        i = i + 1;
    }
    assert(req@.subrange(0, req@.len() as int) =~= req@);
    CHECKSUM_SEED ^ acc
}

/// `req` with its checksum appended.
pub fn frame(req: &[u8]) -> (r: Vec<u8>)
    ensures
        r@ == framed(req@),
{
    let c = checksum(req);
    let mut v = vstd::slice::slice_to_vec(req);
    v.push(c);
    v
}

/// Get VCP Feature request for `code`.
pub fn get_vcp_request(code: u8) -> (r: Vec<u8>)
    ensures
        r@ == get_vcp_frame(code),
{
    let req: [u8; 4] = [0x51, 0x02, 0x01, code];
    let r = frame(&req);
    assert(req@ =~= seq![0x51u8, 0x02u8, 0x01u8, code]);
    r
}

/// Set VCP Feature request writing `value` to `code`.
pub fn set_vcp_request(code: u8, value: u8) -> (r: Vec<u8>)
    ensures
        r@ == set_vcp_frame(code, value),
{
    let req: [u8; 6] = [0x51, 0x04, 0x03, code, 0x00, value];
    let r = frame(&req);
    assert(req@ =~= seq![0x51u8, 0x04u8, 0x03u8, code, 0x00u8, value]);
    r
}

/// Capabilities Request.
pub fn capabilities_request() -> (r: Vec<u8>)
    ensures
        r@ == capabilities_frame(),
{
    let req: [u8; 3] = [0x51, 0x01, 0xF3];
    let r = frame(&req);
    assert(req@ =~= seq![0x51u8, 0x01u8, 0xF3u8]);
    r
}

/// A request closed by its checksum XORs, checksum included, to the seed.
pub proof fn lemma_checksum_round_trip(req: Seq<u8>)
    ensures
        xor_fold(framed(req)) == CHECKSUM_SEED,
{
    let x = xor_fold(req);
    assert(framed(req).drop_last() =~= req);
    assert(x ^ (0x6Eu8 ^ x) == 0x6Eu8) by (bit_vector);
}


/// Current and maximum value of a VCP feature, low bytes.
#[derive(Debug, Clone, Copy, PartialEq, Eq, Structural)]
pub struct VcpReading {
    pub current: u8,
    pub maximum: u8,
}

/// Failures of one DDC/CI exchange.
#[derive(Debug, Clone)]
pub enum DdcError {
    /// The bus device could not be opened.
    DeviceOpenFailed { device: String, message: String },
    /// A write or read on the bus failed.
    TransportIo { device: String, message: String },
    /// The reply is too short to hold a feature value.
    ShortReply { len: usize },
    /// The reply names another feature than the one asked for.
    ProtocolMismatch { expected: u8, got: u8 },
    /// The reply does not start with the monitor's address byte.
    InvalidHeader { got: u8 },
    /// The declared data length is zero or runs past the reply.
    InvalidLength { declared: u8 },
    /// No printable text is left of a capabilities reply.
    EmptyOrCorruptCapabilities,
}

/// What a Get VCP Feature reply `resp` says about feature `code`.
pub open spec fn vcp_reply_reading(resp: Seq<u8>, code: u8) -> Option<VcpReading> {
    if resp.len() >= 10 && resp[4] == code {
        Some(VcpReading { current: resp[9], maximum: resp[7] })
    } else {
        None
    }
}

/// Reads a Get VCP Feature reply for `code`: byte 4 echoes the feature,
/// bytes 6..8 hold the maximum and bytes 8..10 the current value, both
/// big-endian, of which the low byte is kept.
pub fn parse_vcp_reply(resp: &[u8], code: u8) -> (r: Result<VcpReading, DdcError>)
    ensures
        resp@.len() < 10 ==> r == Err::<VcpReading, DdcError>(
            DdcError::ShortReply { len: resp@.len() as usize },
        ),
        resp@.len() >= 10 && resp@[4] != code ==> r == Err::<VcpReading, DdcError>(
            DdcError::ProtocolMismatch { expected: code, got: resp@[4] },
        ),
        r is Ok <==> vcp_reply_reading(resp@, code) is Some,
        r is Ok ==> r->Ok_0 == vcp_reply_reading(resp@, code)->Some_0,
{
    if resp.len() < 10 {
        return Err(DdcError::ShortReply { len: resp.len() });
    }
    if resp[4] != code {
        return Err(DdcError::ProtocolMismatch { expected: code, got: resp[4] });
    }
    Ok(VcpReading { current: resp[9], maximum: resp[7] })
}

/// Printable ASCII.
pub open spec fn is_printable(c: u8) -> bool {
    0x20 <= c <= 0x7E
}

/// Index of the first NUL in `s`, or its length.
pub open spec fn nul_end(s: Seq<u8>) -> nat
    decreases s.len(),
{
    if s.len() == 0 || s[0] == 0x00 {
        0
    } else {
        1 + nul_end(s.drop_first())
    }
}

/// The printable bytes of `s`, in order.
pub open spec fn keep_printable(s: Seq<u8>) -> Seq<u8>
    decreases s.len(),
{
    if s.len() == 0 {
        s
    } else if is_printable(s.last()) {
        keep_printable(s.drop_last()).push(s.last())
    } else {
        keep_printable(s.drop_last())
    }
}

/// Capabilities text of a payload: its printable bytes before the first
/// NUL, without surrounding spaces.
pub open spec fn clean_capabilities_spec(s: Seq<u8>) -> Seq<u8> {
    crate::text::trim_spaces(keep_printable(s.subrange(0, nul_end(s) as int)))
}

/// Payload of a capabilities reply: from offset 3 up to the checksum.
pub open spec fn capabilities_payload(resp: Seq<u8>) -> Seq<u8> {
    resp.subrange(3, 2 + resp[1] as int)
}

/// The reply's header and declared length are sound.
pub open spec fn capabilities_reply_framed(resp: Seq<u8>) -> bool {
    &&& resp.len() >= 4
    &&& resp[0] == REPLY_ADDR
    &&& resp[1] != 0
    &&& resp[1] + 3 <= resp.len()
}

/// Cleans a capabilities payload: keeps printable ASCII, stops at the first
/// NUL, and trims surrounding spaces.
pub fn clean_capabilities(payload: &[u8]) -> (r: Vec<u8>)
    ensures
        r@ == clean_capabilities_spec(payload@),
{
    let mut kept: Vec<u8> = Vec::new();
    let mut i: usize = 0;
    assert(payload@.subrange(0, payload@.len() as int) =~= payload@);
    while i < payload.len() && payload[i] != 0x00
        invariant
            i <= payload@.len(),
            nul_end(payload@) == i + nul_end(payload@.subrange(i as int, payload@.len() as int)),
            kept@ == keep_printable(payload@.subrange(0, i as int)),
        decreases payload@.len() - i,
    {
        proof {
            let t = payload@.subrange(i as int, payload@.len() as int);
            assert(t.drop_first() =~= payload@.subrange(i + 1, payload@.len() as int));
            assert(payload@.subrange(0, i + 1).drop_last() =~= payload@.subrange(0, i as int));
        }
        let c = payload[i];
        if 0x20 <= c && c <= 0x7E {
            kept.push(c);
        }
        i = i + 1;
    }
    proof {
        let t = payload@.subrange(i as int, payload@.len() as int);
        assert(nul_end(t) == 0);
    }
    let (lo, hi) = crate::text::trim_bounds(kept.as_slice());
    vstd::slice::slice_to_vec(&kept.as_slice()[lo..hi])
}

/// Reads a capabilities reply: it starts with the monitor's address, byte 1
/// declares the data length, and the payload runs from offset 3 up to the
/// checksum. The result is the cleaned payload, which must not be empty.
pub fn parse_capabilities_reply(resp: &[u8]) -> (r: Result<Vec<u8>, DdcError>)
    ensures
        (resp@.len() < 4 || resp@[0] != REPLY_ADDR) ==> r == Err::<Vec<u8>, DdcError>(
            DdcError::InvalidHeader { got: if resp@.len() > 0 { resp@[0] } else { 0 } },
        ),
        resp@.len() >= 4 && resp@[0] == REPLY_ADDR && !capabilities_reply_framed(resp@) ==> r
            == Err::<Vec<u8>, DdcError>(DdcError::InvalidLength { declared: resp@[1] }),
        capabilities_reply_framed(resp@) && clean_capabilities_spec(capabilities_payload(resp@)).len()
            == 0 ==> r == Err::<Vec<u8>, DdcError>(DdcError::EmptyOrCorruptCapabilities),
        capabilities_reply_framed(resp@) && clean_capabilities_spec(capabilities_payload(resp@)).len()
            > 0 ==> r is Ok && r->Ok_0@ == clean_capabilities_spec(capabilities_payload(resp@)),
{
    if resp.len() < 4 || resp[0] != REPLY_ADDR {
        let got: u8 = if resp.len() > 0 {
            resp[0]
        } else {
            0
        };
        return Err(DdcError::InvalidHeader { got });
    }
    let declared = resp[1];
    if declared == 0 || declared as usize + 3 > resp.len() {
        return Err(DdcError::InvalidLength { declared });
    }
    let end: usize = 2 + declared as usize;
    let text = clean_capabilities(&resp[3..end]);
    if text.len() == 0 {
        Err(DdcError::EmptyOrCorruptCapabilities)
    } else {
        Ok(text)
    }
}


/// Printable ASCII that neither starts nor ends with a space.
pub open spec fn is_clean_text(s: Seq<u8>) -> bool {
    &&& forall|i: int| 0 <= i < s.len() ==> is_printable(#[trigger] s[i])
    &&& s.len() > 0 ==> s[0] != 0x20 && s.last() != 0x20
}

proof fn lemma_nul_end_none(s: Seq<u8>)
    requires
        forall|i: int| 0 <= i < s.len() ==> #[trigger] s[i] != 0x00,
    ensures
        nul_end(s) == s.len(),
    decreases s.len(),
{
    if s.len() > 0 {
        assert forall|i: int| 0 <= i < s.drop_first().len() implies #[trigger] s.drop_first()[i]
            != 0x00 by {
            assert(s.drop_first()[i] == s[i + 1]);
        }
        lemma_nul_end_none(s.drop_first());
    }
}

proof fn lemma_keep_printable_all(s: Seq<u8>)
    requires
        forall|i: int| 0 <= i < s.len() ==> is_printable(#[trigger] s[i]),
    ensures
        keep_printable(s) == s,
    decreases s.len(),
{
    if s.len() > 0 {
        assert forall|i: int| 0 <= i < s.drop_last().len() implies is_printable(
            #[trigger] s.drop_last()[i],
        ) by {
            assert(s.drop_last()[i] == s[i]);
        }
        lemma_keep_printable_all(s.drop_last());
        assert(s.drop_last().push(s.last()) =~= s);
    }
}

proof fn lemma_keep_printable_printable(s: Seq<u8>)
    ensures
        forall|i: int|
            0 <= i < keep_printable(s).len() ==> is_printable(#[trigger] keep_printable(s)[i]),
    decreases s.len(),
{
    if s.len() > 0 {
        lemma_keep_printable_printable(s.drop_last());
        let p = keep_printable(s.drop_last());
        if is_printable(s.last()) {
            assert forall|i: int| 0 <= i < p.push(s.last()).len() implies is_printable(
                #[trigger] p.push(s.last())[i],
            ) by {
                if i < p.len() {
                    assert(p.push(s.last())[i] == p[i]);
                }
            }
        }
    }
}

/// Cleaning leaves clean text unchanged.
pub proof fn lemma_clean_text_unchanged(s: Seq<u8>)
    requires
        is_clean_text(s),
    ensures
        clean_capabilities_spec(s) == s,
{
    lemma_nul_end_none(s);
    assert(s.subrange(0, s.len() as int) =~= s);
    lemma_keep_printable_all(s);
    crate::text::lemma_trim_trimmed(s);
}

/// Whatever it is given, cleaning yields clean text, so cleaning twice is
/// cleaning once.
pub proof fn lemma_clean_idempotent(s: Seq<u8>)
    ensures
        is_clean_text(clean_capabilities_spec(s)),
        clean_capabilities_spec(clean_capabilities_spec(s)) == clean_capabilities_spec(s),
{
    let k = keep_printable(s.subrange(0, nul_end(s) as int));
    lemma_keep_printable_printable(s.subrange(0, nul_end(s) as int));
    crate::text::lemma_trim_shape(k);
    let c = clean_capabilities_spec(s);
    assert forall|i: int| 0 <= i < c.len() implies is_printable(#[trigger] c[i]) by {
        let t = k.subrange(0, k.len() - crate::text::trail_spaces(k));
        assert(c[i] == k[i + crate::text::lead_spaces(t)]);
    }
    lemma_clean_text_unchanged(c);
}

} // verus!
