//! A monitor that answers DDC/CI frames from a table of VCP registers, for
//! exercising the protocol without hardware.

use vstd::prelude::*;
use crate::ddc::{framed, get_vcp_request, VcpReading};
use crate::text::same_bytes;

verus! {

/// Number of VCP feature codes.
pub const FEATURE_COUNT: usize = 256;

/// VCP registers: a current and a maximum value per feature code.
pub struct SimulatedMonitor {
    current: Vec<u8>,
    maximum: Vec<u8>,
}

/// Contents of a `SimulatedMonitor`.
pub struct SimView {
    pub current: Seq<u8>,
    pub maximum: Seq<u8>,
}

impl View for SimulatedMonitor {
    type V = SimView;

    closed spec fn view(&self) -> SimView {
        SimView { current: self.current@, maximum: self.maximum@ }
    }
}

/// One register pair per feature code.
pub open spec fn sim_wf(m: SimView) -> bool {
    m.current.len() == FEATURE_COUNT && m.maximum.len() == FEATURE_COUNT
}

/// A Get VCP Feature request, with a sound checksum.
pub open spec fn is_get_request(f: Seq<u8>) -> bool {
    f.len() == 5 && f == framed(seq![0x51u8, 0x02u8, 0x01u8, f[3]])
}

/// A Set VCP Feature request, with a sound checksum.
pub open spec fn is_set_request(f: Seq<u8>) -> bool {
    f.len() == 7 && f == framed(seq![0x51u8, 0x04u8, 0x03u8, f[3], f[4], f[5]])
}

/// Registers after frame `f`: a set request stores its low value byte.
pub open spec fn sim_after(m: SimView, f: Seq<u8>) -> SimView {
    if is_set_request(f) {
        SimView { current: m.current.update(f[3] as int, f[5]), maximum: m.maximum }
    } else {
        m
    }
}

/// Reply to a Get VCP Feature request for `code`; the checksum byte is left
/// zero, as replies are read without checking it.
pub open spec fn sim_reply(m: SimView, code: u8) -> Seq<u8> {
    seq![
        0x6Eu8,
        0x88u8,
        0x02u8,
        0x00u8,
        code,
        0x00u8,
        0x00u8,
        m.maximum[code as int],
        0x00u8,
        m.current[code as int],
        0x00u8,
        0x00u8,
    ]
}

impl SimulatedMonitor {
    pub open spec fn wf(&self) -> bool {
        sim_wf(self@)
    }

    /// A monitor whose features all read zero out of `maximum`.
    pub fn new(maximum: u8) -> (r: SimulatedMonitor)
        ensures
            r.wf(),
            forall|i: int| 0 <= i < FEATURE_COUNT ==> r@.current[i] == 0 && r@.maximum[i] == maximum,
    {
        let mut current: Vec<u8> = Vec::new();
        let mut maxima: Vec<u8> = Vec::new();
        let mut i: usize = 0;
        while i < FEATURE_COUNT
            invariant
                i <= FEATURE_COUNT,
                current@.len() == i,
                maxima@.len() == i,
                forall|j: int| 0 <= j < i ==> current@[j] == 0 && maxima@[j] == maximum,
            decreases FEATURE_COUNT - i,
        {
            current.push(0);
            maxima.push(maximum);
            i = i + 1;
        }
        SimulatedMonitor { current, maximum: maxima }
    }

    /// Current value of feature `code`.
    pub fn current_value(&self, code: u8) -> (r: u8)
        requires
            self.wf(),
        ensures
            r == self@.current[code as int],
    {
        self.current[code as usize]
    }

    /// Answers one request frame: a get request gets a reply, a set request
    /// updates the register, anything else is ignored.
    pub fn handle(&mut self, frame: &[u8]) -> (reply: Option<Vec<u8>>)
        requires
            old(self).wf(),
        ensures
            final(self).wf(),
            final(self)@ == sim_after(old(self)@, frame@),
            is_get_request(frame@) ==> reply is Some && reply->Some_0@ == sim_reply(
                old(self)@,
                frame@[3],
            ),
            !is_get_request(frame@) ==> reply is None,
    {
        if frame.len() == 5 {
            let expected = get_vcp_request(frame[3]);
            if same_bytes(frame, expected.as_slice()) {
                let code = frame[3] as usize;
                let mut r: Vec<u8> = Vec::new();
                r.push(0x6E);
                r.push(0x88);
                r.push(0x02);
                r.push(0x00);
                r.push(frame[3]);
                r.push(0x00);
                r.push(0x00);
                r.push(self.maximum[code]);
                r.push(0x00);
                r.push(self.current[code]);
                r.push(0x00);
                r.push(0x00);
                assert(r@ =~= sim_reply(self@, frame@[3]));
                return Some(r);
            }
        } else if frame.len() == 7 {
            let hi = frame[4];
            let expected = crate::ddc::frame(&[0x51, 0x04, 0x03, frame[3], hi, frame[5]]);
            assert([0x51u8, 0x04u8, 0x03u8, frame@[3], hi, frame@[5]]@ =~= seq![0x51u8, 0x04u8, 0x03u8, frame@[3], frame@[4], frame@[5]]);
            if same_bytes(frame, expected.as_slice()) {
                self.current.set(frame[3] as usize, frame[5]);
            }
        }
        None
    }
}

/// Writing a value to a feature and reading the feature back gives that
/// value, with the maximum untouched.
pub proof fn lemma_set_then_get(m: SimView, code: u8, value: u8)
    requires
        sim_wf(m),
    ensures
        ({
            let after = sim_after(m, crate::ddc::set_vcp_frame(code, value));
            let reply = sim_reply(after, code);
            &&& is_get_request(crate::ddc::get_vcp_frame(code))
            &&& crate::ddc::vcp_reply_reading(reply, code) == Some(
                VcpReading { current: value, maximum: m.maximum[code as int] },
            )
        }),
{
    let f = crate::ddc::set_vcp_frame(code, value);
    assert(f[3] == code && f[4] == 0 && f[5] == value);
    assert(seq![0x51u8, 0x04u8, 0x03u8, f[3], f[4], f[5]] =~= seq![0x51u8, 0x04u8, 0x03u8, code, 0x00u8, value]);
    let g = crate::ddc::get_vcp_frame(code);
    assert(g[3] == code);
    assert(seq![0x51u8, 0x02u8, 0x01u8, g[3]] =~= seq![0x51u8, 0x02u8, 0x01u8, code]);
    let after = sim_after(m, f);
    assert(after.current[code as int] == value);
}

} // verus!
