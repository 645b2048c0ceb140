//! The display registry: from what was observed on each I2C bus, the
//! displays worth showing, each with its identity, connector, fallback
//! output and preferred control method.

use vstd::prelude::*;
use crate::connector::{connector_info_of, parse_connector_info, ConnectorInfo, ConnectorView};
use crate::correlate::{base_blocks_equal, correlate_output, correlation_of, edid_matches, Correlation, CorrelationView, OutputEdid};
use crate::edid::{decode_edid, edid_identity, find_descriptor, find_descriptor_text, header_valid, manufacturer_bytes, manufacturer_code, IdentityView, MonitorIdentity, TAG_MONITOR_NAME};
use crate::text::{decimal, decimal_bytes, lossy_text, same_bytes, text_of};

verus! {

/// Highest I2C bus index scanned.
pub const MAX_BUS: u8 = 10;

/// Full vendor name of a three-letter code, or the code itself.
pub open spec fn vendor_name(code: Seq<u8>) -> Seq<u8> {
    if code == seq!['A' as u8, 'C' as u8, 'R' as u8] {
        seq!['A' as u8, 'c' as u8, 'e' as u8, 'r' as u8]
    } else if code == seq!['G' as u8, 'S' as u8, 'M' as u8] {
        seq!['L' as u8, 'G' as u8]
    } else if code == seq!['S' as u8, 'A' as u8, 'M' as u8] {
        seq!['S' as u8, 'a' as u8, 'm' as u8, 's' as u8, 'u' as u8, 'n' as u8, 'g' as u8]
    } else if code == seq!['D' as u8, 'E' as u8, 'L' as u8] {
        seq!['D' as u8, 'e' as u8, 'l' as u8, 'l' as u8]
    } else if code == seq!['A' as u8, 'U' as u8, 'S' as u8] {
        seq!['A' as u8, 'S' as u8, 'U' as u8, 'S' as u8]
    } else if code == seq!['B' as u8, 'N' as u8, 'Q' as u8] {
        seq!['B' as u8, 'e' as u8, 'n' as u8, 'Q' as u8]
    } else if code == seq!['A' as u8, 'O' as u8, 'C' as u8] {
        seq!['A' as u8, 'O' as u8, 'C' as u8]
    } else if code == seq!['H' as u8, 'P' as u8, 'N' as u8] {
        seq!['H' as u8, 'P' as u8]
    } else if code == seq!['L' as u8, 'E' as u8, 'N' as u8] {
        seq!['L' as u8, 'e' as u8, 'n' as u8, 'o' as u8, 'v' as u8, 'o' as u8]
    } else if code == seq!['M' as u8, 'S' as u8, 'I' as u8] {
        seq!['M' as u8, 'S' as u8, 'I' as u8]
    } else {
        code
    }
}

/// Full vendor name of a three-letter code, or the code itself.
pub fn vendor_name_bytes(code: &[u8]) -> (r: Vec<u8>)
    ensures
        r@ == vendor_name(code@),
{
    let c0: [u8; 3] = ['A' as u8, 'C' as u8, 'R' as u8];
    assert(c0@ =~= seq!['A' as u8, 'C' as u8, 'R' as u8]);
    let c1: [u8; 3] = ['G' as u8, 'S' as u8, 'M' as u8];
    assert(c1@ =~= seq!['G' as u8, 'S' as u8, 'M' as u8]);
    let c2: [u8; 3] = ['S' as u8, 'A' as u8, 'M' as u8];
    assert(c2@ =~= seq!['S' as u8, 'A' as u8, 'M' as u8]);
    let c3: [u8; 3] = ['D' as u8, 'E' as u8, 'L' as u8];
    assert(c3@ =~= seq!['D' as u8, 'E' as u8, 'L' as u8]);
    let c4: [u8; 3] = ['A' as u8, 'U' as u8, 'S' as u8];
    assert(c4@ =~= seq!['A' as u8, 'U' as u8, 'S' as u8]);
    let c5: [u8; 3] = ['B' as u8, 'N' as u8, 'Q' as u8];
    assert(c5@ =~= seq!['B' as u8, 'N' as u8, 'Q' as u8]);
    let c6: [u8; 3] = ['A' as u8, 'O' as u8, 'C' as u8];
    assert(c6@ =~= seq!['A' as u8, 'O' as u8, 'C' as u8]);
    let c7: [u8; 3] = ['H' as u8, 'P' as u8, 'N' as u8];
    assert(c7@ =~= seq!['H' as u8, 'P' as u8, 'N' as u8]);
    let c8: [u8; 3] = ['L' as u8, 'E' as u8, 'N' as u8];
    assert(c8@ =~= seq!['L' as u8, 'E' as u8, 'N' as u8]);
    let c9: [u8; 3] = ['M' as u8, 'S' as u8, 'I' as u8];
    assert(c9@ =~= seq!['M' as u8, 'S' as u8, 'I' as u8]);
    if same_bytes(code, &c0) {
        let v: Vec<u8> = vec!['A' as u8, 'c' as u8, 'e' as u8, 'r' as u8];
        assert(v@ =~= seq!['A' as u8, 'c' as u8, 'e' as u8, 'r' as u8]);
        v
    } else if same_bytes(code, &c1) {
        let v: Vec<u8> = vec!['L' as u8, 'G' as u8];
        assert(v@ =~= seq!['L' as u8, 'G' as u8]);
        v
    } else if same_bytes(code, &c2) {
        let v: Vec<u8> = vec!['S' as u8, 'a' as u8, 'm' as u8, 's' as u8, 'u' as u8, 'n' as u8, 'g' as u8];
        assert(v@ =~= seq!['S' as u8, 'a' as u8, 'm' as u8, 's' as u8, 'u' as u8, 'n' as u8, 'g' as u8]);
        v
    } else if same_bytes(code, &c3) {
        let v: Vec<u8> = vec!['D' as u8, 'e' as u8, 'l' as u8, 'l' as u8];
        assert(v@ =~= seq!['D' as u8, 'e' as u8, 'l' as u8, 'l' as u8]);
        v
    } else if same_bytes(code, &c4) {
        let v: Vec<u8> = vec!['A' as u8, 'S' as u8, 'U' as u8, 'S' as u8];
        assert(v@ =~= seq!['A' as u8, 'S' as u8, 'U' as u8, 'S' as u8]);
        v
    } else if same_bytes(code, &c5) {
        let v: Vec<u8> = vec!['B' as u8, 'e' as u8, 'n' as u8, 'Q' as u8];
        assert(v@ =~= seq!['B' as u8, 'e' as u8, 'n' as u8, 'Q' as u8]);
        v
    } else if same_bytes(code, &c6) {
        let v: Vec<u8> = vec!['A' as u8, 'O' as u8, 'C' as u8];
        assert(v@ =~= seq!['A' as u8, 'O' as u8, 'C' as u8]);
        v
    } else if same_bytes(code, &c7) {
        let v: Vec<u8> = vec!['H' as u8, 'P' as u8];
        assert(v@ =~= seq!['H' as u8, 'P' as u8]);
        v
    } else if same_bytes(code, &c8) {
        let v: Vec<u8> = vec!['L' as u8, 'e' as u8, 'n' as u8, 'o' as u8, 'v' as u8, 'o' as u8];
        assert(v@ =~= seq!['L' as u8, 'e' as u8, 'n' as u8, 'o' as u8, 'v' as u8, 'o' as u8]);
        v
    } else if same_bytes(code, &c9) {
        let v: Vec<u8> = vec!['M' as u8, 'S' as u8, 'I' as u8];
        assert(v@ =~= seq!['M' as u8, 'S' as u8, 'I' as u8]);
        v
    } else {
        vstd::slice::slice_to_vec(code)
    }
}


/// How a display's brightness is driven.
#[derive(Debug, Clone, Copy, PartialEq, Eq, Structural)]
pub enum ControlMethod {
    /// VCP feature 0x10 over DDC/CI.
    Ddc,
    /// The display server's output brightness.
    Software,
}

/// What was seen on one I2C bus.
#[derive(Debug, Clone)]
pub struct BusObservation {
    pub bus: u8,
    /// The bus's device node exists.
    pub present: bool,
    /// A Get-Brightness probe over DDC/CI succeeded.
    pub ddc_ok: bool,
    /// EDID read from the bus, if any.
    pub edid: Option<Vec<u8>>,
}

/// A kernel connector and the EDID it exposes.
#[derive(Debug, Clone)]
pub struct ConnectorEdid {
    pub name: Vec<u8>,
    pub edid: Vec<u8>,
}

/// One display as the registry presents it.
#[derive(Debug)]
pub struct DisplayInfo {
    pub i2c_bus: u8,
    pub name: String,
    pub identity: Option<MonitorIdentity>,
    pub connector: Option<String>,
    pub supports_ddc: bool,
    /// Display-server output for software brightness.
    pub fallback_output: Option<String>,
    /// The fallback output was confirmed by EDID rather than guessed.
    pub fallback_confirmed: bool,
    pub connector_info: Option<ConnectorInfo>,
    pub preferred_method: Option<ControlMethod>,
}

/// Content of a `DisplayInfo`.
pub struct DisplayView {
    pub i2c_bus: u8,
    pub name: Seq<char>,
    pub identity: Option<IdentityView>,
    pub connector: Option<Seq<char>>,
    pub supports_ddc: bool,
    pub fallback_output: Option<Seq<char>>,
    pub fallback_confirmed: bool,
    pub connector_info: Option<ConnectorView>,
    pub preferred_method: Option<ControlMethod>,
}

impl View for DisplayInfo {
    type V = DisplayView;

    open spec fn view(&self) -> DisplayView {
        DisplayView {
            i2c_bus: self.i2c_bus,
            name: self.name@,
            identity: match self.identity {
                Some(i) => Some(i@),
                None => None,
            },
            connector: crate::text::opt_text(self.connector),
            supports_ddc: self.supports_ddc,
            fallback_output: crate::text::opt_text(self.fallback_output),
            fallback_confirmed: self.fallback_confirmed,
            connector_info: match self.connector_info {
                Some(c) => Some(c@),
                None => None,
            },
            preferred_method: self.preferred_method,
        }
    }
}

/// Index of the first connector whose EDID has the base block of `e`.
pub open spec fn first_connector(e: Seq<u8>, conns: Seq<ConnectorEdid>, k: nat) -> Option<nat>
    decreases conns.len() - k,
{
    if k >= conns.len() {
        None
    } else if base_blocks_equal(e, conns[k as int].edid@) {
        Some(k)
    } else {
        first_connector(e, conns, k + 1)
    }
}

/// Name of the control method, for the display's title.
pub open spec fn method_label(ddc: bool, fallback: bool) -> Seq<u8> {
    if ddc {
        seq!['D' as u8, 'D' as u8, 'C' as u8]
    } else if fallback {
        seq!['x' as u8, 'r' as u8, 'a' as u8, 'n' as u8, 'd' as u8, 'r' as u8]
    } else {
        seq![
            'n' as u8, 'o' as u8, ' ' as u8, 'c' as u8, 'o' as u8, 'n' as u8, 't' as u8, 'r' as u8,
            'o' as u8, 'l' as u8,
        ]
    }
}

/// Title of a display: vendor, model and connector when the EDID names
/// them, else the bus; then the control method in parentheses.
pub open spec fn display_name(bus: u8, edid: Option<Seq<u8>>, conn: Option<Seq<u8>>, label: Seq<u8>) -> Seq<u8> {
    let tail = seq![' ' as u8, '(' as u8] + label + seq![0x29u8];
    match edid {
        Some(e) => if header_valid(e) && manufacturer_code(e) is Some && find_descriptor(e, TAG_MONITOR_NAME, 0) is Some {
            let conn_part = match conn {
                Some(c) => seq![0x20u8, 0xE2u8, 0x80u8, 0xA2u8, 0x20u8] + c,
                None => Seq::empty(),
            };
            vendor_name(manufacturer_code(e)->Some_0) + seq![0x20u8] + find_descriptor(e, TAG_MONITOR_NAME, 0)->Some_0
                + conn_part + tail
        } else {
            seq![
                'I' as u8, '2' as u8, 'C' as u8, ' ' as u8, 'D' as u8, 'e' as u8, 'v' as u8, 'i' as u8,
                'c' as u8, 'e' as u8, ' ' as u8, '(' as u8, 'b' as u8, 'u' as u8, 's' as u8, ' ' as u8,
            ] + decimal(bus as nat) + seq![0x29u8] + tail
        },
        None => seq![
            'I' as u8, '2' as u8, 'C' as u8, ' ' as u8, 'D' as u8, 'e' as u8, 'v' as u8, 'i' as u8,
            'c' as u8, 'e' as u8, ' ' as u8, '(' as u8, 'b' as u8, 'u' as u8, 's' as u8, ' ' as u8,
        ] + decimal(bus as nat) + seq![0x29u8] + tail,
    }
}

/// The display that bus observation `o` yields, if it is worth showing:
/// it needs an identity, DDC/CI, or a fallback output.
pub open spec fn display_of(o: BusObservation, conns: Seq<ConnectorEdid>, outs: Seq<OutputEdid>) -> Option<DisplayView> {
    let e = crate::text::opt_bytes(o.edid);
    let identity = match e {
        Some(b) => if header_valid(b) { Some(edid_identity(b)) } else { None },
        None => None,
    };
    let ck = match e {
        Some(b) => first_connector(b, conns, 0),
        None => None,
    };
    let conn_name = match ck {
        Some(k) => Some(conns[k as int].name@),
        None => None,
    };
    let corr = match ck {
        Some(k) => correlation_of(conns[k as int].name@, Some(conns[k as int].edid@), outs),
        None => CorrelationView::Unavailable,
    };
    let fallback = match corr {
        CorrelationView::Confirmed(n) => Some(n),
        CorrelationView::Guessed(n) => Some(n),
        CorrelationView::Unavailable => None,
    };
    if !o.present || o.bus > MAX_BUS || (identity is None && !o.ddc_ok && fallback is None) {
        None
    } else {
        Some(
            DisplayView {
                i2c_bus: o.bus,
                name: lossy_text(display_name(o.bus, e, conn_name, method_label(o.ddc_ok, fallback is Some))),
                identity,
                connector: match conn_name {
                    Some(c) => Some(lossy_text(c)),
                    None => None,
                },
                supports_ddc: o.ddc_ok,
                fallback_output: fallback,
                fallback_confirmed: corr is Confirmed,
                connector_info: match conn_name {
                    Some(c) => connector_info_of(c),
                    None => None,
                },
                preferred_method: if o.ddc_ok {
                    Some(ControlMethod::Ddc)
                } else if fallback is Some {
                    Some(ControlMethod::Software)
                } else {
                    None
                },
            },
        )
    }
}

/// The displays of a scan, in the order of the observations.
pub open spec fn displays_of(obs: Seq<BusObservation>, conns: Seq<ConnectorEdid>, outs: Seq<OutputEdid>) -> Seq<DisplayView>
    decreases obs.len(),
{
    if obs.len() == 0 {
        Seq::empty()
    } else {
        let rest = displays_of(obs.drop_last(), conns, outs);
        match display_of(obs.last(), conns, outs) {
            Some(d) => rest.push(d),
            None => rest,
        }
    }
}

/// Every display a scan yields is on a bus within the scanned range, and is
/// identified by its EDID or reachable by DDC/CI or a fallback output.
pub proof fn lemma_scan_keeps_usable(obs: Seq<BusObservation>, conns: Seq<ConnectorEdid>, outs: Seq<OutputEdid>)
    ensures
        forall|i: int| 0 <= i < displays_of(obs, conns, outs).len() ==> {
            let d = #[trigger] displays_of(obs, conns, outs)[i];
            &&& d.i2c_bus <= MAX_BUS
            &&& d.identity is Some || d.supports_ddc || d.fallback_output is Some
        },
    decreases obs.len(),
{
    if obs.len() > 0 {
        lemma_scan_keeps_usable(obs.drop_last(), conns, outs);
    }
}

fn find_connector(e: &[u8], conns: &Vec<ConnectorEdid>) -> (r: Option<usize>)
    ensures
        match r {
            Some(k) => first_connector(e@, conns@, 0) == Some(k as nat) && k < conns@.len(),
            None => first_connector(e@, conns@, 0) is None,
        },
{
    let mut k: usize = 0;
    while k < conns.len()
        invariant
            k <= conns@.len(),
            first_connector(e@, conns@, 0) == first_connector(e@, conns@, k as nat),
        decreases conns@.len() - k,
    {
        if edid_matches(e, conns[k].edid.as_slice()) {
            return Some(k);
        }
        k = k + 1;
    }
    None
}

fn push_all(v: &mut Vec<u8>, s: &[u8])
    ensures
        final(v)@ == old(v)@ + s@,
{
    let mut t = vstd::slice::slice_to_vec(s);
    v.append(&mut t);
}

/// Title bytes of a display.
fn display_name_bytes(bus: u8, edid: Option<&[u8]>, conn: Option<&[u8]>, ddc: bool, fallback: bool) -> (r: Vec<u8>)
    ensures
        r@ == display_name(
            bus,
            crate::text::opt_slice(edid),
            crate::text::opt_slice(conn),
            method_label(ddc, fallback),
        ),
{
    let label: Vec<u8> = if ddc {
        let v: Vec<u8> = vec!['D' as u8, 'D' as u8, 'C' as u8];
        assert(v@ =~= seq!['D' as u8, 'D' as u8, 'C' as u8]);
        v
    } else if fallback {
        let v: Vec<u8> = vec!['x' as u8, 'r' as u8, 'a' as u8, 'n' as u8, 'd' as u8, 'r' as u8];
        assert(v@ =~= seq!['x' as u8, 'r' as u8, 'a' as u8, 'n' as u8, 'd' as u8, 'r' as u8]);
        v
    } else {
        let v: Vec<u8> = vec![
            'n' as u8, 'o' as u8, ' ' as u8, 'c' as u8, 'o' as u8, 'n' as u8, 't' as u8, 'r' as u8,
            'o' as u8, 'l' as u8,
        ];
        assert(v@ =~= seq![
            'n' as u8, 'o' as u8, ' ' as u8, 'c' as u8, 'o' as u8, 'n' as u8, 't' as u8, 'r' as u8,
            'o' as u8, 'l' as u8,
        ]);
        v
    };
    let mut tail: Vec<u8> = vec![' ' as u8, '(' as u8];
    assert(tail@ =~= seq![' ' as u8, '(' as u8]);
    push_all(&mut tail, label.as_slice());
    let close: [u8; 1] = [0x29];
    assert(close@ =~= seq![0x29u8]);
    push_all(&mut tail, &close);
    let titled: Option<(Vec<u8>, Vec<u8>)> = match edid {
        Some(e) => if e.len() >= 128 && e[0] == 0x00 && e[1] == 0xFF && e[7] == 0x00 {
            match (manufacturer_bytes(e), find_descriptor_text(e, TAG_MONITOR_NAME)) {
                (Some(m), Some(n)) => Some((m, n)),
                _ => None,
            }
        } else {
            None
        },
        None => None,
    };
    match titled {
        Some((m, n)) => {
            let mut v = vendor_name_bytes(m.as_slice());
            let sp: [u8; 1] = [0x20];
            assert(sp@ =~= seq![0x20u8]);
            push_all(&mut v, &sp);
            push_all(&mut v, n.as_slice());
            match conn {
                Some(c) => {
                    let dot: [u8; 5] = [0x20, 0xE2, 0x80, 0xA2, 0x20];
                    assert(dot@ =~= seq![0x20u8, 0xE2u8, 0x80u8, 0xA2u8, 0x20u8]);
                    push_all(&mut v, &dot);
                    push_all(&mut v, c);
                },
                None => {
                    assert(v@ + Seq::<u8>::empty() =~= v@);
                },
            }
            push_all(&mut v, tail.as_slice());
            proof {
                let e = crate::text::opt_slice(edid)->Some_0;
                let conn_part = match crate::text::opt_slice(conn) {
                    Some(c) => seq![0x20u8, 0xE2u8, 0x80u8, 0xA2u8, 0x20u8] + c,
                    None => Seq::<u8>::empty(),
                };
                assert(v@ =~= vendor_name(manufacturer_code(e)->Some_0) + seq![0x20u8] + find_descriptor(e, TAG_MONITOR_NAME, 0)->Some_0 + conn_part + tail@);
            }
            v
        },
        None => {
            let mut v: Vec<u8> = vec![
                'I' as u8, '2' as u8, 'C' as u8, ' ' as u8, 'D' as u8, 'e' as u8, 'v' as u8, 'i' as u8,
                'c' as u8, 'e' as u8, ' ' as u8, '(' as u8, 'b' as u8, 'u' as u8, 's' as u8, ' ' as u8,
            ];
            assert(v@ =~= seq![
                'I' as u8, '2' as u8, 'C' as u8, ' ' as u8, 'D' as u8, 'e' as u8, 'v' as u8, 'i' as u8,
                'c' as u8, 'e' as u8, ' ' as u8, '(' as u8, 'b' as u8, 'u' as u8, 's' as u8, ' ' as u8,
            ]);
            let digits = decimal_bytes(bus as u64);
            push_all(&mut v, digits.as_slice());
            push_all(&mut v, &close);
            push_all(&mut v, tail.as_slice());
            v
        },
    }
}


/// The display that one bus observation yields, if it is worth showing.
pub fn display_for(o: &BusObservation, conns: &Vec<ConnectorEdid>, outs: &Vec<OutputEdid>) -> (r: Option<DisplayInfo>)
    ensures
        match r {
            Some(d) => display_of(*o, conns@, outs@) == Some(d@),
            None => display_of(*o, conns@, outs@) is None,
        },
{
    let e: Option<&[u8]> = match &o.edid {
        Some(v) => Some(v.as_slice()),
        None => None,
    };
    let identity: Option<MonitorIdentity> = match e {
        Some(b) => match decode_edid(b) {
            Ok(id) => Some(id),
            Err(_) => None,
        },
        None => None,
    };
    let ck: Option<usize> = match e {
        Some(b) => find_connector(b, conns),
        None => None,
    };
    let (conn_name, corr): (Option<&[u8]>, Correlation) = match ck {
        Some(k) => {
            let c = &conns[k];
            (Some(c.name.as_slice()), correlate_output(c.name.as_slice(), Some(c.edid.as_slice()), outs))
        },
        None => (None, Correlation::Unavailable),
    };
    let confirmed = match &corr {
        Correlation::Confirmed { .. } => true,
        _ => false,
    };
    let fallback: Option<String> = match corr {
        Correlation::Confirmed { output } => Some(output),
        Correlation::Guessed { output } => Some(output),
        Correlation::Unavailable => None,
    };
    if !o.present || o.bus > MAX_BUS || (identity.is_none() && !o.ddc_ok && fallback.is_none()) {
        return None;
    }
    let name_bytes = display_name_bytes(o.bus, e, conn_name, o.ddc_ok, fallback.is_some());
    let preferred_method = if o.ddc_ok {
        Some(ControlMethod::Ddc)
    } else if fallback.is_some() {
        Some(ControlMethod::Software)
    } else {
        None
    };
    let (connector, connector_info) = match conn_name {
        Some(c) => (Some(text_of(c)), parse_connector_info(c)),
        None => (None, None),
    };
    Some(
        DisplayInfo {
            i2c_bus: o.bus,
            name: text_of(name_bytes.as_slice()),
            identity,
            connector,
            supports_ddc: o.ddc_ok,
            fallback_output: fallback,
            fallback_confirmed: confirmed,
            connector_info,
            preferred_method,
        },
    )
}

/// Turns the observations of a bus scan into the displays worth showing,
/// in the order of the observations. Buses past `MAX_BUS` or without a
/// device node are skipped, and so is a bus with neither a valid EDID, nor
/// DDC/CI, nor a fallback output.
pub fn scan_displays(obs: &Vec<BusObservation>, conns: &Vec<ConnectorEdid>, outs: &Vec<OutputEdid>) -> (r: Vec<DisplayInfo>)
    ensures
        r@.len() == displays_of(obs@, conns@, outs@).len(),
        forall|i: int| 0 <= i < r@.len() ==> #[trigger] r@[i]@ == displays_of(obs@, conns@, outs@)[i],
{
    let mut r: Vec<DisplayInfo> = Vec::new();
    let mut k: usize = 0;
    while k < obs.len()
        invariant
            k <= obs@.len(),
            r@.len() == displays_of(obs@.subrange(0, k as int), conns@, outs@).len(),
            forall|i: int| 0 <= i < r@.len() ==> #[trigger] r@[i]@ == displays_of(obs@.subrange(0, k as int), conns@, outs@)[i],
        decreases obs@.len() - k,
    {
        proof {
            assert(obs@.subrange(0, k + 1).drop_last() =~= obs@.subrange(0, k as int));
            assert(obs@.subrange(0, k + 1).last() == obs@[k as int]);
        }
        match display_for(&obs[k], conns, outs) {
            Some(d) => {
                r.push(d);
            },
            None => {},
        }
        k = k + 1;
    }
    assert(obs@.subrange(0, obs@.len() as int) =~= obs@);
    r
}

} // verus!
