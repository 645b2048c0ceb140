//! Kernel connector names such as `card1-DP-3`: adapter, port type and
//! port number, and a label for people.

use vstd::prelude::*;
use crate::text::{decimal_u8, find_byte, find_byte_from, lossy_text, parse_decimal_u8, same_bytes, text_of};

verus! {

/// Kind of a connector's port.
#[derive(Debug, Clone, Copy, PartialEq, Eq, Structural)]
pub enum PortKind {
    Hdmi,
    DisplayPort,
    Dvi,
    Vga,
    Edp,
    Lvds,
    Other,
}

/// A connector name taken apart.
#[derive(Debug, Clone)]
pub struct ConnectorInfo {
    /// Adapter index: the number after `card`, or 0 if there is none.
    pub card_index: u8,
    pub port_kind: PortKind,
    /// The port type as written, such as `DP`.
    pub port_type: String,
    /// The port number as written, such as `3` or `A`.
    pub port_number: String,
    /// Such as `DisplayPort 3` or `HDMI Port A`.
    pub port_label: String,
}

/// Adapter, port type and port number of a name with at least three
/// dash-separated parts.
pub open spec fn connector_parts(c: Seq<u8>) -> Option<(Seq<u8>, Seq<u8>, Seq<u8>)> {
    match find_byte(c, '-' as u8, 0) {
        Some(d1) => match find_byte(c, '-' as u8, d1 + 1) {
            Some(d2) => {
                let end = match find_byte(c, '-' as u8, d2 + 1) {
                    Some(d3) => d3,
                    None => c.len(),
                };
                Some(
                    (
                        c.subrange(0, d1 as int),
                        c.subrange((d1 + 1) as int, d2 as int),
                        c.subrange((d2 + 1) as int, end as int),
                    ),
                )
            },
            None => None,
        },
        None => None,
    }
}

/// `card`
pub open spec fn card_word() -> Seq<u8> {
    seq!['c' as u8, 'a' as u8, 'r' as u8, 'd' as u8]
}

/// Adapter index of the adapter part: the number after `card`, else 0.
pub open spec fn card_index_of(p: Seq<u8>) -> u8 {
    let t = if p.len() >= 4 && p.subrange(0, 4) == card_word() {
        p.subrange(4, p.len() as int)
    } else {
        p
    };
    match decimal_u8(t) {
        Some(n) => n,
        None => 0,
    }
}

/// Kind of a port type.
pub open spec fn port_kind_of(t: Seq<u8>) -> PortKind {
    if t == seq!['H' as u8, 'D' as u8, 'M' as u8, 'I' as u8] {
        PortKind::Hdmi
    } else if t == seq!['D' as u8, 'P' as u8] {
        PortKind::DisplayPort
    } else if t == seq!['D' as u8, 'V' as u8, 'I' as u8] {
        PortKind::Dvi
    } else if t == seq!['V' as u8, 'G' as u8, 'A' as u8] {
        PortKind::Vga
    } else if t == seq!['e' as u8, 'D' as u8, 'P' as u8] {
        PortKind::Edp
    } else if t == seq!['L' as u8, 'V' as u8, 'D' as u8, 'S' as u8] {
        PortKind::Lvds
    } else {
        PortKind::Other
    }
}

/// `DisplayPort `
pub open spec fn display_port_prefix() -> Seq<u8> {
    seq![
        'D' as u8, 'i' as u8, 's' as u8, 'p' as u8, 'l' as u8, 'a' as u8, 'y' as u8, 'P' as u8,
        'o' as u8, 'r' as u8, 't' as u8, ' ' as u8,
    ]
}

/// ` Port `
pub open spec fn port_infix() -> Seq<u8> {
    seq![' ' as u8, 'P' as u8, 'o' as u8, 'r' as u8, 't' as u8, ' ' as u8]
}

/// Label of a port: `DisplayPort <n>` for `DP`, else `<type> Port <n>`.
pub open spec fn port_label_of(t: Seq<u8>, n: Seq<u8>) -> Seq<u8> {
    if t == seq!['D' as u8, 'P' as u8] {
        display_port_prefix() + n
    } else {
        t + port_infix() + n
    }
}

/// Content of a `ConnectorInfo`.
pub struct ConnectorView {
    pub card_index: u8,
    pub port_kind: PortKind,
    pub port_type: Seq<char>,
    pub port_number: Seq<char>,
    pub port_label: Seq<char>,
}

impl View for ConnectorInfo {
    type V = ConnectorView;

    open spec fn view(&self) -> ConnectorView {
        ConnectorView {
            card_index: self.card_index,
            port_kind: self.port_kind,
            port_type: self.port_type@,
            port_number: self.port_number@,
            port_label: self.port_label@,
        }
    }
}

/// What a connector name says, if it has at least three parts.
pub open spec fn connector_info_of(c: Seq<u8>) -> Option<ConnectorView> {
    match connector_parts(c) {
        Some((a, t, n)) => Some(
            ConnectorView {
                card_index: card_index_of(a),
                port_kind: port_kind_of(t),
                port_type: lossy_text(t),
                port_number: lossy_text(n),
                port_label: lossy_text(port_label_of(t, n)),
            },
        ),
        None => None,
    }
}

/// Takes a connector name apart; names with fewer than three dash-separated
/// parts give nothing.
pub fn parse_connector_info(connector: &[u8]) -> (r: Option<ConnectorInfo>)
    ensures
        match r {
            Some(i) => connector_info_of(connector@) == Some(i@),
            None => connector_info_of(connector@) is None,
        },
{
    let len: usize = connector.len();
    let d1 = match find_byte_from(connector, '-' as u8, 0) {
        Some(d) => d,
        None => {
            return None;
        },
    };
    let d2 = match find_byte_from(connector, '-' as u8, d1 + 1) {
        Some(d) => d,
        None => {
            return None;
        },
    };
    let end: usize = match find_byte_from(connector, '-' as u8, d2 + 1) {
        Some(d) => d,
        None => connector.len(),
    };
    let adapter = &connector[0..d1];
    let port_type = &connector[d1 + 1..d2];
    let number = &connector[d2 + 1..end];
    let cw: [u8; 4] = ['c' as u8, 'a' as u8, 'r' as u8, 'd' as u8];
    assert(cw@ =~= card_word());
    let digits = if adapter.len() >= 4 && same_bytes(&adapter[0..4], &cw) {
        &adapter[4..adapter.len()]
    } else {
        adapter
    };
    let card_index: u8 = match parse_decimal_u8(digits) {
        Some(n) => n,
        None => 0,
    };
    let port_kind = kind_of_port(port_type);
    let dp: [u8; 2] = ['D' as u8, 'P' as u8];
    let mut label: Vec<u8> = if same_bytes(port_type, &dp) {
        let v: Vec<u8> = vec![
            'D' as u8, 'i' as u8, 's' as u8, 'p' as u8, 'l' as u8, 'a' as u8, 'y' as u8, 'P' as u8,
            'o' as u8, 'r' as u8, 't' as u8, ' ' as u8,
        ];
        assert(v@ =~= display_port_prefix());
        v
    } else {
        let mut v = vstd::slice::slice_to_vec(port_type);
        let mut infix: Vec<u8> = vec![' ' as u8, 'P' as u8, 'o' as u8, 'r' as u8, 't' as u8, ' ' as u8];
        assert(infix@ =~= port_infix());
        v.append(&mut infix);
        v
    };
    let mut tail = vstd::slice::slice_to_vec(number);
    label.append(&mut tail);
    proof {
        assert(dp@ =~= seq!['D' as u8, 'P' as u8]);
    }
    Some(
        ConnectorInfo {
            card_index,
            port_kind,
            port_type: text_of(port_type),
            port_number: text_of(number),
            port_label: text_of(label.as_slice()),
        },
    )
}

fn kind_of_port(t: &[u8]) -> (r: PortKind)
    ensures
        r == port_kind_of(t@),
{
    let hdmi: [u8; 4] = ['H' as u8, 'D' as u8, 'M' as u8, 'I' as u8];
    let dp: [u8; 2] = ['D' as u8, 'P' as u8];
    let dvi: [u8; 3] = ['D' as u8, 'V' as u8, 'I' as u8];
    let vga: [u8; 3] = ['V' as u8, 'G' as u8, 'A' as u8];
    let edp: [u8; 3] = ['e' as u8, 'D' as u8, 'P' as u8];
    let lvds: [u8; 4] = ['L' as u8, 'V' as u8, 'D' as u8, 'S' as u8];
    assert(hdmi@ =~= seq!['H' as u8, 'D' as u8, 'M' as u8, 'I' as u8]);
    assert(dp@ =~= seq!['D' as u8, 'P' as u8]);
    assert(dvi@ =~= seq!['D' as u8, 'V' as u8, 'I' as u8]);
    assert(vga@ =~= seq!['V' as u8, 'G' as u8, 'A' as u8]);
    assert(edp@ =~= seq!['e' as u8, 'D' as u8, 'P' as u8]);
    assert(lvds@ =~= seq!['L' as u8, 'V' as u8, 'D' as u8, 'S' as u8]);
    if same_bytes(t, &hdmi) {
        PortKind::Hdmi
    } else if same_bytes(t, &dp) {
        PortKind::DisplayPort
    } else if same_bytes(t, &dvi) {
        PortKind::Dvi
    } else if same_bytes(t, &vga) {
        PortKind::Vga
    } else if same_bytes(t, &edp) {
        PortKind::Edp
    } else if same_bytes(t, &lvds) {
        PortKind::Lvds
    } else {
        PortKind::Other
    }
}

} // verus!
