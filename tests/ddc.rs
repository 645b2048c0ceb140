use mondis::ddc::{
    capabilities_request, checksum, clean_capabilities, get_vcp_request, parse_capabilities_reply,
    parse_vcp_reply, set_vcp_request, DdcError, VcpReading,
};
use mondis::sim::SimulatedMonitor;

#[test]
fn get_request_frame() {
    assert_eq!(get_vcp_request(0x10), vec![0x51, 0x02, 0x01, 0x10, 0x2C]);
}

#[test]
fn set_request_frame() {
    let f = set_vcp_request(0x10, 50);
    assert_eq!(&f[..6], &[0x51, 0x04, 0x03, 0x10, 0x00, 50]);
    assert_eq!(f[6], 0x6E ^ 0x51 ^ 0x04 ^ 0x03 ^ 0x10 ^ 50);
}

#[test]
fn capabilities_request_frame() {
    assert_eq!(capabilities_request(), vec![0x51, 0x01, 0xF3, 0x6E ^ 0x51 ^ 0x01 ^ 0xF3]);
}

#[test]
fn checksum_round_trip() {
    for code in [0x00u8, 0x10, 0x12, 0x60, 0xD6, 0xFF] {
        let f = get_vcp_request(code);
        assert_eq!(f.iter().fold(0u8, |a, b| a ^ b), 0x6E);
    }
    assert_eq!(checksum(&[]), 0x6E);
}

#[test]
fn get_feature_reply() {
    let resp = [0x6E, 0x02, 0x00, 0x00, 0x10, 0x00, 0x00, 0x64, 0x00, 0x32, 0x00, 0x5A];
    let r = parse_vcp_reply(&resp, 0x10).unwrap();
    assert_eq!(r, VcpReading { current: 50, maximum: 100 });
    assert_eq!((r.current, r.maximum), (50, 100));
}

#[test]
fn reply_keeps_low_bytes() {
    let resp = [0x6E, 0x88, 0x02, 0x00, 0x12, 0x00, 0x01, 0x2C, 0x01, 0x05, 0x00, 0x00];
    assert_eq!(parse_vcp_reply(&resp, 0x12).unwrap(), VcpReading { current: 0x05, maximum: 0x2C });
}

#[test]
fn reply_for_other_feature_is_a_mismatch() {
    let resp = [0x6E, 0x88, 0x02, 0x00, 0x12, 0x00, 0x00, 0x64, 0x00, 0x32, 0x00, 0x00];
    match parse_vcp_reply(&resp, 0x10) {
        Err(DdcError::ProtocolMismatch { expected, got }) => {
            assert_eq!(expected, 0x10);
            assert_eq!(got, 0x12);
        }
        other => panic!("unexpected {:?}", other),
    }
}

#[test]
fn short_reply() {
    assert!(matches!(parse_vcp_reply(&[0x6E, 0x02], 0x10), Err(DdcError::ShortReply { len: 2 })));
}

fn caps_reply(payload: &[u8]) -> Vec<u8> {
    let mut r = vec![0x6E, (payload.len() + 1) as u8, 0xE3];
    r.extend_from_slice(payload);
    r.push(0x00);
    r
}

#[test]
fn capabilities_reply_is_cleaned() {
    let r = caps_reply(b" (type(lcd)\x01vcp(10))\x00junk");
    assert_eq!(parse_capabilities_reply(&r).unwrap(), b"(type(lcd)vcp(10))".to_vec());
}

#[test]
fn capabilities_reply_header_error() {
    assert!(matches!(parse_capabilities_reply(&[0x6F, 0x02, 0x00, 0x41]), Err(DdcError::InvalidHeader { got: 0x6F })));
    assert!(matches!(parse_capabilities_reply(&[0x6E]), Err(DdcError::InvalidHeader { got: 0x6E })));
    assert!(matches!(parse_capabilities_reply(&[]), Err(DdcError::InvalidHeader { got: 0 })));
}

#[test]
fn capabilities_reply_length_error() {
    assert!(matches!(parse_capabilities_reply(&[0x6E, 0x00, 0x00, 0x41]), Err(DdcError::InvalidLength { declared: 0 })));
    assert!(matches!(parse_capabilities_reply(&[0x6E, 0x09, 0x00, 0x41]), Err(DdcError::InvalidLength { declared: 9 })));
}

#[test]
fn capabilities_reply_without_text() {
    let r = caps_reply(b"\x01\x02  \x7F");
    assert!(matches!(parse_capabilities_reply(&r), Err(DdcError::EmptyOrCorruptCapabilities)));
}

#[test]
fn cleaning_clean_text_changes_nothing() {
    let s = b"(prot(monitor)type(lcd)model(VG270U)vcp(10 12))";
    assert_eq!(clean_capabilities(s), s.to_vec());
}

#[test]
fn cleaning_twice_is_cleaning_once() {
    let once = clean_capabilities(b"  \x05(vcp(10)\x1B) \x00rest");
    assert_eq!(once, b"(vcp(10))".to_vec());
    assert_eq!(clean_capabilities(&once), once);
}

#[test]
fn set_then_get_on_simulated_monitor() {
    let mut m = SimulatedMonitor::new(100);
    for v in [0u8, 37, 100, 255] {
        assert!(m.handle(&set_vcp_request(0x10, v)).is_none());
        let reply = m.handle(&get_vcp_request(0x10)).unwrap();
        assert_eq!(parse_vcp_reply(&reply, 0x10).unwrap(), VcpReading { current: v, maximum: 100 });
    }
}

#[test]
fn simulated_monitor_ignores_bad_checksum() {
    let mut m = SimulatedMonitor::new(100);
    let mut f = set_vcp_request(0x10, 80);
    f[6] ^= 1;
    assert!(m.handle(&f).is_none());
    assert_eq!(m.current_value(0x10), 0);
    let mut g = get_vcp_request(0x10);
    g[4] ^= 1;
    assert!(m.handle(&g).is_none());
}
