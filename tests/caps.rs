use mondis::caps::{parse_capabilities, vcp_codes};

#[test]
fn capabilities_scenario() {
    let c = parse_capabilities(b"(mccs_ver(2.1)type(lcd)vcp(10 12 14 60 62))");
    assert_eq!(c.mccs_version.as_deref(), Some("2.1"));
    assert_eq!(c.monitor_type.as_deref(), Some("lcd"));
    assert_eq!(c.model, None);
    assert_eq!(c.vcp_codes, vec![0x10, 0x12, 0x14, 0x60, 0x62]);
}

#[test]
fn sub_lists_are_skipped() {
    let c = parse_capabilities(b"(prot(monitor)model(VG270U)vcp(02 10 14(05 06 08) 60(0F 11 12) D6)mccs_ver(2.2))");
    assert_eq!(c.vcp_codes, vec![0x02, 0x10, 0x14, 0x60, 0xD6]);
    assert_eq!(c.model.as_deref(), Some("VG270U"));
    assert_eq!(c.mccs_version.as_deref(), Some("2.2"));
}

#[test]
fn odd_tokens_are_not_codes() {
    assert_eq!(vcp_codes(b"vcp(1 100 fe XY 0a)"), vec![0xFE, 0x0A]);
}

#[test]
fn unclosed_list_yields_nothing() {
    assert_eq!(vcp_codes(b"vcp(10 12"), Vec::<u8>::new());
    assert_eq!(vcp_codes(b"(type(lcd))"), Vec::<u8>::new());
}

#[test]
fn missing_fields() {
    let c = parse_capabilities(b"(mccs_ver(2.1");
    assert_eq!(c.mccs_version, None);
    assert_eq!(c.monitor_type, None);
}
