use mondis::model::{monitor_info_from_output, BrightnessInfo};

#[test]
fn monitor_record_from_output() {
    let mut e = vec![0u8; 128];
    e[0..8].copy_from_slice(&[0x00, 0xFF, 0xFF, 0xFF, 0xFF, 0xFF, 0xFF, 0x00]);
    e[8] = 0x1E;
    e[9] = 0x6D;
    e[54..59].copy_from_slice(&[0x00, 0x00, 0x00, 0xFC, 0x00]);
    e[59..72].copy_from_slice(b"LG TV\n       ");
    let m = monitor_info_from_output("HDMI-1".to_string(), &e, 700, 390);
    assert_eq!(m.id.name, "HDMI-1");
    assert_eq!(m.id.edid_hash.as_deref(), Some("00FFFFFFFFFFFF001E6D000000000000"));
    assert_eq!(m.manufacturer.as_deref(), Some("GSM"));
    assert_eq!(m.model.as_deref(), Some("LG TV"));
    assert_eq!(m.serial.as_deref(), Some("00000000"));
    assert_eq!(m.size_mm, Some((700, 390)));
    assert_eq!(m.current_mode, None);
}

#[test]
fn monitor_record_without_edid() {
    let m = monitor_info_from_output("VGA-0".to_string(), &[], 70000, 0);
    assert_eq!(m.id.edid_hash, None);
    assert_eq!(m.manufacturer, None);
    assert_eq!(m.size_mm, Some((70000u32 as u16, 0)));
    let m = monitor_info_from_output("VGA-0".to_string(), &[0xAB, 0x01], 1, 1);
    assert_eq!(m.id.edid_hash.as_deref(), Some("AB01"));
    assert_eq!(m.model, None);
}

#[test]
fn brightness_record() {
    let b = BrightnessInfo { supported: true, value: Some(40) };
    assert!(b.supported);
    assert_eq!(b.value, Some(40));
}
