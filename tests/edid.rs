use mondis::edid::{
    decode_edid, parse_descriptor_text, parse_edid, AspectRatio, EdidError, EdidVersion,
    Resolution, SizeCm,
};

fn base_edid() -> Vec<u8> {
    let mut e = vec![0u8; 128];
    e[0..8].copy_from_slice(&[0x00, 0xFF, 0xFF, 0xFF, 0xFF, 0xFF, 0xFF, 0x00]);
    // "ACR": A=1, C=3, R=18 packed as 1<<10 | 3<<5 | 18
    e[8] = 0x04;
    e[9] = 0x72;
    e
}

fn with_descriptor(mut e: Vec<u8>, at: usize, tag: u8, text: &[u8]) -> Vec<u8> {
    e[at..at + 5].copy_from_slice(&[0x00, 0x00, 0x00, tag, 0x00]);
    e[at + 5..at + 18].copy_from_slice(text);
    e
}

#[test]
fn decoded_identity_acr_vg270u() {
    let e = with_descriptor(base_edid(), 54, 0xFC, b"VG270U       ");
    let id = decode_edid(&e).unwrap();
    assert_eq!(id.manufacturer.as_deref(), Some("ACR"));
    assert_eq!(id.model.as_deref(), Some("VG270U"));
}

#[test]
fn decoding_is_deterministic() {
    let e = with_descriptor(base_edid(), 72, 0xFC, b"Panel\n       ");
    let a = decode_edid(&e).unwrap();
    let b = decode_edid(&e.clone()).unwrap();
    assert_eq!(format!("{:?}", a), format!("{:?}", b));
}

#[test]
fn bytes_after_base_block_do_not_count() {
    let e = with_descriptor(base_edid(), 72, 0xFC, b"Panel\n       ");
    let mut longer = e.clone();
    longer.extend_from_slice(&[0x02, 0x03, 0x04, 0x05]);
    let a = decode_edid(&e).unwrap();
    let b = decode_edid(&longer).unwrap();
    assert_eq!(format!("{:?}", a), format!("{:?}", b));
}

#[test]
fn malformed_headers_are_rejected() {
    for (at, v) in [(0usize, 0x01u8), (1, 0xFE), (7, 0x10)] {
        let mut e = base_edid();
        e[at] = v;
        assert_eq!(decode_edid(&e).unwrap_err(), EdidError::InvalidOrShortEdid);
        assert!(parse_edid(&e).is_err());
    }
}

#[test]
fn short_buffer_is_rejected() {
    let e = base_edid();
    assert_eq!(decode_edid(&e[..127]).unwrap_err(), EdidError::InvalidOrShortEdid);
    assert_eq!(decode_edid(&[]).unwrap_err(), EdidError::InvalidOrShortEdid);
}

#[test]
fn header_only_checks_three_bytes() {
    let mut e = base_edid();
    e[2] = 0x00;
    assert!(decode_edid(&e).is_ok());
}

#[test]
fn date_version_and_size_fields() {
    let mut e = base_edid();
    e[16] = 12;
    e[17] = 30;
    e[18] = 1;
    e[19] = 4;
    e[20] = 0xA5;
    e[21] = 60;
    e[22] = 34;
    let id = decode_edid(&e).unwrap();
    assert_eq!(id.manufacture_week, Some(12));
    assert_eq!(id.manufacture_year, Some(2020));
    assert_eq!(id.version, EdidVersion { version: 1, revision: 4 });
    assert_eq!(id.video_input, 0xA5);
    assert_eq!(id.size_cm, Some(SizeCm { width: 60, height: 34 }));
    assert_eq!(id.aspect_ratio, Some(AspectRatio::Wide16x9));
}

#[test]
fn absent_date_and_size() {
    let mut e = base_edid();
    e[16] = 55;
    e[17] = 0;
    e[21] = 60;
    e[22] = 0;
    let id = decode_edid(&e).unwrap();
    assert_eq!(id.manufacture_week, None);
    assert_eq!(id.manufacture_year, None);
    assert_eq!(id.size_cm, None);
    assert_eq!(id.aspect_ratio, None);
}

#[test]
fn aspect_ratio_buckets() {
    let cases = [
        (52u8, 32u8, AspectRatio::Wide16x10),
        (40, 30, AspectRatio::Standard4x3),
        (80, 34, AspectRatio::Ultrawide21x9),
        (30, 10, AspectRatio::Other { hundredths: 300 }),
        (11, 10, AspectRatio::Other { hundredths: 110 }),
        (1, 8, AspectRatio::Other { hundredths: 13 }),
    ];
    for (w, h, want) in cases {
        let mut e = base_edid();
        e[21] = w;
        e[22] = h;
        assert_eq!(decode_edid(&e).unwrap().aspect_ratio, Some(want));
    }
}

#[test]
fn resolution_from_first_timing() {
    let mut e = base_edid();
    e[58] = 0xA0;
    e[61] = 0x5A;
    e[62] = 0x00;
    let id = decode_edid(&e).unwrap();
    assert_eq!(id.resolution, Some(Resolution { width: 2560, height: 1440 }));
    e[58] = 0;
    assert_eq!(decode_edid(&e).unwrap().resolution, None);
}

#[test]
fn serial_falls_back_to_hex_number() {
    let mut e = base_edid();
    e[12..16].copy_from_slice(&[0x00, 0x0A, 0xB1, 0x2C]);
    assert_eq!(decode_edid(&e).unwrap().serial, "000AB12C");
}

#[test]
fn parse_edid_serial_falls_back_to_hex_number() {
    let mut e = base_edid();
    e[12..16].copy_from_slice(&[0xDE, 0xAD, 0x01, 0x2F]);
    let (_, _, s) = parse_edid(&e).unwrap();
    assert_eq!(s.as_deref(), Some("DEAD012F"));
}

#[test]
fn serial_descriptor_wins() {
    let mut e = with_descriptor(base_edid(), 90, 0xFF, b"SN12345\n     ");
    e[12] = 0x01;
    assert_eq!(decode_edid(&e).unwrap().serial, "SN12345");
    let (m, d, s) = parse_edid(&e).unwrap();
    assert_eq!(m.as_deref(), Some("ACR"));
    assert_eq!(d, None);
    assert_eq!(s.as_deref(), Some("SN12345"));
}

#[test]
fn first_non_empty_name_descriptor_wins() {
    let e = with_descriptor(base_edid(), 72, 0xFC, b"\n            ");
    let e = with_descriptor(e, 90, 0xFC, b"First\n       ");
    let e = with_descriptor(e, 108, 0xFC, b"Second\n      ");
    assert_eq!(decode_edid(&e).unwrap().model.as_deref(), Some("First"));
}

#[test]
fn descriptor_needs_three_zero_bytes() {
    let mut e = with_descriptor(base_edid(), 72, 0xFC, b"Name         ");
    e[74] = 0x01;
    assert_eq!(decode_edid(&e).unwrap().model, None);
}

#[test]
fn invalid_vendor_letters_give_no_manufacturer() {
    let mut e = base_edid();
    e[8] = 0x00;
    e[9] = 0x00;
    assert_eq!(decode_edid(&e).unwrap().manufacturer, None);
    e[8] = 0x7F;
    e[9] = 0xFF;
    assert_eq!(decode_edid(&e).unwrap().manufacturer, None);
}

#[test]
fn descriptor_text_is_cut_and_trimmed() {
    assert_eq!(parse_descriptor_text(b"  DELL U2720Q\n  "), "DELL U2720Q");
    assert_eq!(parse_descriptor_text(b"AB\x00CD"), "AB");
    assert_eq!(parse_descriptor_text(b"\n"), "");
    assert_eq!(parse_descriptor_text(b""), "");
}
