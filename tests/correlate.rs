use mondis::connector::{parse_connector_info, PortKind};
use mondis::correlate::{correlate_output, edid_matches, guess_output_name, parse_verbose_outputs, Correlation, OutputEdid};

fn edid(seed: u8) -> Vec<u8> {
    let mut e: Vec<u8> = (0..128u32).map(|i| (i as u8).wrapping_mul(7) ^ seed).collect();
    e[0..8].copy_from_slice(&[0x00, 0xFF, 0xFF, 0xFF, 0xFF, 0xFF, 0xFF, 0x00]);
    e
}

fn hex_lines(e: &[u8]) -> String {
    e.chunks(16)
        .map(|c| format!("\t\t{}\n", c.iter().map(|b| format!("{:02x}", b)).collect::<String>()))
        .collect()
}

#[test]
fn equal_base_blocks_match_whatever_follows() {
    let a = edid(1);
    let mut b = a.clone();
    b.extend_from_slice(&[1, 2, 3]);
    let mut c = a.clone();
    c.extend_from_slice(&[9, 9]);
    assert!(edid_matches(&a, &b));
    assert!(edid_matches(&b, &c));
}

#[test]
fn any_differing_base_byte_breaks_the_match() {
    let a = edid(1);
    for i in [0usize, 8, 64, 127] {
        let mut b = a.clone();
        b[i] ^= 0x01;
        assert!(!edid_matches(&a, &b));
    }
    assert!(!edid_matches(&a[..127], &a[..127]));
}

#[test]
fn verbose_dump_outputs() {
    let e1 = edid(1);
    let e2 = edid(2);
    let dump = format!(
        "Screen 0: minimum 8 x 8\nDP-3 connected primary 2560x1440+0+0\n\tEDID:\n{}\tBrightness: 1.0\nHDMI-0 disconnected\nDP-1 connected 1920x1080+2560+0\n\tEDID:\n{}HDMI-1 connected\n\tBrightness: 0.5\n",
        hex_lines(&e1),
        hex_lines(&e2)
    );
    let outs = parse_verbose_outputs(dump.as_bytes());
    assert_eq!(outs.len(), 2);
    assert_eq!(outs[0].name, "DP-3");
    assert_eq!(outs[0].edid, e1);
    assert_eq!(outs[1].name, "DP-1");
    assert_eq!(outs[1].edid, e2);
}

#[test]
fn verbose_dump_last_record_without_newline() {
    let e1 = edid(5);
    let dump = format!("eDP-1 connected\n{}", hex_lines(&e1).trim_end());
    let outs = parse_verbose_outputs(dump.as_bytes());
    assert_eq!(outs.len(), 1);
    assert_eq!(outs[0].name, "eDP-1");
    assert_eq!(outs[0].edid, e1);
}

#[test]
fn verbose_dump_ignores_hex_before_any_output() {
    let dump = "00ffffffffffff00aabbccddeeff0011\nfoo bar\n";
    assert!(parse_verbose_outputs(dump.as_bytes()).is_empty());
}

fn outputs() -> Vec<OutputEdid> {
    vec![
        OutputEdid { name: "DP-0".to_string(), edid: edid(3) },
        OutputEdid { name: "DP-5".to_string(), edid: edid(4) },
    ]
}

#[test]
fn correlation_confirmed_by_edid() {
    let mut e = edid(4);
    e.push(0xAA);
    match correlate_output(b"card1-HDMI-A-1", Some(&e), &outputs()) {
        Correlation::Confirmed { output } => assert_eq!(output, "DP-5"),
        other => panic!("unexpected {:?}", other),
    }
}

#[test]
fn correlation_guessed_without_match() {
    match correlate_output(b"card1-DP-3", Some(&edid(9)), &outputs()) {
        Correlation::Guessed { output } => assert_eq!(output, "DP-3"),
        other => panic!("unexpected {:?}", other),
    }
    match correlate_output(b"card0-HDMI-A-1", None, &outputs()) {
        Correlation::Guessed { output } => assert_eq!(output, "HDMI-0"),
        other => panic!("unexpected {:?}", other),
    }
}

#[test]
fn correlation_unavailable() {
    assert!(matches!(correlate_output(b"card0-VGA-1", None, &outputs()), Correlation::Unavailable));
}

#[test]
fn guess_uses_last_part() {
    assert_eq!(guess_output_name(b"card2-DP-7"), Some(b"DP-7".to_vec()));
    assert_eq!(guess_output_name(b"DP"), Some(b"DP-DP".to_vec()));
    assert_eq!(guess_output_name(b"card0-DVI-D-1"), None);
}

#[test]
fn connector_name_parts() {
    let c = parse_connector_info(b"card1-DP-3").unwrap();
    assert_eq!(c.card_index, 1);
    assert_eq!(c.port_kind, PortKind::DisplayPort);
    assert_eq!(c.port_type, "DP");
    assert_eq!(c.port_number, "3");
    assert_eq!(c.port_label, "DisplayPort 3");
}

#[test]
fn connector_labels() {
    let cases = [
        ("card0-HDMI-A-1", PortKind::Hdmi, "HDMI Port A"),
        ("card0-DVI-D-1", PortKind::Dvi, "DVI Port D"),
        ("card2-VGA-1", PortKind::Vga, "VGA Port 1"),
        ("card0-eDP-1", PortKind::Edp, "eDP Port 1"),
        ("card0-LVDS-1", PortKind::Lvds, "LVDS Port 1"),
        ("card0-Writeback-1", PortKind::Other, "Writeback Port 1"),
    ];
    for (name, kind, label) in cases {
        let c = parse_connector_info(name.as_bytes()).unwrap();
        assert_eq!(c.port_kind, kind);
        assert_eq!(c.port_label, label);
    }
}

#[test]
fn connector_card_index_fallback() {
    assert_eq!(parse_connector_info(b"cardX-DP-1").unwrap().card_index, 0);
    assert_eq!(parse_connector_info(b"card300-DP-1").unwrap().card_index, 0);
    assert_eq!(parse_connector_info(b"card12-DP-1").unwrap().card_index, 12);
}

#[test]
fn connector_with_too_few_parts() {
    assert!(parse_connector_info(b"card1-DP").is_none());
    assert!(parse_connector_info(b"eDP1").is_none());
}
