use mondis::dump::edid_hex_dump;

const HEADER: &str = "          +0          +4          +8          +c            0   4   8   c";

#[test]
fn dump_of_a_short_block() {
    let d = String::from_utf8(edid_hex_dump(&[0x00, 0xFF, 0x41])).unwrap();
    assert_eq!(d, format!("{}\n  +0000   {:<47} ..A", HEADER, "00 ff 41"));
}

#[test]
fn dump_lines_per_sixteen_bytes() {
    let bytes: Vec<u8> = (0x20u8..0x40).chain([0x7F, 0x20]).collect();
    let d = String::from_utf8(edid_hex_dump(&bytes)).unwrap();
    let lines: Vec<&str> = d.split('\n').collect();
    assert_eq!(lines.len(), 4);
    assert_eq!(lines[0], HEADER);
    assert_eq!(lines[1], "  +0000   20 21 22 23 24 25 26 27 28 29 2a 2b 2c 2d 2e 2f  !\"#$%&'()*+,-./");
    assert_eq!(lines[2], "  +0010   30 31 32 33 34 35 36 37 38 39 3a 3b 3c 3d 3e 3f 0123456789:;<=>?");
    assert_eq!(lines[3], format!("  +0020   {:<47} . ", "7f 20"));
}

#[test]
fn dump_of_nothing() {
    assert_eq!(String::from_utf8(edid_hex_dump(&[])).unwrap(), HEADER);
}
