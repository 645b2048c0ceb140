use mondis::ddcutil::{
    parse_current_value, parse_detect_monitors, parse_detect_output, parse_monitor_fields, parse_spaced_current_value,
    parse_vcp_number_value, parse_vcp_text_value,
};

#[test]
fn detect_listing() {
    let text = b"Display 1\n   I2C bus:  /dev/i2c-3\n   Mfg: GSM Model: LG TV SSCR2  \nInvalid display\nDisplay 2\n   I2C bus:  /dev/i2c-6\n";
    let d = parse_detect_output(text);
    assert_eq!(d.len(), 2);
    assert_eq!(d[0].index, 1);
    assert_eq!(d[0].mfg.as_deref(), Some("GSM"));
    assert_eq!(d[0].model.as_deref(), Some("LG TV SSCR2"));
    assert_eq!(d[1].index, 2);
    assert_eq!(d[1].mfg, None);
}

#[test]
fn detect_listing_edge_cases() {
    assert!(parse_detect_output(b"Mfg: ACR Model: X\n").is_empty());
    let d = parse_detect_output(b"Display 300\nDisplay\t4");
    assert_eq!(d.len(), 2);
    assert_eq!(d[0].index, 0);
    assert_eq!(d[1].index, 4);
    assert!(parse_detect_output(b"Display1\n").is_empty());
}

#[test]
fn current_value_line() {
    let t = b"VCP code 0x10 (Brightness): current value =    50, max value =   100\n";
    assert_eq!(parse_current_value(t), None);
    let t = b"VCP code 0x10 (Brightness): current value = 50, max value = 100\n";
    assert_eq!(parse_current_value(t), Some(50));
    assert_eq!(parse_current_value(b"current value = x current value = 7"), Some(7));
    assert_eq!(parse_current_value(b"current value = 999"), Some(0));
    assert_eq!(parse_current_value(b"nothing"), None);
}

#[test]
fn detect_monitors_listing() {
    let text = b"Display 1\n   I2C bus:  /dev/i2c-3\n   Monitor:             GSM:LG TV SSCR2:0x01010101\n\nInvalid display\n   I2C bus:  /dev/i2c-5\n   Monitor:  HSI : HiTV :\nInvalid display\nDisplay 2\n   Monitor: ACR:VG270U:\n";
    let d = parse_detect_monitors(text);
    assert_eq!(d.len(), 4);
    assert_eq!((d[0].index, d[0].supports_ddc), (1, true));
    assert_eq!(d[0].mfg.as_deref(), Some("GSM"));
    assert_eq!(d[0].model.as_deref(), Some("LG TV SSCR2"));
    assert_eq!((d[1].index, d[1].supports_ddc), (201, false));
    assert_eq!(d[1].mfg.as_deref(), Some("HSI"));
    assert_eq!(d[1].model.as_deref(), Some("HiTV"));
    assert_eq!((d[2].index, d[2].supports_ddc), (202, false));
    assert_eq!(d[2].mfg, None);
    assert_eq!(d[3].index, 2);
    assert_eq!(d[3].model.as_deref(), Some("VG270U"));
}

#[test]
fn monitor_line_needs_two_fields() {
    assert_eq!(parse_monitor_fields(b"Monitor: ::"), None);
    assert_eq!(parse_monitor_fields(b"Monitor: A:B"), None);
    assert_eq!(parse_monitor_fields(b"  Monitor:A:B:"), Some((b"A".to_vec(), b"B".to_vec())));
}

#[test]
fn spaced_current_value() {
    let t = b"VCP code 0x10 (Brightness                    ): current value =    50, max value =   100\n";
    assert_eq!(parse_spaced_current_value(t), Some(50));
    assert_eq!(parse_spaced_current_value(b"current value =50"), None);
    assert_eq!(parse_spaced_current_value(b"current value = x, current value =\t7"), Some(7));
}

#[test]
fn vcp_text_values() {
    let t = b"VCP code 0x14 (Select color preset           ): 6500 K (sl=0x05)\n";
    assert_eq!(parse_vcp_text_value(t).as_deref(), None);
    let t = b"VCP code 0x14 (Select color preset): current value: 6500 K (sl=0x05)\n";
    assert_eq!(parse_vcp_text_value(t).as_deref(), Some("current value"));
    let t = b"current value = HDMI-1 (sl=0x11)\nother: line\ncurrent value, x: DisplayPort-1 (0x0f)";
    assert_eq!(parse_vcp_text_value(t).as_deref(), Some("DisplayPort-1"));
}

#[test]
fn vcp_number_values() {
    let t = b"VCP code 0x12 (Contrast): current value =    75, max value =   100\n";
    assert_eq!(parse_vcp_number_value(t), Some(75));
    assert_eq!(parse_vcp_number_value(b"current value = 80\ncurrent value = bad, x"), Some(80));
    assert_eq!(parse_vcp_number_value(b"current value = 300,"), None);
    assert_eq!(parse_vcp_number_value(b"no value here"), None);
}

#[test]
fn detect_listing_later_mfg_field() {
    let d = parse_detect_output(b"Display 1\nMfg: Model: X Mfg: ACME Model: Y\n");
    assert_eq!(d.len(), 1);
    assert_eq!(d[0].mfg.as_deref(), Some("ACME"));
    assert_eq!(d[0].model.as_deref(), Some("Y"));
    let d = parse_detect_output(b"Display 1\nMfg: A Model: \nMfg: B Model:  Z \n");
    assert_eq!(d[0].mfg.as_deref(), Some("B"));
    assert_eq!(d[0].model.as_deref(), Some("Z"));
}
