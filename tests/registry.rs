use mondis::control::{brightness_factor_text, route_brightness, BrightnessRoute, ControlError};
use mondis::correlate::OutputEdid;
use mondis::registry::{scan_displays, vendor_name_bytes, BusObservation, ConnectorEdid, ControlMethod, DisplayInfo, MAX_BUS};

fn edid(name: &[u8]) -> Vec<u8> {
    let mut e = vec![0u8; 128];
    e[0..8].copy_from_slice(&[0x00, 0xFF, 0xFF, 0xFF, 0xFF, 0xFF, 0xFF, 0x00]);
    e[8] = 0x04;
    e[9] = 0x72;
    e[72..77].copy_from_slice(&[0x00, 0x00, 0x00, 0xFC, 0x00]);
    e[77..90].copy_from_slice(name);
    e
}

fn absent(bus: u8) -> BusObservation {
    BusObservation { bus, present: false, ddc_ok: false, edid: None }
}

#[test]
fn scan_with_one_bus_present() {
    let obs: Vec<BusObservation> = (0..=MAX_BUS)
        .map(|b| if b == 3 { BusObservation { bus: 3, present: true, ddc_ok: true, edid: None } } else { absent(b) })
        .collect();
    let d = scan_displays(&obs, &vec![], &vec![]);
    assert_eq!(d.len(), 1);
    assert_eq!(d[0].i2c_bus, 3);
    assert!(d[0].supports_ddc);
    assert_eq!(d[0].name, "I2C Device (bus 3) (DDC)");
    assert_eq!(d[0].preferred_method, Some(ControlMethod::Ddc));
}

#[test]
fn scan_drops_buses_with_nothing() {
    let obs = vec![
        BusObservation { bus: 1, present: true, ddc_ok: false, edid: None },
        BusObservation { bus: 2, present: true, ddc_ok: false, edid: Some(vec![1, 2, 3]) },
        BusObservation { bus: 11, present: true, ddc_ok: true, edid: None },
    ];
    assert!(scan_displays(&obs, &vec![], &vec![]).is_empty());
}

#[test]
fn scan_names_and_correlates() {
    let e = edid(b"VG270U\n      ");
    let obs = vec![BusObservation { bus: 6, present: true, ddc_ok: false, edid: Some(e.clone()) }];
    let conns = vec![
        ConnectorEdid { name: b"card1-HDMI-A-1".to_vec(), edid: edid(b"Other\n       ") },
        ConnectorEdid { name: b"card1-DP-3".to_vec(), edid: e.clone() },
    ];
    let outs = vec![OutputEdid { name: "DP-3".to_string(), edid: e.clone() }];
    let d = scan_displays(&obs, &conns, &outs);
    assert_eq!(d.len(), 1);
    let d = &d[0];
    assert_eq!(d.name, "Acer VG270U • card1-DP-3 (xrandr)");
    assert_eq!(d.connector.as_deref(), Some("card1-DP-3"));
    assert_eq!(d.fallback_output.as_deref(), Some("DP-3"));
    assert!(d.fallback_confirmed);
    assert_eq!(d.preferred_method, Some(ControlMethod::Software));
    assert_eq!(d.connector_info.as_ref().unwrap().port_label, "DisplayPort 3");
    assert_eq!(d.identity.as_ref().unwrap().model.as_deref(), Some("VG270U"));
}

#[test]
fn scan_guessed_output_is_marked() {
    let e = edid(b"VG270U\n      ");
    let obs = vec![BusObservation { bus: 5, present: true, ddc_ok: false, edid: Some(e.clone()) }];
    let conns = vec![ConnectorEdid { name: b"card0-HDMI-A-1".to_vec(), edid: e.clone() }];
    let d = scan_displays(&obs, &conns, &vec![]);
    assert_eq!(d[0].fallback_output.as_deref(), Some("HDMI-0"));
    assert!(!d[0].fallback_confirmed);
}

#[test]
fn scan_identity_without_control() {
    let e = edid(b"Panel\n       ");
    let obs = vec![BusObservation { bus: 4, present: true, ddc_ok: false, edid: Some(e) }];
    let d = scan_displays(&obs, &vec![], &vec![]);
    assert_eq!(d[0].name, "Acer Panel (no control)");
    assert_eq!(d[0].preferred_method, None);
}

#[test]
fn vendor_names() {
    assert_eq!(vendor_name_bytes(b"GSM"), b"LG".to_vec());
    assert_eq!(vendor_name_bytes(b"HPN"), b"HP".to_vec());
    assert_eq!(vendor_name_bytes(b"XYZ"), b"XYZ".to_vec());
}

fn display(ddc: bool, out: Option<&str>) -> DisplayInfo {
    DisplayInfo {
        i2c_bus: 7,
        name: String::new(),
        identity: None,
        connector: None,
        supports_ddc: ddc,
        fallback_output: out.map(|s| s.to_string()),
        fallback_confirmed: false,
        connector_info: None,
        preferred_method: None,
    }
}

#[test]
fn route_prefers_requested_method() {
    let d = display(true, Some("DP-3"));
    assert!(matches!(route_brightness(&d, Some(ControlMethod::Software)), Ok(BrightnessRoute::Software { output }) if output == "DP-3"));
    assert!(matches!(route_brightness(&d, Some(ControlMethod::Ddc)), Ok(BrightnessRoute::Ddc { bus: 7 })));
    assert!(matches!(route_brightness(&d, None), Ok(BrightnessRoute::Ddc { bus: 7 })));
}

#[test]
fn route_falls_back_when_preference_unavailable() {
    let d = display(false, Some("DP-3"));
    assert!(matches!(route_brightness(&d, Some(ControlMethod::Ddc)), Ok(BrightnessRoute::Software { .. })));
    let d = display(true, None);
    assert!(matches!(route_brightness(&d, Some(ControlMethod::Software)), Ok(BrightnessRoute::Ddc { bus: 7 })));
    let d = display(false, None);
    assert_eq!(route_brightness(&d, None).unwrap_err(), ControlError::NoMethodAvailable);
}

#[test]
fn factor_text() {
    assert_eq!(brightness_factor_text(50), "0.50");
    assert_eq!(brightness_factor_text(100), "1.00");
    assert_eq!(brightness_factor_text(7), "0.07");
    assert_eq!(brightness_factor_text(0), "0.00");
    assert_eq!(brightness_factor_text(255), "2.55");
}
