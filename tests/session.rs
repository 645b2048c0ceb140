use mondis::ddc::{DdcError, VcpReading};
use mondis::details::{input_source_name, is_digital_input, power_state_name, MonitorDetails, detail_reads};
use mondis::registry::ControlMethod;
use mondis::session::{BrightnessState, SliderMemory};

#[test]
fn original_value_is_kept() {
    let mut s = BrightnessState::new();
    s.save_original(3, 40);
    s.save_original(3, 55);
    assert_eq!(s.original(3), Some(40));
    assert_eq!(s.current(3), Some(55));
    assert!(!s.has_changes());
}

#[test]
fn changes_tracked_across_buses() {
    let mut s = BrightnessState::new();
    s.save_original(3, 40);
    s.save_original(6, 70);
    s.update_current(3, 50);
    assert!(s.has_changes());
    s.update_current(6, 20);
    assert!(s.has_changes());
    s.update_current(3, 40);
    assert!(s.has_changes());
    assert!(s.has_changes_for_other_buses(3));
    assert!(!s.has_changes_for_other_buses(6));
    s.update_current(6, 70);
    assert!(!s.has_changes());
}

#[test]
fn update_without_original_keeps_flag() {
    let mut s = BrightnessState::new();
    s.update_current(9, 10);
    assert!(!s.has_changes());
    assert_eq!(s.current(9), Some(10));
}

#[test]
fn reset_and_confirm() {
    let mut s = BrightnessState::new();
    s.save_original(3, 40);
    s.update_current(3, 90);
    s.start_timer();
    assert!(s.timer_active());
    s.reset_to_original();
    assert_eq!(s.current(3), Some(40));
    assert!(!s.has_changes() && !s.timer_active());
    s.update_current(3, 90);
    s.confirm_changes();
    assert_eq!(s.original(3), Some(90));
    assert!(!s.has_changes());
    s.clear();
    assert_eq!(s.original(3), None);
}

#[test]
fn slider_flags_and_last_values() {
    let mut m = SliderMemory::new();
    assert!(!m.is_programmatic_update(3));
    m.set_programmatic(3, true);
    assert!(m.is_programmatic_update(3));
    assert!(!m.is_programmatic_update(3));
    m.remember_value(3, ControlMethod::Ddc, 40);
    m.remember_value(3, ControlMethod::Software, 80);
    assert_eq!(m.get_last_value(3, ControlMethod::Ddc), Some(40));
    assert_eq!(m.get_last_value(3, ControlMethod::Software), Some(80));
    assert_eq!(m.get_last_value(4, ControlMethod::Ddc), None);
}

#[test]
fn detail_names() {
    assert_eq!(input_source_name(0x0F), "DisplayPort-1");
    assert_eq!(input_source_name(0x12), "HDMI-2");
    assert_eq!(input_source_name(0x01), "Unknown");
    assert_eq!(power_state_name(0x04), "Off (Soft)");
    assert_eq!(power_state_name(0x09), "Unknown");
    assert!(is_digital_input(0x80));
    assert!(!is_digital_input(0x7F));
}

fn failure() -> DdcError {
    DdcError::TransportIo { device: "/dev/i2c-3".to_string(), message: "timeout".to_string() }
}

#[test]
fn detail_reads_count_failures() {
    let mut d = MonitorDetails::new(3);
    for code in detail_reads(true).features {
        d.record_vcp(code, Err(failure()));
    }
    assert_eq!(d.read_errors, 6);
    d.record_vcp(0x10, Ok(VcpReading { current: 50, maximum: 100 }));
    d.record_vcp(0x60, Ok(VcpReading { current: 0x11, maximum: 0 }));
    d.record_vcp(0xD6, Ok(VcpReading { current: 1, maximum: 5 }));
    assert_eq!(d.brightness, Some(VcpReading { current: 50, maximum: 100 }));
    assert_eq!(d.input_source, Some(0x11));
    assert_eq!(d.power_state, Some(1));
    assert_eq!(d.read_errors, 6);
    d.record_capabilities(Err(DdcError::EmptyOrCorruptCapabilities));
    assert_eq!(d.read_errors, 7);
    d.record_capabilities(Ok(b"(vcp(10 12)mccs_ver(2.0))".to_vec()));
    assert_eq!(d.capabilities_text.as_deref(), Some("(vcp(10 12)mccs_ver(2.0))"));
    let c = d.capabilities.as_ref().unwrap();
    assert_eq!(c.vcp_codes, vec![0x10, 0x12]);
    assert_eq!(c.mccs_version.as_deref(), Some("2.0"));
    d.record_edid(&[0u8; 10]);
    assert!(d.identity.is_none());
}

#[test]
fn detail_system_facts() {
    let mut d = MonitorDetails::new(3);
    d.record_system(None, Some(b"nvidia\n"), Some(b"/pci0000:00"), None, None);
    assert_eq!(d.read_errors, 1);
    assert_eq!(d.drm_connector, None);
    d.record_system(Some(b"card1-DP-3"), Some(b"nvidia\n"), None, Some((b"0x10de\n", b"0x2504\n")), Some(b"On\n"));
    assert_eq!(d.read_errors, 2);
    assert_eq!(d.drm_connector.as_deref(), Some("card1-DP-3"));
    assert_eq!(d.driver.as_deref(), Some("nvidia"));
    assert_eq!(d.pci_path, None);
    assert_eq!(d.pci_id.as_deref(), Some("0x10de:0x2504"));
    assert_eq!(d.power_state_label().as_deref(), Some("DPMS: On"));
    d.record_system(Some(b"card1-DP-3"), None, Some(b"/pci0000:00/0000:00:01.0"), None, None);
    assert_eq!(d.read_errors, 3);
    assert_eq!(d.pci_path.as_deref(), Some("/sys/devices/pci0000:00/0000:00:01.0"));
    d.record_vcp(0xD6, Ok(VcpReading { current: 4, maximum: 5 }));
    assert_eq!(d.power_state_label().as_deref(), Some("Off (Soft) (0x04)"));
}

#[test]
fn detail_model_falls_back_to_capabilities() {
    let mut d = MonitorDetails::new(3);
    assert_eq!(d.model_name(), None);
    d.record_capabilities(Ok(b"(model(VG270U)vcp(10))".to_vec()));
    assert_eq!(d.model_name().as_deref(), Some("VG270U"));
    let mut e = vec![0u8; 128];
    e[0..8].copy_from_slice(&[0x00, 0xFF, 0xFF, 0xFF, 0xFF, 0xFF, 0xFF, 0x00]);
    e[54..59].copy_from_slice(&[0x00, 0x00, 0x00, 0xFC, 0x00]);
    e[59..72].copy_from_slice(b"Panel\n       ");
    d.record_edid(&e);
    assert_eq!(d.model_name().as_deref(), Some("Panel"));
    assert_eq!(d.edid.as_deref(), Some(e.as_slice()));
}

#[test]
fn detail_read_plan() {
    let r = detail_reads(true);
    assert!(r.capabilities);
    assert_eq!(r.features, vec![0x10, 0x12, 0x60, 0x62, 0x16, 0x18, 0x1A, 0x13, 0xD6]);
    let r = detail_reads(false);
    assert!(!r.capabilities);
    assert!(r.features.is_empty());
}

#[test]
fn detail_reads_keep_other_fields() {
    let mut d = MonitorDetails::new(3);
    d.record_capabilities(Ok(b"(vcp(10))".to_vec()));
    d.record_vcp(0x10, Ok(VcpReading { current: 1, maximum: 2 }));
    d.record_vcp(0x77, Ok(VcpReading { current: 1, maximum: 2 }));
    d.record_edid(&[0u8; 4]);
    assert!(d.capabilities.is_some());
    assert_eq!(d.capabilities_text.as_deref(), Some("(vcp(10))"));
    assert_eq!(d.brightness, Some(VcpReading { current: 1, maximum: 2 }));
    assert_eq!(d.read_errors, 0);
}
