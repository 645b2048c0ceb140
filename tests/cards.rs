use mondis::cards::{bytes_lt, group_displays_by_card, CardName};
use mondis::connector::parse_connector_info;
use mondis::registry::DisplayInfo;

fn display(bus: u8, connector: Option<&str>) -> DisplayInfo {
    DisplayInfo {
        i2c_bus: bus,
        name: format!("bus {}", bus),
        identity: None,
        connector: connector.map(|c| c.to_string()),
        supports_ddc: true,
        fallback_output: None,
        fallback_confirmed: false,
        connector_info: connector.and_then(|c| parse_connector_info(c.as_bytes())),
        preferred_method: None,
    }
}

#[test]
fn groups_sorted_by_adapter_name() {
    let names = vec![
        CardName { index: 0, name: b"NVIDIA RTX 3060".to_vec() },
        CardName { index: 1, name: b"AMD RX 6600".to_vec() },
    ];
    let displays = vec![
        display(3, Some("card0-DP-1")),
        display(5, Some("card1-HDMI-A-1")),
        display(6, None),
        display(7, Some("card0-DP-2")),
        display(8, Some("card4-DP-1")),
    ];
    let cards = group_displays_by_card(displays, &names);
    let got: Vec<(String, Vec<u8>)> = cards
        .iter()
        .map(|c| (c.name.clone(), c.displays.iter().map(|d| d.i2c_bus).collect()))
        .collect();
    assert_eq!(
        got,
        vec![
            ("AMD RX 6600".to_string(), vec![5]),
            ("NVIDIA RTX 3060".to_string(), vec![3, 7]),
            ("Unknown GPU".to_string(), vec![6, 8]),
        ]
    );
}

#[test]
fn no_displays_no_groups() {
    assert!(group_displays_by_card(vec![], &vec![]).is_empty());
}

#[test]
fn byte_order() {
    assert!(bytes_lt(b"AMD", b"Intel"));
    assert!(bytes_lt(b"AB", b"ABC"));
    assert!(!bytes_lt(b"ABC", b"AB"));
    assert!(!bytes_lt(b"AB", b"AB"));
}
