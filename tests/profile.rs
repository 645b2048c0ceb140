use mondis::profile::{parse_profile, parse_profile_line, profile_xml, BusBrightness, BusName};

#[test]
fn profile_text_layout() {
    let entries = vec![BusBrightness { bus: 3, brightness: 40 }, BusBrightness { bus: 9, brightness: 100 }];
    let names = vec![BusName { bus: 3, name: b"Acer <VG270U> & co".to_vec() }];
    let xml = String::from_utf8(profile_xml(&entries, &names, 1700000000)).unwrap();
    assert_eq!(
        xml,
        "<?xml version=\"1.0\" encoding=\"UTF-8\"?>\n<mondis_profile>\n  <brightness_settings>\n    <display bus=\"3\" brightness=\"40\" name=\"Acer &lt;VG270U&gt; &amp; co\" />\n    <display bus=\"9\" brightness=\"100\" name=\"Unknown\" />\n  </brightness_settings>\n  <timestamp>1700000000</timestamp>\n</mondis_profile>\n"
    );
}

#[test]
fn profile_round_trip() {
    let entries = vec![BusBrightness { bus: 3, brightness: 40 }, BusBrightness { bus: 6, brightness: 0 }];
    let names = vec![BusName { bus: 6, name: b"LG \"TV\"".to_vec() }];
    let xml = profile_xml(&entries, &names, 0);
    assert_eq!(parse_profile(&xml), entries);
}

#[test]
fn profile_lines() {
    assert_eq!(parse_profile_line(b"  <display bus=\"5\" brightness=\"+70\" />"), Some(BusBrightness { bus: 5, brightness: 70 }));
    assert_eq!(parse_profile_line(b"<display bus=\"300\" brightness=\"70\" />"), None);
    assert_eq!(parse_profile_line(b"<display brightness=\"70\" />"), None);
    assert_eq!(parse_profile_line(b"<other bus=\"1\" brightness=\"2\" />"), None);
    assert_eq!(parse_profile(b"<display bus=\"1\" brightness=\"2\"/>\n<display bus=\"1\" brightness=\"3\"/>"), vec![BusBrightness { bus: 1, brightness: 2 }, BusBrightness { bus: 1, brightness: 3 }]);
}
