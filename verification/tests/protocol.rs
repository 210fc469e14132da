use roku_remote::Button;
use roku_remote::NetworkType;
use roku_remote::PowerState;
use roku_remote::decode_apps;
use roku_remote::decode_info;
use roku_remote::load_from_file;
use roku_remote::parse_ssdp_location;
use roku_remote::parse_ssdp_mac;
use roku_remote::split_mac;
use roku_remote::xml::XmlError;
use roku_remote::FieldMap;

#[test]
fn location_header_recovers_address_and_port() {
    let r = parse_ssdp_location("LOCATION: http://192.168.1.50:8060/");
    let (addr, port) = r.expect("header should parse");
    assert_eq!(addr, "192.168.1.50");
    assert_eq!(port, 8060);
}

#[test]
fn location_header_inside_full_response() {
    let text = "HTTP/1.1 200 OK\nCache-Control: max-age=3600\nST: roku:ecp\nLOCATION: http://10.0.0.7:9000/\nUSN: uuid:roku:ecp\n";
    let (addr, port) = parse_ssdp_location(text).expect("should parse");
    assert_eq!(addr, "10.0.0.7");
    assert_eq!(port, 9000);
}

#[test]
fn location_missing_is_rejected() {
    assert!(parse_ssdp_location("HTTP/1.1 200 OK\nST: roku:ecp\n").is_none());
}

#[test]
fn location_malformed_quad_is_rejected() {
    assert!(parse_ssdp_location("LOCATION: http://1234.1.1.1:8060/\n").is_none());
}

#[test]
fn wakeup_mac_recovers_bytes_either_case() {
    let lower = parse_ssdp_mac("WAKEUP: MAC=aa:bb:cc:dd:ee:0f;Timeout=10\n").expect("mac");
    assert_eq!(lower, [0xaa, 0xbb, 0xcc, 0xdd, 0xee, 0x0f]);
    let upper = parse_ssdp_mac("WAKEUP: MAC=AA:BB:CC:DD:EE:0F;Timeout=10\n").expect("mac");
    assert_eq!(upper, lower);
}

#[test]
fn wakeup_bad_group_falls_to_zero() {
    let mac = parse_ssdp_mac("WAKEUP: MAC=zz:11:22:33:44:55;Timeout=10\n").expect("mac");
    assert_eq!(mac, [0, 0x11, 0x22, 0x33, 0x44, 0x55]);
}

#[test]
fn wakeup_absent_yields_none() {
    assert!(parse_ssdp_mac("HTTP/1.1 200 OK\nST: roku:ecp\n").is_none());
}

#[test]
fn button_round_trip_all_fixed_variants() {
    let names = [
        "Home", "Rev", "Fwd", "Play", "Select", "Left", "Right", "Down", "Up", "Back",
        "InstantReplay", "Keyboard", "Info", "Backspace", "Search", "Enter", "Stop",
        "FindRemote", "VolumeDown", "VolumeMute", "VolumeUp", "Power", "PowerOff", "PowerOn",
        "ChannelUp", "ChannelDown", "InputTuner", "InputHDMI1", "InputHDMI2", "InputHDMI3",
        "InputHDMI4", "InputAV1", "1", "2", "3", "4", "5", "6", "7", "8", "9", "0", ".", "Red",
        "Green", "Yellow", "Blue", "Exit", "Guide", "TextSearch", "VoiceSearch",
    ];
    for name in names {
        let b = Button::from_string(name);
        assert_eq!(b.to_string(), name);
        assert_eq!(Button::from_string(&b.to_string()), b);
    }
}

#[test]
fn button_literal_renders_with_prefix() {
    let b = Button::Literal { character: 'x' };
    assert_eq!(b.to_string(), "Lit_-x");
}

#[test]
fn button_literal_renders_percent_encoded() {
    assert_eq!(Button::Literal { character: ' ' }.to_string(), "Lit_-%20");
    assert_eq!(Button::Literal { character: '/' }.to_string(), "Lit_-%2F");
    assert_eq!(Button::Literal { character: '~' }.to_string(), "Lit_-~");
}

#[test]
fn button_from_char_keeps_character() {
    assert_eq!(Button::from_char('a'), Button::Literal { character: 'a' });
    assert_eq!(Button::from_char(' '), Button::Literal { character: ' ' });
    assert_eq!(Button::from_char(' ').to_string(), "Lit_-%20");
}

#[test]
fn network_type_wire_vocabulary() {
    assert_eq!(NetworkType::from_string("ethernet"), NetworkType::Ethernet);
    assert_eq!(NetworkType::from_string("ETHERNET"), NetworkType::Ethernet);
    assert_eq!(NetworkType::from_string("wifi"), NetworkType::Wireless);
    assert_eq!(NetworkType::from_string(""), NetworkType::Wireless);
    assert_eq!(NetworkType::Ethernet.to_string(), "Ethernet");
    assert_eq!(NetworkType::Wireless.to_string(), "Wireless");
}

#[test]
fn power_state_wire_vocabulary() {
    assert_eq!(PowerState::from_string("Off"), PowerState::Off);
    assert_eq!(PowerState::from_string("PowerOff"), PowerState::Off);
    assert_eq!(PowerState::from_string("displayoff"), PowerState::DisplayOff);
    assert_eq!(PowerState::from_string("ON"), PowerState::On);
    assert_eq!(PowerState::from_string("PowerOn"), PowerState::On);
    assert_eq!(PowerState::from_string("sleeping"), PowerState::Unknown);
    assert_eq!(PowerState::Unknown.to_string(), "Unknown");
    assert_eq!(PowerState::DisplayOff.to_string(), "DisplayOff");
}

#[test]
fn decode_single_app_element() {
    let apps = decode_apps("<app id=\"12\" type=\"appl\" version=\"1.0\">Netflix</app>")
        .expect("should decode");
    assert_eq!(apps.len(), 1);
    assert_eq!(apps[0].id, 12);
    assert_eq!(apps[0].apptype, "appl");
    assert_eq!(apps[0].version, "1.0");
    assert_eq!(apps[0].name, "Netflix");
    assert!(apps[0].icon.is_none());
}

#[test]
fn decode_apps_in_document_order() {
    let doc = "<?xml version=\"1.0\"?><apps><app id=\"1\" type=\"a\" version=\"1\">One</app><app id=\"2\" type=\"b\" version=\"2\">Two</app><app id=\"3\" type=\"c\" version=\"3\">Three</app></apps>";
    let apps = decode_apps(doc).expect("should decode");
    assert_eq!(apps.len(), 3);
    assert_eq!(apps[0].id, 1);
    assert_eq!(apps[0].name, "One");
    assert_eq!(apps[1].id, 2);
    assert_eq!(apps[1].apptype, "b");
    assert_eq!(apps[2].id, 3);
    assert_eq!(apps[2].version, "3");
    assert_eq!(apps[2].name, "Three");
}

#[test]
fn decode_app_strips_non_breaking_space() {
    let apps = decode_apps("<app id=\"7\" type=\"t\" version=\"9\">Pri\u{a0}me</app>").unwrap();
    assert_eq!(apps[0].name, "Prime");
}

#[test]
fn decode_app_unescapes_entities() {
    let apps = decode_apps("<app id=\"5\" type=\"t\" version=\"1\">A &amp; B</app>").unwrap();
    assert_eq!(apps[0].name, "A & B");
}

#[test]
fn decode_app_missing_attributes_is_fatal() {
    let r = decode_apps("<apps><app id=\"1\" type=\"a\">X</app></apps>");
    assert_eq!(r.unwrap_err(), XmlError::MissingAttributes);
}

#[test]
fn decode_app_bad_identifier_is_fatal() {
    let r = decode_apps("<app id=\"twelve\" type=\"a\" version=\"1\">X</app>");
    assert_eq!(r.unwrap_err(), XmlError::BadId);
}

#[test]
fn decode_malformed_document_is_fatal() {
    assert_eq!(decode_apps("<app id=\"1\" ").unwrap_err(), XmlError::Malformed);
    assert_eq!(decode_info("<device-info><name x").unwrap_err(), XmlError::Malformed);
}

#[test]
fn decode_info_flat_fields() {
    let doc = "<?xml version=\"1.0\"?><device-info><friendly-device-name>Den</friendly-device-name><network-type>ethernet</network-type></device-info>";
    let m = decode_info(doc).expect("should decode");
    assert_eq!(m.get("friendly-device-name").unwrap(), "Den");
    assert_eq!(m.get("network-type").unwrap(), "ethernet");
    assert!(m.get("serial-number").is_none());
}

#[test]
fn decode_info_repeated_tag_last_wins() {
    let doc = "<device-info><model>Alpha</model><model>Beta</model></device-info>";
    let m = decode_info(doc).unwrap();
    assert_eq!(m.get("model").unwrap(), "Beta");
}

#[test]
fn split_mac_reads_hex_chunks() {
    assert_eq!(split_mac("aa:bb:cc:dd:ee:ff"), [0xaa, 0xbb, 0xcc, 0xdd, 0xee, 0xff]);
    assert_eq!(split_mac("0:0:0:0:0:0"), [0, 0, 0, 0, 0, 0]);
    assert_eq!(split_mac("1:2"), [1, 2, 0, 0, 0, 0]);
    assert_eq!(split_mac("A:b:C:d:E:f"), [10, 11, 12, 13, 14, 15]);
}

#[test]
fn field_map_records_and_shadows() {
    let mut m = FieldMap::new();
    assert!(!m.contains_key("k"));
    m.insert(String::from("k"), String::from("v1"));
    assert_eq!(m.get("k").unwrap(), "v1");
    m.insert(String::from("k"), String::from("v2"));
    assert_eq!(m.get("k").unwrap(), "v2");
    m.insert(String::from("other"), String::from("x"));
    assert_eq!(m.get("other").unwrap(), "x");
    assert_eq!(m.get("k").unwrap(), "v2");
}

#[test]
fn config_text_loads_pairs() {
    let text = "# a comment\nhost = 10.0.0.1\n\nkey=abc\nkey = xyz\n";
    let m = load_from_file(text);
    assert_eq!(m.get("host").unwrap(), "10.0.0.1");
    assert_eq!(m.get("key").unwrap(), "xyz");
    assert!(m.get("# a comment").is_none());
}

#[test]
fn location_overlarge_port_falls_back_to_default() {
    let (addr, port) =
        parse_ssdp_location("LOCATION: http://1.2.3.4:99999999999/x\n").expect("should parse");
    assert_eq!(addr, "1.2.3.4");
    assert_eq!(port, 8060);
}

#[test]
fn location_at_end_of_text_gives_up_last_digit() {
    // with nothing after the digits, the required trailing character
    // is taken from the port run itself
    let (addr, port) = parse_ssdp_location("LOCATION: http://1.2.3.4:8060").expect("should parse");
    assert_eq!(addr, "1.2.3.4");
    assert_eq!(port, 806);
}

#[test]
fn location_single_digit_port_at_end_is_rejected() {
    assert!(parse_ssdp_location("LOCATION: http://1.2.3.4:8").is_none());
}

#[test]
fn decode_self_closing_element_yields_no_record() {
    let apps = decode_apps("<apps><app id=\"1\" type=\"a\" version=\"1\"/></apps>").unwrap();
    assert_eq!(apps.len(), 0);
}
