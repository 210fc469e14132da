use roku_remote::App;
use roku_remote::Button;
use roku_remote::Device;
use roku_remote::DeviceError;
use roku_remote::NetworkType;
use roku_remote::PowerState;
use roku_remote::RecordingWake;
use roku_remote::ScriptedSession;
use roku_remote::handle_ssdp_response;
use roku_remote::devices_from_datagrams;
use roku_remote::session::ContentData;
use roku_remote::session::RequestKind;
use roku_remote::session::Response;

fn text_response(body: &str) -> Option<Response> {
    Some(Response { content_data: Some(ContentData::Text { string: String::from(body) }) })
}

fn connected_device(script: Vec<Option<Response>>) -> Device<ScriptedSession> {
    let mut d: Device<ScriptedSession> = Device::new("192.168.1.60", 8060);
    d.connection = Some(ScriptedSession::with_script(true, script));
    d
}

#[test]
fn new_device_has_defaults() {
    let d: Device<ScriptedSession> = Device::new("10.1.2.3", 8060);
    assert!(!d.is_connected());
    assert_eq!(d.ipv4, "10.1.2.3");
    assert_eq!(d.port, 8060);
    assert_eq!(d.name, "");
    assert_eq!(d.network, NetworkType::Wireless);
    assert!(d.mac_wol.is_none());
    assert!(d.mac_wlan.is_none());
    assert!(d.mac_eth.is_none());
    assert_eq!(d.power_state, PowerState::Unknown);
}

#[test]
fn connect_without_authentication_stays_disconnected() {
    let mut d: Device<ScriptedSession> = Device::new("192.168.1.2", 8060);
    let connected = d.connect(vec![1, 2, 3]);
    assert!(!connected);
    assert!(!d.is_connected());
}

#[test]
fn operations_require_a_session() {
    let mut d: Device<ScriptedSession> = Device::new("192.168.1.2", 8060);
    assert_eq!(d.get_info().unwrap_err(), DeviceError::NotConnected);
    assert_eq!(d.get_installed_apps().unwrap_err(), DeviceError::NotConnected);
    assert_eq!(d.press_button(Button::Home).unwrap_err(), DeviceError::NotConnected);
    assert_eq!(d.update_self().unwrap_err(), DeviceError::NotConnected);
}

#[test]
fn send_request_stamps_sequence_numbers() {
    let mut d = connected_device(vec![text_response("<x></x>"), text_response("<x></x>")]);
    let _ = d.get_info();
    let _ = d.get_info();
    let sent = d.connection.as_ref().unwrap().sent_requests().clone();
    assert_eq!(sent.len(), 2);
    assert_eq!(sent[0].kind, RequestKind::DeviceInfo);
    assert_eq!(sent[0].request_id, 1);
    assert_eq!(sent[1].request_id, 2);
}

#[test]
fn get_info_decodes_body() {
    let body = "<device-info><friendly-device-name>Den</friendly-device-name></device-info>";
    let mut d = connected_device(vec![text_response(body)]);
    let m = d.get_info().expect("should decode");
    assert_eq!(m.get("friendly-device-name").unwrap(), "Den");
}

#[test]
fn get_info_empty_and_bodyless_responses() {
    let mut d = connected_device(vec![]);
    assert_eq!(d.get_info().unwrap_err(), DeviceError::EmptyResponse);
    let mut d2 = connected_device(vec![Some(Response { content_data: None })]);
    assert_eq!(d2.get_info().unwrap_err(), DeviceError::NoContent);
    let mut d3 = connected_device(vec![Some(Response {
        content_data: Some(ContentData::Data { bytes: vec![1, 2] }),
    })]);
    assert_eq!(d3.get_info().unwrap_err(), DeviceError::NoContent);
}

#[test]
fn get_installed_apps_decodes_records() {
    let body = "<apps><app id=\"12\" type=\"appl\" version=\"1.0\">Netflix</app></apps>";
    let mut d = connected_device(vec![text_response(body)]);
    let apps = d.get_installed_apps().expect("should decode");
    assert_eq!(apps.len(), 1);
    assert_eq!(apps[0].id, 12);
    assert_eq!(apps[0].name, "Netflix");
}

#[test]
fn press_button_sends_protocol_string() {
    let mut d = connected_device(vec![text_response("")]);
    assert!(d.press_button(Button::Rewind).is_ok());
    let sent = d.connection.as_ref().unwrap().sent_requests().clone();
    assert_eq!(sent.len(), 1);
    match &sent[0].kind {
        RequestKind::PressKey { key } => assert_eq!(key, "Rev"),
        other => panic!("unexpected request {:?}", other),
    }
}

#[test]
fn press_buttons_stops_at_first_failure() {
    // the third of five presses gets no response: presses one and two
    // have been sent, four and five have not
    let script = vec![text_response(""), text_response(""), None];
    let mut d = connected_device(script);
    let buttons = vec![Button::Up, Button::Up, Button::Down, Button::Left, Button::Right];
    let r = d.press_buttons(buttons);
    assert_eq!(r.unwrap_err(), DeviceError::EmptyResponse);
    let sent = d.connection.as_ref().unwrap().sent_requests().clone();
    assert_eq!(sent.len(), 3);
    match &sent[2].kind {
        RequestKind::PressKey { key } => assert_eq!(key, "Down"),
        other => panic!("unexpected request {:?}", other),
    }
}

#[test]
fn find_remote_presses_its_button() {
    let mut d = connected_device(vec![text_response("")]);
    assert!(d.find_remote().is_ok());
    let sent = d.connection.as_ref().unwrap().sent_requests().clone();
    match &sent[0].kind {
        RequestKind::PressKey { key } => assert_eq!(key, "FindRemote"),
        other => panic!("unexpected request {:?}", other),
    }
}

#[test]
fn launch_app_sends_identifier() {
    let mut d = connected_device(vec![text_response("")]);
    d.launch_app_by_id(837);
    let sent = d.connection.as_ref().unwrap().sent_requests().clone();
    assert_eq!(sent[0].kind, RequestKind::LaunchApp { channel_id: 837 });
}

#[test]
fn toggle_power_off_without_wake_address_does_nothing() {
    let mut d: Device<ScriptedSession> = Device::new("192.168.1.2", 8060);
    d.power_state = PowerState::Off;
    let mut wake = RecordingWake::new();
    d.toggle_power_state(&mut wake);
    assert_eq!(wake.wake_count(), 0);
    assert!(!d.is_connected());
}

#[test]
fn toggle_power_off_with_wake_address_sends_one_signal() {
    let mut d: Device<ScriptedSession> = Device::new("192.168.1.2", 8060);
    d.power_state = PowerState::Off;
    d.mac_wol = Some([1, 2, 3, 4, 5, 6]);
    let mut wake = RecordingWake::new();
    d.toggle_power_state(&mut wake);
    assert_eq!(wake.wake_count(), 1);
}

#[test]
fn toggle_power_on_presses_power() {
    let mut d = connected_device(vec![text_response("")]);
    d.power_state = PowerState::On;
    let mut wake = RecordingWake::new();
    d.toggle_power_state(&mut wake);
    assert_eq!(wake.wake_count(), 0);
    let sent = d.connection.as_ref().unwrap().sent_requests().clone();
    match &sent[0].kind {
        RequestKind::PressKey { key } => assert_eq!(key, "Power"),
        other => panic!("unexpected request {:?}", other),
    }
}

#[test]
fn supports_wake_on_lan_reports_address() {
    let mut d: Device<ScriptedSession> = Device::new("192.168.1.2", 8060);
    assert!(!d.supports_wake_on_lan());
    d.mac_wol = Some([0xde, 0xad, 0xbe, 0xef, 0x00, 0x01]);
    assert!(d.supports_wake_on_lan());
}

#[test]
fn update_self_rewrites_fields() {
    let body = "<device-info><friendly-device-name>Den</friendly-device-name><network-type>ethernet</network-type><wifi-mac>aa:bb:cc:dd:ee:ff</wifi-mac><supports-ethernet>true</supports-ethernet><ethernet-mac>11:22:33:44:55:66</ethernet-mac></device-info>";
    let mut d = connected_device(vec![text_response(body)]);
    d.update_self().expect("refresh should succeed");
    assert_eq!(d.name, "Den");
    assert_eq!(d.network, NetworkType::Ethernet);
    assert_eq!(d.mac_wlan, Some([0xaa, 0xbb, 0xcc, 0xdd, 0xee, 0xff]));
    assert_eq!(d.mac_eth, Some([0x11, 0x22, 0x33, 0x44, 0x55, 0x66]));
}

#[test]
fn update_self_ethernet_mac_defaults_to_zero() {
    let body = "<device-info><friendly-device-name>Den</friendly-device-name><network-type>wifi</network-type><wifi-mac>aa:bb:cc:dd:ee:ff</wifi-mac><supports-ethernet>TRUE</supports-ethernet></device-info>";
    let mut d = connected_device(vec![text_response(body)]);
    d.update_self().expect("refresh should succeed");
    assert_eq!(d.mac_eth, Some([0, 0, 0, 0, 0, 0]));
    assert_eq!(d.network, NetworkType::Wireless);
}

#[test]
fn update_self_missing_mandatory_field_is_recoverable() {
    let body = "<device-info><network-type>ethernet</network-type></device-info>";
    let mut d = connected_device(vec![text_response(body)]);
    assert_eq!(d.update_self().unwrap_err(), DeviceError::MissingField);
    assert_eq!(d.name, "");
}

#[test]
fn fetch_icon_stores_payload() {
    let mut d = connected_device(vec![Some(Response {
        content_data: Some(ContentData::Data { bytes: vec![9, 8, 7] }),
    })]);
    let mut app = App {
        id: 12,
        apptype: String::from("appl"),
        version: String::from("1.0"),
        name: String::from("Netflix"),
        icon: None,
    };
    app.fetch_icon(&mut d);
    assert_eq!(app.icon, Some(vec![9, 8, 7]));
    let sent = d.connection.as_ref().unwrap().sent_requests().clone();
    assert_eq!(sent[0].kind, RequestKind::QueryAppIcon { channel_id: 12 });
    assert_eq!(sent[0].request_id, 0);
}

#[test]
fn discovery_response_builds_bare_device() {
    let raw = b"HTTP/1.1 200 OK\nST: roku:ecp\nLOCATION: http://192.168.1.50:8060/\nWAKEUP: MAC=aa:bb:cc:dd:ee:ff;Timeout=10\n";
    let d: Device<ScriptedSession> = handle_ssdp_response(raw).expect("should parse");
    assert_eq!(d.ipv4, "192.168.1.50");
    assert_eq!(d.port, 8060);
    assert_eq!(d.mac_wol, Some([0xaa, 0xbb, 0xcc, 0xdd, 0xee, 0xff]));
    assert!(!d.is_connected());
    assert_eq!(d.power_state, PowerState::Unknown);
}

#[test]
fn discovery_product_token_matches_any_case() {
    let raw = b"HTTP/1.1 200 OK\nST: ROKU:ECP\nLOCATION: http://192.168.1.51:8060/\n";
    let d: Device<ScriptedSession> = handle_ssdp_response(raw).expect("should parse");
    assert_eq!(d.ipv4, "192.168.1.51");
}

#[test]
fn discovery_response_without_product_token_is_skipped() {
    let raw = b"HTTP/1.1 200 OK\nST: upnp:rootdevice\nLOCATION: http://192.168.1.50:8060/\n";
    let d: Option<Device<ScriptedSession>> = handle_ssdp_response(raw);
    assert!(d.is_none());
}

#[test]
fn datagrams_accumulate_in_arrival_order() {
    let one = b"roku\nLOCATION: http://10.0.0.1:8060/\n".to_vec();
    let noise = b"not a response".to_vec();
    let two = b"Roku\nLOCATION: http://10.0.0.2:9090/\n".to_vec();
    let devices: Vec<Device<ScriptedSession>> =
        devices_from_datagrams(&vec![one, noise, two]);
    assert_eq!(devices.len(), 2);
    assert_eq!(devices[0].ipv4, "10.0.0.1");
    assert_eq!(devices[0].port, 8060);
    assert_eq!(devices[1].ipv4, "10.0.0.2");
    assert_eq!(devices[1].port, 9090);
}

#[test]
fn app_icon_left_alone_without_session() {
    let mut d: Device<ScriptedSession> = Device::new("192.168.1.2", 8060);
    let mut app = App {
        id: 1,
        apptype: String::from("t"),
        version: String::from("1"),
        name: String::from("X"),
        icon: None,
    };
    app.fetch_icon(&mut d);
    assert!(app.icon.is_none());
}

#[test]
fn update_self_bad_hardware_address_is_recoverable() {
    let body = "<device-info><friendly-device-name>Den</friendly-device-name><network-type>ethernet</network-type><wifi-mac>zz:bb:cc:dd:ee:ff</wifi-mac></device-info>";
    let mut d = connected_device(vec![text_response(body)]);
    assert_eq!(d.update_self().unwrap_err(), DeviceError::BadAddress);
    assert!(d.mac_wlan.is_none());
}

#[test]
fn reconcile_reads_mandatory_fields() {
    let mut info = roku_remote::FieldMap::new();
    info.insert(String::from("friendly-device-name"), String::from("Attic"));
    info.insert(String::from("network-type"), String::from("ethernet"));
    info.insert(String::from("wifi-mac"), String::from("1:2:3:4:5:6"));
    let u = roku_remote::reconcile(&info).expect("should reconcile");
    assert_eq!(u.name, "Attic");
    assert_eq!(u.network, NetworkType::Ethernet);
    assert_eq!(u.mac_wlan, [1, 2, 3, 4, 5, 6]);
    assert!(u.mac_eth.is_none());
}
