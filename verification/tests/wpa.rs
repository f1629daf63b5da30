use drop_sharing::wpa::parser::{parse_group_started, parse_ipv4, P2pRole};
use drop_sharing::wpa::requests::{
    connect_command, connection_request, event_name, get_p2p_device_address, group_event,
    group_remove_command, is_ok_response, note_device_event, select_receiver, GroupEvent,
};

#[test]
fn parses_client_group_address_from_wpa_event() {
    let event = "<3>P2P-GROUP-STARTED p2p-wlan0-0 client ssid=\"DIRECT-test\" ip_addr=192.168.49.2 go_ip_addr=192.168.49.1";
    let group = parse_group_started(event).unwrap();

    assert_eq!(group.role, P2pRole::Client);
    assert_eq!(group.go_ip, Some([192, 168, 49, 1]));
}

#[test]
fn parses_group_owner_event_without_ip_fields() {
    let event = "<3>P2P-GROUP-STARTED p2p-wlan0-0 GO ssid=\"DIRECT-test\" freq=2412";
    let group = parse_group_started(event).unwrap();

    assert_eq!(group.role, P2pRole::GroupOwner);
    assert_eq!(group.interface, "p2p-wlan0-0");
}

#[test]
fn ignores_ip_looking_text_inside_ssid() {
    let event = "P2P-GROUP-STARTED p2p-wlan0-0 client ssid=\"DIRECT go_ip_addr=10.0.0.1\" go_ip_addr=192.168.49.1";
    let group = parse_group_started(event).unwrap();

    assert_eq!(group.go_ip, Some([192, 168, 49, 1]));
}

#[test]
fn group_started_rejects_other_events() {
    assert!(parse_group_started("<3>P2P-DEVICE-FOUND aa:bb").is_none());
    assert!(parse_group_started("<3P2P-GROUP-STARTED p2p-wlan0-0 GO").is_none());
    assert!(parse_group_started("P2P-GROUP-STARTED p2p-wlan0-0").is_none());
    assert!(parse_group_started("P2P-GROUP-STARTED p2p-wlan0-0 owner").is_none());
    assert!(parse_group_started("").is_none());
    let first_wins = parse_group_started("P2P-GROUP-STARTED i client go_ip_addr=1.2.3.4 go_ip_addr=5.6.7.8").unwrap();
    assert_eq!(first_wins.go_ip, Some([1, 2, 3, 4]));
    let bad_then_good = parse_group_started("P2P-GROUP-STARTED i client go_ip_addr=1.2.3 go_ip_addr=5.6.7.8").unwrap();
    assert_eq!(bad_then_good.go_ip, Some([5, 6, 7, 8]));
}

#[test]
fn ipv4_parsing_follows_dotted_decimal() {
    let p = |s: &str| parse_ipv4(&s.chars().collect::<Vec<char>>());
    assert_eq!(p("192.168.49.1"), Some([192, 168, 49, 1]));
    assert_eq!(p("0.0.0.0"), Some([0, 0, 0, 0]));
    assert_eq!(p("255.255.255.255"), Some([255, 255, 255, 255]));
    assert_eq!(p("256.1.1.1"), None);
    assert_eq!(p("01.1.1.1"), None);
    assert_eq!(p("1.1.1"), None);
    assert_eq!(p("1.1.1.1."), None);
    assert_eq!(p("1..1.1"), None);
    assert_eq!(p("+1.1.1.1"), None);
    assert_eq!(p("1.1.1.1000"), None);
    assert_eq!(p(""), None);
}

#[test]
fn event_names_and_addresses() {
    assert_eq!(event_name("<3>P2P-DEVICE-FOUND 02:00 p2p_dev_addr=aa:bb").as_deref(), Some("P2P-DEVICE-FOUND"));
    assert_eq!(event_name("  P2P-FIND-STOPPED").as_deref(), Some("P2P-FIND-STOPPED"));
    assert_eq!(event_name("<3 unclosed").as_deref(), Some("<3"));
    assert_eq!(event_name("   ").as_deref(), None);
    assert_eq!(get_p2p_device_address("<3>P2P-DEVICE-FOUND 02:00 p2p_dev_addr=aa:bb name=x").as_deref(), Some("aa:bb"));
    assert_eq!(get_p2p_device_address("P2P-DEVICE-FOUND 02:00").as_deref(), None);
}

#[test]
fn device_events_list_each_receiver_once() {
    let mut receivers: Vec<String> = Vec::new();
    note_device_event(&mut receivers, "<3>P2P-DEVICE-FOUND 02:00 p2p_dev_addr=aa:bb");
    note_device_event(&mut receivers, "<3>P2P-DEVICE-FOUND 02:00 p2p_dev_addr=aa:bb");
    note_device_event(&mut receivers, "<3>P2P-DEVICE-LOST p2p_dev_addr=cc:dd");
    note_device_event(&mut receivers, "<3>P2P-DEVICE-FOUND 02:00 p2p_dev_addr=cc:dd");
    assert_eq!(receivers, vec!["aa:bb".to_string(), "cc:dd".to_string()]);
}

#[test]
fn replies_and_commands() {
    assert!(is_ok_response("OK\n"));
    assert!(!is_ok_response("FAIL\n"));
    assert!(!is_ok_response("ok"));
    assert_eq!(connect_command("aa:bb"), "P2P_CONNECT aa:bb pbc");
    assert_eq!(group_remove_command("p2p-wlan0-0"), "P2P_GROUP_REMOVE p2p-wlan0-0");
}

#[test]
fn group_events_and_requests() {
    assert!(matches!(group_event("<3>P2P-GO-NEG-FAILURE status=1"), GroupEvent::Failed));
    assert!(matches!(group_event("<3>P2P-GROUP-FORMATION-FAILURE"), GroupEvent::Failed));
    assert!(matches!(group_event("<3>P2P-DEVICE-FOUND x"), GroupEvent::Other));
    assert!(matches!(group_event("<3>P2P-GROUP-STARTED p2p-wlan0-0 GO"), GroupEvent::Started(_)));
    assert_eq!(connection_request("<3>P2P-GO-NEG-REQUEST aa:bb dev_passwd_id=4"), Some(Some("aa:bb".to_string())));
    assert_eq!(connection_request("<3>P2P-PROV-DISC-PBC-REQ"), Some(None));
    assert_eq!(connection_request("<3>P2P-DEVICE-FOUND aa:bb"), None);
}

#[test]
fn receiver_selection_takes_a_number_in_range() {
    let receivers = vec!["aa".to_string(), "bb".to_string()];
    assert_eq!(select_receiver(&receivers, "1\n").as_deref(), Some("aa"));
    assert_eq!(select_receiver(&receivers, " +2 ").as_deref(), Some("bb"));
    assert_eq!(select_receiver(&receivers, "0"), None);
    assert_eq!(select_receiver(&receivers, "3"), None);
    assert_eq!(select_receiver(&receivers, "x"), None);
    assert_eq!(select_receiver(&receivers, "99999999999999999999999"), None);
}
