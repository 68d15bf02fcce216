use netsurvey::airodump::{
    classify_line, is_header_line, is_hw_address, parse_airodump_ap_line,
    parse_airodump_client_line, parse_airodump_line, Record,
};
use netsurvey::models::{WifiClient, WifiNetwork};

fn network(bssid: &str, ssid: &str, channel: u8, encryption: &str, power: i32) -> WifiNetwork {
    WifiNetwork {
        bssid: bssid.to_string(),
        ssid: ssid.to_string(),
        channel,
        encryption: encryption.to_string(),
        power,
        clients: Vec::new(),
    }
}

fn client(mac: &str, bssid: &str, power: i32, probe: Option<&str>) -> WifiClient {
    WifiClient {
        mac: mac.to_string(),
        bssid: bssid.to_string(),
        power,
        probe_ssid: probe.map(|p| p.to_string()),
    }
}

#[test]
fn access_point_line_is_parsed() {
    let parsed = parse_airodump_ap_line("AA:BB:CC:DD:EE:01 -42 0 0 0 6 0 WPA2 0 My Network");
    assert_eq!(parsed, Some(network("AA:BB:CC:DD:EE:01", "My Network", 6, "WPA2", -42)));
    assert_eq!(parsed.unwrap().clients, Vec::new());
}

#[test]
fn access_point_name_joins_fields_with_single_spaces() {
    let parsed =
        parse_airodump_ap_line("  AA:BB:CC:DD:EE:01\t-42 0 0 0 6 0 WPA2 0   My \t Home   Net  ");
    assert_eq!(parsed.unwrap().ssid, "My Home Net");
}

#[test]
fn access_point_needs_ten_fields() {
    assert_eq!(parse_airodump_ap_line("AA:BB:CC:DD:EE:01 -42 0 0 0 6 0 WPA2 0"), None);
    assert!(parse_airodump_ap_line("AA:BB:CC:DD:EE:01 -42 0 0 0 6 0 WPA2 0 x").is_some());
    assert_eq!(parse_airodump_ap_line(""), None);
}

#[test]
fn access_point_address_must_have_a_colon_and_17_bytes() {
    assert_eq!(parse_airodump_ap_line("AABBCCDDEEFF01234 -42 0 0 0 6 0 WPA2 0 Net"), None);
    assert_eq!(parse_airodump_ap_line("AA:BB:CC:DD:EE:0 -42 0 0 0 6 0 WPA2 0 Net"), None);
    assert_eq!(parse_airodump_ap_line("AA:BB:CC:DD:EE:011 -42 0 0 0 6 0 WPA2 0 Net"), None);
    assert!(is_hw_address("AA:BB:CC:DD:EE:01"));
    assert!(is_hw_address(":::::::::::::::::"));
    assert!(!is_hw_address("AA:BB:CC:DD:EE:0"));
    assert!(!is_hw_address("AABBCCDDEEFF01234"));
    // the length is counted in bytes: 16 characters, 17 bytes
    assert!(is_hw_address("é:BB:CC:DD:EE:01"));
    assert!(!is_hw_address("é:BB:CC:DD:EE:012"));
}

#[test]
fn access_point_power_and_channel_must_be_numbers() {
    assert_eq!(parse_airodump_ap_line("AA:BB:CC:DD:EE:01 PWR 0 0 0 6 0 WPA2 0 Net"), None);
    assert_eq!(parse_airodump_ap_line("AA:BB:CC:DD:EE:01 -42 0 0 0 CH 0 WPA2 0 Net"), None);
    assert_eq!(parse_airodump_ap_line("AA:BB:CC:DD:EE:01 -42 0 0 0 -1 0 WPA2 0 Net"), None);
    assert_eq!(parse_airodump_ap_line("AA:BB:CC:DD:EE:01 -42 0 0 0 256 0 WPA2 0 Net"), None);
    let edge = parse_airodump_ap_line("AA:BB:CC:DD:EE:01 +7 0 0 0 255 0 OPN 0 Net").unwrap();
    assert_eq!((edge.power, edge.channel), (7, 255));
}

#[test]
fn access_point_placeholder_names_are_rejected() {
    assert_eq!(parse_airodump_ap_line("AA:BB:CC:DD:EE:01 -42 0 0 0 6 0 WPA2 0 <hidden>"), None);
    assert_eq!(parse_airodump_ap_line("AA:BB:CC:DD:EE:01 -42 0 0 0 6 0 WPA2 0 <lengthy"), None);
    let kept = parse_airodump_ap_line("AA:BB:CC:DD:EE:01 -42 0 0 0 6 0 WPA2 0 <hidden> net");
    assert_eq!(kept.unwrap().ssid, "<hidden> net");
}

#[test]
fn client_line_is_parsed() {
    let parsed =
        parse_airodump_client_line("11:22:33:44:55:66 -60 (AP) AA:BB:CC:DD:EE:01 Probe MyHomeNet");
    assert_eq!(
        parsed,
        Some(client("11:22:33:44:55:66", "AA:BB:CC:DD:EE:01", -60, Some("MyHomeNet")))
    );
}

#[test]
fn client_without_markers_is_unassociated() {
    let parsed = parse_airodump_client_line("11:22:33:44:55:66 -60");
    assert_eq!(parsed, Some(client("11:22:33:44:55:66", "N/A", -60, None)));
}

#[test]
fn client_marker_at_the_end_names_nothing() {
    let parsed = parse_airodump_client_line("11:22:33:44:55:66 -60 x (AP)");
    assert_eq!(parsed.unwrap().bssid, "N/A");
    let parsed = parse_airodump_client_line("11:22:33:44:55:66 -60 x Probe");
    assert_eq!(parsed.unwrap().probe_ssid, None);
}

#[test]
fn client_probe_list_joins_all_that_follows() {
    let parsed = parse_airodump_client_line("11:22:33:44:55:66 -60 Probe  a   b (AP) c");
    let parsed = parsed.unwrap();
    assert_eq!(parsed.probe_ssid, Some("a b (AP) c".to_string()));
    assert_eq!(parsed.bssid, "c");
}

#[test]
fn client_first_marker_counts() {
    let parsed = parse_airodump_client_line("11:22:33:44:55:66 -60 (AP) one (AP) two");
    assert_eq!(parsed.unwrap().bssid, "one");
}

#[test]
fn client_needs_address_and_power() {
    assert_eq!(parse_airodump_client_line("11:22:33:44:55:66"), None);
    assert_eq!(parse_airodump_client_line("112233445566 -60"), None);
    assert_eq!(parse_airodump_client_line("11:22:33:44:55:66 strong"), None);
    assert_eq!(parse_airodump_client_line(""), None);
}

#[test]
fn malformed_line_is_no_record() {
    assert_eq!(parse_airodump_ap_line("not a real record"), None);
    assert_eq!(parse_airodump_client_line("not a real record"), None);
    assert_eq!(parse_airodump_line("not a real record"), Record::NoRecord);
    assert_eq!(classify_line("not a real record"), Record::NoRecord);
}

#[test]
fn access_point_is_tried_before_client() {
    let line = "AA:BB:CC:DD:EE:01 -42 0 0 0 6 0 WPA2 0 My Network";
    assert_eq!(
        parse_airodump_line(line),
        Record::AccessPoint(network("AA:BB:CC:DD:EE:01", "My Network", 6, "WPA2", -42))
    );
    // the same line with a bad channel still passes for a client
    let line = "AA:BB:CC:DD:EE:01 -42 0 0 0 x 0 WPA2 0 My Network";
    assert_eq!(
        parse_airodump_line(line),
        Record::Client(client("AA:BB:CC:DD:EE:01", "N/A", -42, None))
    );
}

#[test]
fn header_line_is_skipped() {
    assert!(is_header_line("BSSID              PWR  Beacons    #Data, #/s  CH   MB   ENC"));
    assert!(!is_header_line(" BSSID              PWR"));
    assert!(!is_header_line("AA:BB:CC:DD:EE:01 -42"));
    // a header that would otherwise read as a client
    let line = "BSSID:BB:CC:DD:EE -42";
    assert!(parse_airodump_client_line(line).is_some());
    assert_eq!(classify_line(line), Record::NoRecord);
}
