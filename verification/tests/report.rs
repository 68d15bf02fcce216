use netsurvey::dissect::{
    packet_from_dissection, packets_from_dissection, summarize_dissection, DissectError,
    DissectedPacket, JsonField,
};
use netsurvey::models::{PacketInfo, WifiClient, WifiNetwork};
use netsurvey::report::{
    class_of_lowercase, client_row, count_associated, count_label, display_order, network_row,
    packet_row, packet_rows, power_label, protocol_class, scan_report, scan_title, signal_band,
    ProtocolClass, SignalBand,
};

fn ap(bssid: &str, power: i32) -> WifiNetwork {
    WifiNetwork {
        bssid: bssid.to_string(),
        ssid: format!("net-{}", bssid),
        channel: 11,
        encryption: "WPA2".to_string(),
        power,
        clients: Vec::new(),
    }
}

fn station(mac: &str, bssid: &str, power: i32, probe: Option<&str>) -> WifiClient {
    WifiClient {
        mac: mac.to_string(),
        bssid: bssid.to_string(),
        power,
        probe_ssid: probe.map(|p| p.to_string()),
    }
}

fn text(s: &str) -> Option<String> {
    Some(s.to_string())
}

fn dissected() -> DissectedPacket {
    DissectedPacket {
        has_source: true,
        has_layers: true,
        has_frame: true,
        frame_time: JsonField::Text("Jan  2, 2024 03:04:05".to_string()),
        frame_len: JsonField::Text("74".to_string()),
        ip_src: text("10.0.0.2"),
        ip_dst: text("10.0.0.1"),
        mqtt_type: text("3"),
        mqtt_topic: text("a/b"),
        mqtt_payload: text("68:69"),
    }
}

#[test]
fn signal_bands_have_open_lower_bounds() {
    assert_eq!(signal_band(0), SignalBand::Strong);
    assert_eq!(signal_band(-49), SignalBand::Strong);
    assert_eq!(signal_band(-50), SignalBand::Fair);
    assert_eq!(signal_band(-69), SignalBand::Fair);
    assert_eq!(signal_band(-70), SignalBand::Weak);
    assert_eq!(signal_band(i32::MIN), SignalBand::Weak);
    assert_eq!(signal_band(i32::MAX), SignalBand::Strong);
}

#[test]
fn labels_are_written_in_decimal() {
    assert_eq!(power_label(-42), "-42 dBm");
    assert_eq!(power_label(0), "0 dBm");
    assert_eq!(power_label(7), "7 dBm");
    assert_eq!(power_label(i32::MIN), "-2147483648 dBm");
    assert_eq!(count_label(0), "0");
    assert_eq!(count_label(1234), "1234");
    assert_eq!(scan_title(0), "Wi-Fi Scan Results (Elapsed: 0s)");
    assert_eq!(scan_title(125), "Wi-Fi Scan Results (Elapsed: 125s)");
}

#[test]
fn associated_clients_are_counted_by_the_address_they_name() {
    let clients = vec![
        station("m1", "b1", -60, None),
        station("m2", "b2", -60, None),
        station("m3", "b1", -60, None),
        station("m4", "N/A", -60, None),
    ];
    assert_eq!(count_associated(&clients, &"b1".to_string()), 2);
    assert_eq!(count_associated(&clients, &"b2".to_string()), 1);
    assert_eq!(count_associated(&clients, &"b3".to_string()), 0);
    assert_eq!(count_associated(&Vec::new(), &"b1".to_string()), 0);
}

#[test]
fn display_order_is_strongest_first_and_stable() {
    assert_eq!(display_order(&vec![]), Vec::<usize>::new());
    assert_eq!(display_order(&vec![-50]), vec![0]);
    assert_eq!(display_order(&vec![-70, -40, -60]), vec![1, 2, 0]);
    assert_eq!(display_order(&vec![-40, -50, -60]), vec![0, 1, 2]);
    assert_eq!(display_order(&vec![-60, -50, -40]), vec![2, 1, 0]);
    assert_eq!(display_order(&vec![-50, -40, -50, -40, -50]), vec![1, 3, 0, 2, 4]);
}

#[test]
fn display_order_agrees_with_a_stable_sort() {
    let powers: Vec<i32> = (0..200).map(|i| ((i * 7919) % 31) - 90).collect();
    let mut expected: Vec<usize> = (0..powers.len()).collect();
    expected.sort_by(|a, b| powers[*b].cmp(&powers[*a]));
    assert_eq!(display_order(&powers), expected);
}

#[test]
fn rows_show_the_records_as_text() {
    let clients = vec![station("m1", "b1", -45, Some("home work")), station("m2", "b1", -80, None)];
    let row = network_row(&ap("b1", -55), &clients);
    assert_eq!(row.bssid, "b1");
    assert_eq!(row.ssid, "net-b1");
    assert_eq!(row.channel, "11");
    assert_eq!(row.power, "-55 dBm");
    assert_eq!(row.band, SignalBand::Fair);
    assert_eq!(row.encryption, "WPA2");
    assert_eq!(row.clients, "2");
    let row = client_row(&clients[0]);
    assert_eq!((row.mac.as_str(), row.bssid.as_str()), ("m1", "b1"));
    assert_eq!(row.power, "-45 dBm");
    assert_eq!(row.band, SignalBand::Strong);
    assert_eq!(row.probes, "home work");
    let row = client_row(&clients[1]);
    assert_eq!(row.band, SignalBand::Weak);
    assert_eq!(row.probes, "N/A");
}

#[test]
fn report_lists_strongest_signal_first() {
    let networks = vec![ap("b1", -70), ap("b2", -40), ap("b3", -70), ap("b4", -55)];
    let clients = vec![
        station("m1", "b3", -90, None),
        station("m2", "b2", -30, None),
        station("m3", "b3", -90, None),
    ];
    let report = scan_report(&networks, &clients, 12);
    assert_eq!(report.title, "Wi-Fi Scan Results (Elapsed: 12s)");
    let shown: Vec<&str> = report.networks.iter().map(|r| r.bssid.as_str()).collect();
    assert_eq!(shown, vec!["b2", "b4", "b1", "b3"]);
    let counts: Vec<&str> = report.networks.iter().map(|r| r.clients.as_str()).collect();
    assert_eq!(counts, vec!["1", "0", "0", "2"]);
    let shown: Vec<&str> = report.clients.iter().map(|r| r.mac.as_str()).collect();
    assert_eq!(shown, vec!["m2", "m1", "m3"]);
    let empty = scan_report(&Vec::new(), &Vec::new(), 0);
    assert!(empty.networks.is_empty() && empty.clients.is_empty());
}

#[test]
fn protocol_class_ignores_case() {
    assert_eq!(protocol_class("tcp"), ProtocolClass::Tcp);
    assert_eq!(protocol_class("TCP"), ProtocolClass::Tcp);
    assert_eq!(protocol_class("Udp"), ProtocolClass::Udp);
    assert_eq!(protocol_class("ICMP"), ProtocolClass::Icmp);
    assert_eq!(protocol_class("MQTT"), ProtocolClass::Other);
    assert_eq!(protocol_class(""), ProtocolClass::Other);
    assert_eq!(class_of_lowercase("tcp"), ProtocolClass::Tcp);
    assert_eq!(class_of_lowercase("TCP"), ProtocolClass::Other);
}

#[test]
fn packet_rows_show_size_in_bytes() {
    let packet = PacketInfo {
        timestamp: "t".to_string(),
        source_ip: "10.0.0.2".to_string(),
        dest_ip: "10.0.0.1".to_string(),
        protocol: "TCP".to_string(),
        size: 1514,
        summary: "s".to_string(),
    };
    let row = packet_row(&packet);
    assert_eq!(row.size, "1514 B");
    assert_eq!(row.class, ProtocolClass::Tcp);
    assert_eq!(row.protocol, "TCP");
    assert_eq!((row.timestamp.as_str(), row.summary.as_str()), ("t", "s"));
    assert_eq!((row.source_ip.as_str(), row.dest_ip.as_str()), ("10.0.0.2", "10.0.0.1"));
    let rows = packet_rows(&vec![packet.clone(), packet]);
    assert_eq!(rows.len(), 2);
    assert_eq!(rows[1].size, "1514 B");
    assert!(packet_rows(&Vec::new()).is_empty());
}

#[test]
fn dissected_line_gives_a_packet() {
    let packet = packet_from_dissection(&dissected()).unwrap().unwrap();
    assert_eq!(packet.timestamp, "Jan  2, 2024 03:04:05");
    assert_eq!(packet.source_ip, "10.0.0.2");
    assert_eq!(packet.dest_ip, "10.0.0.1");
    assert_eq!(packet.protocol, "MQTT");
    assert_eq!(packet.size, 74);
    assert_eq!(packet.summary, "Type: 3, Topic: a/b, Payload: 68:69");
}

#[test]
fn dissected_line_without_optional_parts() {
    let mut line = dissected();
    line.ip_src = None;
    line.ip_dst = None;
    line.mqtt_type = None;
    line.mqtt_payload = None;
    line.frame_len = JsonField::Text("seventy".to_string());
    let packet = packet_from_dissection(&line).unwrap().unwrap();
    assert_eq!(packet.source_ip, "N/A");
    assert_eq!(packet.dest_ip, "N/A");
    assert_eq!(packet.size, 0);
    assert_eq!(packet.summary, ", Topic: a/b");
    assert_eq!(summarize_dissection(&None, &None, &None), "");
    assert_eq!(summarize_dissection(&text("1"), &None, &text("p")), "Type: 1, Payload: p");
}

#[test]
fn dissected_line_without_layers_is_passed_over() {
    let mut line = dissected();
    line.has_layers = false;
    line.has_frame = false;
    line.frame_time = JsonField::Missing;
    assert_eq!(packet_from_dissection(&line), Ok(None));
}

#[test]
fn dissected_line_errors_come_in_order() {
    let mut line = dissected();
    line.frame_len = JsonField::NotText;
    assert_eq!(packet_from_dissection(&line), Err(DissectError::FrameLenNotText));
    line.frame_len = JsonField::Missing;
    assert_eq!(packet_from_dissection(&line), Err(DissectError::MissingFrameLen));
    line.frame_time = JsonField::NotText;
    assert_eq!(packet_from_dissection(&line), Err(DissectError::FrameTimeNotText));
    line.frame_time = JsonField::Missing;
    assert_eq!(packet_from_dissection(&line), Err(DissectError::MissingFrameTime));
    line.has_frame = false;
    assert_eq!(packet_from_dissection(&line), Err(DissectError::MissingFrame));
    line.has_source = false;
    assert_eq!(packet_from_dissection(&line), Err(DissectError::MissingSource));
}

#[test]
fn dissect_errors_say_what_is_wrong() {
    assert_eq!(DissectError::MissingSource.message(), "Missing _source");
    assert_eq!(DissectError::MissingFrame.message(), "Missing frame");
    assert_eq!(DissectError::MissingFrameTime.message(), "Missing frame.time");
    assert_eq!(DissectError::FrameTimeNotText.message(), "frame.time not a string");
    assert_eq!(DissectError::MissingFrameLen.message(), "Missing frame.len");
    assert_eq!(DissectError::FrameLenNotText.message(), "frame.len not a string");
}

#[test]
fn dissected_lines_are_read_until_the_first_error() {
    let mut skipped = dissected();
    skipped.has_layers = false;
    let mut second = dissected();
    second.frame_len = JsonField::Text("100".to_string());
    let packets = packets_from_dissection(&vec![dissected(), skipped, second]).unwrap();
    assert_eq!(packets.len(), 2);
    assert_eq!((packets[0].size, packets[1].size), (74, 100));
    assert_eq!(packets_from_dissection(&Vec::new()), Ok(Vec::new()));

    let mut broken = dissected();
    broken.has_frame = false;
    let mut later = dissected();
    later.has_source = false;
    assert_eq!(
        packets_from_dissection(&vec![dissected(), broken, later]),
        Err(DissectError::MissingFrame)
    );
}
