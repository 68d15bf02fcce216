use netsurvey::analysis::{
    analysis_kind, log_traffic, log_unknown_kind, traffic_event, unknown_kind_event, AnalysisKind,
};
use netsurvey::config::AppConfig;
use netsurvey::events::{
    capture_prefix, diagnostic_event, diagnostic_message, event_at, final_event,
    log_attack_event, log_diagnostic, log_file_path, log_final, log_start, new_capture_prefix,
    start_message, summary_message, todays_log_file,
};
use netsurvey::models::AttackEvent;
use netsurvey::session::{ScanSession, SessionAction, SessionEvent};
use netsurvey::supervisor::{dissect_command, monitor_mode_command, scan_command};

fn event(timestamp: &str, attack_type: &str, status: &str, message: &str) -> AttackEvent {
    AttackEvent {
        timestamp: timestamp.to_string(),
        attack_type: attack_type.to_string(),
        status: status.to_string(),
        message: message.to_string(),
    }
}

#[test]
fn default_config_names_the_directories() {
    let config = AppConfig::default();
    assert_eq!(config.log_directory, "logs");
    assert_eq!(config.capture_directory, "captures");
    assert_eq!(config.dictionary_directory, "dictionaries");
}

#[test]
fn event_holds_what_it_is_given() {
    assert_eq!(event_at("t".to_string(), "wifi_scan", "ok", "m"), event("t", "wifi_scan", "ok", "m"));
}

#[test]
fn logged_event_is_stamped_by_the_clock() {
    let logged = log_attack_event("wifi_scan", "completed", "done");
    assert_eq!(logged.attack_type, "wifi_scan");
    assert_eq!(logged.status, "completed");
    assert_eq!(logged.message, "done");
    assert!(logged.timestamp.len() >= 20);
    assert_eq!(logged.timestamp.as_bytes()[10], b'T');
}

#[test]
fn log_file_is_named_by_directory_and_day() {
    assert_eq!(log_file_path("logs", "20240102"), "logs/20240102_attack_log.jsonl");
    assert_eq!(log_file_path("", ""), "/_attack_log.jsonl");
    let today = todays_log_file("logs");
    assert!(today.starts_with("logs/"));
    assert!(today.ends_with("_attack_log.jsonl"));
    let day = &today["logs/".len()..today.len() - "_attack_log.jsonl".len()];
    assert_eq!(day.len(), 8);
    assert!(day.bytes().all(|b| b.is_ascii_digit()));
}

#[test]
fn capture_prefix_is_named_by_the_second() {
    assert_eq!(capture_prefix("20240102_030405"), "/tmp/airodump_scan_20240102_030405");
    let fresh = new_capture_prefix();
    assert!(fresh.starts_with("/tmp/airodump_scan_"));
    let stamp = &fresh["/tmp/airodump_scan_".len()..];
    assert_eq!(stamp.len(), 15);
    assert_eq!(stamp.as_bytes()[8], b'_');
}

#[test]
fn diagnostic_line_is_logged_as_an_error() {
    assert_eq!(diagnostic_message("no such device"), "Airodump-ng stderr: no such device");
    assert_eq!(
        diagnostic_event("t".to_string(), "no such device"),
        event("t", "wifi_scan", "error", "Airodump-ng stderr: no such device")
    );
}

#[test]
fn summary_counts_access_points_and_clients() {
    assert_eq!(summary_message(0, 0, "/tmp/x"), "Found 0 APs and 0 clients. Data in /tmp/x");
    assert_eq!(summary_message(12, 345, "p"), "Found 12 APs and 345 clients. Data in p");
}

#[test]
fn completed_session_reports_its_counts() {
    let mut session = ScanSession::new(0);
    session.step(SessionEvent::Launched, 0);
    session.step(
        SessionEvent::Line("AA:BB:CC:DD:EE:01 -42 0 0 0 6 0 WPA2 0 My Network".to_string()),
        10,
    );
    session.step(SessionEvent::Line("11:22:33:44:55:66 -60".to_string()), 20);
    session.step(SessionEvent::Line("11:22:33:44:55:67 -61".to_string()), 30);
    assert_eq!(session.step(SessionEvent::Cancelled, 40), SessionAction::Terminate);
    assert_eq!(session.step(SessionEvent::Exited, 50), SessionAction::Finish);
    assert_eq!(
        final_event(&session, "t".to_string(), "/tmp/scan"),
        event("t", "wifi_scan", "completed", "Found 1 APs and 2 clients. Data in /tmp/scan")
    );
}

#[test]
fn failed_launch_is_reported_as_an_error() {
    let mut session = ScanSession::new(0);
    assert_eq!(session.step(SessionEvent::LaunchFailed, 0), SessionAction::Fail);
    assert_eq!(
        final_event(&session, "t".to_string(), "/tmp/scan"),
        event("t", "wifi_scan", "error", "Found 0 APs and 0 clients. Data in /tmp/scan")
    );
}

#[test]
fn command_lines_depend_on_interface_and_prefix() {
    let monitor = monitor_mode_command("wlan0");
    assert_eq!(monitor.program, "sudo");
    assert_eq!(monitor.args, vec!["airmon-ng", "start", "wlan0"]);
    let scan = scan_command("wlan0mon", "/tmp/airodump_scan_x");
    assert_eq!(scan.program, "sudo");
    assert_eq!(
        scan.args,
        vec![
            "airodump-ng",
            "--output-format",
            "kismet,csv",
            "-w",
            "/tmp/airodump_scan_x",
            "--update",
            "1",
            "wlan0mon",
        ]
    );
    let dissect = dissect_command("capture.pcap");
    assert_eq!(dissect.program, "tshark");
    assert_eq!(dissect.args, vec!["-r", "capture.pcap", "-Y", "mqtt", "-T", "json"]);
}

#[test]
fn analysis_is_known_by_its_exact_name() {
    assert_eq!(analysis_kind("mqtt-traffic"), AnalysisKind::MqttTraffic);
    assert_eq!(analysis_kind("MQTT-traffic"), AnalysisKind::Unknown);
    assert_eq!(analysis_kind("mqtt-traffic "), AnalysisKind::Unknown);
    assert_eq!(analysis_kind(""), AnalysisKind::Unknown);
}

#[test]
fn analysis_outcome_is_logged() {
    assert_eq!(
        traffic_event("t".to_string(), "c.pcap", 0),
        event("t", "analysis", "no_data", "No MQTT traffic found in c.pcap")
    );
    assert_eq!(
        traffic_event("t".to_string(), "c.pcap", 17),
        event("t", "analysis", "success", "Analyzed 17 MQTT packets in c.pcap")
    );
    assert_eq!(
        unknown_kind_event("t".to_string(), "dns"),
        event("t", "analysis", "error", "Unknown analysis type: dns")
    );
}

#[test]
fn start_of_a_session_names_interface_and_limit() {
    assert_eq!(start_message("wlan0", 30), "Scanning on wlan0 for 30 seconds");
    assert_eq!(start_message("wlan0", 0), "Scanning on wlan0 until stopped");
    let logged = log_start("wlan0", 5);
    assert_eq!(
        event("", &logged.attack_type, &logged.status, &logged.message),
        event("", "wifi_scan", "started", "Scanning on wlan0 for 5 seconds")
    );
    assert_eq!(logged.timestamp.as_bytes()[10], b'T');
}

#[test]
fn stamped_entries_differ_from_plain_ones_only_in_the_stamp() {
    let logged = log_diagnostic("oops");
    assert_eq!(diagnostic_event(logged.timestamp.clone(), "oops"), logged);
    let session = ScanSession::new(3);
    let logged = log_final(&session, "/tmp/p");
    assert_eq!(final_event(&session, logged.timestamp.clone(), "/tmp/p"), logged);
    let logged = log_traffic("c.pcap", 3);
    assert_eq!(traffic_event(logged.timestamp.clone(), "c.pcap", 3), logged);
    let logged = log_unknown_kind("dns");
    assert_eq!(unknown_kind_event(logged.timestamp.clone(), "dns"), logged);
    assert!(logged.timestamp.len() >= 20);
}
