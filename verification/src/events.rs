//! Entries of the event log: what a session reports, and where the log of a
//! day is kept.

use crate::clock::{local_time_rfc3339, local_time_text};
use crate::models::{AttackEvent, AttackEventView};
use crate::number::{decimal_digits, push_decimal};
use crate::session::ScanSession;
use vstd::prelude::*;
use vstd::string::*;

verus! {

/// Category of every entry that a survey session logs.
pub open spec fn scan_category() -> Seq<char> {
    "wifi_scan"@
}

/// Status of a session that ran to its end.
pub open spec fn completed_status() -> Seq<char> {
    "completed"@
}

/// Status of a failure, and of a line from the diagnostic channel.
pub open spec fn error_status() -> Seq<char> {
    "error"@
}

/// File of the log for a day, inside a directory.
pub open spec fn log_path(directory: Seq<char>, day: Seq<char>) -> Seq<char> {
    directory + "/"@ + day + "_attack_log.jsonl"@
}

/// Message for a line from the diagnostic channel.
pub open spec fn diagnostic_text(line: Seq<char>) -> Seq<char> {
    "Airodump-ng stderr: "@ + line
}

/// Message for the end of a session: how many access points and clients
/// were found, and where the capture files are.
pub open spec fn summary_text(access_points: nat, clients: nat, prefix: Seq<char>) -> Seq<char> {
    "Found "@ + decimal_digits(access_points) + " APs and "@ + decimal_digits(clients)
        + " clients. Data in "@ + prefix
}

/// Prefix of the capture files of a session that began at the second
/// `stamp`.
pub open spec fn capture_path(stamp: Seq<char>) -> Seq<char> {
    "/tmp/airodump_scan_"@ + stamp
}

/// Status of a session that has begun.
pub open spec fn started_status() -> Seq<char> {
    "started"@
}

/// Message for the start of a session: the capture interface and the time
/// limit, if there is one.
pub open spec fn start_text(interface: Seq<char>, duration_secs: u64) -> Seq<char> {
    "Scanning on "@ + interface + if duration_secs == 0 {
        " until stopped"@
    } else {
        " for "@ + decimal_digits(duration_secs as nat) + " seconds"@
    }
}

/// An entry with the given time, category, status and message.
pub fn event_at(timestamp: String, attack_type: &str, status: &str, message: &str) -> (event:
    AttackEvent)
    ensures
        event@ == (AttackEventView {
            timestamp: timestamp@,
            attack_type: attack_type@,
            status: status@,
            message: message@,
        }),
{
    AttackEvent {
        timestamp,
        attack_type: attack_type.to_owned(),
        status: status.to_owned(),
        message: message.to_owned(),
    }
}

/// An entry stamped with the current local time. Whatever the clock says,
/// category, status and message are the ones given.
pub fn log_attack_event(attack_type: &str, status: &str, message: &str) -> (event: AttackEvent)
    ensures
        event@.attack_type == attack_type@,
        event@.status == status@,
        event@.message == message@,
{
    event_at(local_time_rfc3339(), attack_type, status, message)
}

/// Names the log file of a day inside a directory.
pub fn log_file_path(directory: &str, day: &str) -> (path: String)
    ensures
        path@ == log_path(directory@, day@),
{
    let mut path = String::new();
    path.append(directory);
    path.append("/");
    path.append(day);
    path.append("_attack_log.jsonl");
    assert(path@ =~= log_path(directory@, day@));
    path
}

/// Names today's log file inside a directory. Whatever the clock says, the
/// file is the one of [`log_path`] for some day stamp.
pub fn todays_log_file(directory: &str) -> (path: String)
    ensures
        exists|day: Seq<char>| path@ == log_path(directory@, day),
{
    let day = local_time_text("%Y%m%d");
    log_file_path(directory, day.as_str())
}

/// Writes the message for a line from the diagnostic channel.
pub fn diagnostic_message(line: &str) -> (message: String)
    ensures
        message@ == diagnostic_text(line@),
{
    let mut message = String::new();
    message.append("Airodump-ng stderr: ");
    message.append(line);
    assert(message@ =~= diagnostic_text(line@));
    message
}

/// Writes the message for the end of a session.
pub fn summary_message(access_points: usize, clients: usize, prefix: &str) -> (message: String)
    ensures
        message@ == summary_text(access_points as nat, clients as nat, prefix@),
{
    let mut message = String::new();
    message.append("Found ");
    push_decimal(&mut message, access_points as u64);
    message.append(" APs and ");
    push_decimal(&mut message, clients as u64);
    message.append(" clients. Data in ");
    message.append(prefix);
    assert(message@ =~= summary_text(access_points as nat, clients as nat, prefix@));
    message
}

/// Names the capture files of a session that began at the second `stamp`.
pub fn capture_prefix(stamp: &str) -> (prefix: String)
    ensures
        prefix@ == capture_path(stamp@),
{
    let mut prefix = String::new();
    prefix.append("/tmp/airodump_scan_");
    prefix.append(stamp);
    assert(prefix@ =~= capture_path(stamp@));
    prefix
}

/// Names the capture files of a session that begins now. Whatever the
/// clock says, the prefix is the one of [`capture_path`] for some stamp.
pub fn new_capture_prefix() -> (prefix: String)
    ensures
        exists|stamp: Seq<char>| prefix@ == capture_path(stamp),
{
    let stamp = local_time_text("%Y%m%d_%H%M%S");
    capture_prefix(stamp.as_str())
}

/// The entry for a line from the diagnostic channel, at the time
/// `timestamp`.
pub fn diagnostic_event(timestamp: String, line: &str) -> (event: AttackEvent)
    ensures
        event@ == (AttackEventView {
            timestamp: timestamp@,
            attack_type: scan_category(),
            status: error_status(),
            message: diagnostic_text(line@),
        }),
{
    let message = diagnostic_message(line);
    event_at(timestamp, "wifi_scan", "error", message.as_str())
}

/// The entry that closes a session, at the time `timestamp`: the counts
/// and the capture prefix, with the status `completed`, or `error` where
/// the launch failed.
pub fn final_event(session: &ScanSession, timestamp: String, prefix: &str) -> (event: AttackEvent)
    ensures
        event@ == (AttackEventView {
            timestamp: timestamp@,
            attack_type: scan_category(),
            status: if session@.launch_failed {
                error_status()
            } else {
                completed_status()
            },
            message: summary_text(
                session@.store.networks.len(),
                session@.store.clients.len(),
                prefix@,
            ),
        }),
{
    let message = summary_message(
        session.store().access_point_count(),
        session.store().client_count(),
        prefix,
    );
    if session.launch_failed() {
        event_at(timestamp, "wifi_scan", "error", message.as_str())
    } else {
        event_at(timestamp, "wifi_scan", "completed", message.as_str())
    }
}

/// The entry for a line from the diagnostic channel, stamped with the
/// current local time. Whatever the clock says, the entry is the one of
/// [`diagnostic_event`] for the stamp that was read.
pub fn log_diagnostic(line: &str) -> (event: AttackEvent)
    ensures
        event@ == (AttackEventView {
            timestamp: event@.timestamp,
            attack_type: scan_category(),
            status: error_status(),
            message: diagnostic_text(line@),
        }),
{
    diagnostic_event(local_time_rfc3339(), line)
}

/// The entry that closes a session, stamped with the current local time.
/// Whatever the clock says, the entry is the one of [`final_event`] for the
/// stamp that was read.
pub fn log_final(session: &ScanSession, prefix: &str) -> (event: AttackEvent)
    ensures
        event@ == (AttackEventView {
            timestamp: event@.timestamp,
            attack_type: scan_category(),
            status: if session@.launch_failed {
                error_status()
            } else {
                completed_status()
            },
            message: summary_text(
                session@.store.networks.len(),
                session@.store.clients.len(),
                prefix@,
            ),
        }),
{
    final_event(session, local_time_rfc3339(), prefix)
}

/// Writes the message for the start of a session.
pub fn start_message(interface: &str, duration_secs: u64) -> (message: String)
    ensures
        message@ == start_text(interface@, duration_secs),
{
    let mut message = String::new();
    message.append("Scanning on ");
    message.append(interface);
    if duration_secs == 0 {
        message.append(" until stopped");
        assert(message@ =~= start_text(interface@, duration_secs));
    } else {
        message.append(" for ");
        push_decimal(&mut message, duration_secs);
        message.append(" seconds");
        assert(message@ =~= "Scanning on "@ + interface@ + (" for "@ + decimal_digits(
            duration_secs as nat,
        ) + " seconds"@));
    }
    message
}

/// The entry that opens a session, stamped with the current local time.
/// Whatever the clock says, category, status and message are those of a
/// session that begins on the interface with the time limit.
pub fn log_start(interface: &str, duration_secs: u64) -> (event: AttackEvent)
    ensures
        event@ == (AttackEventView {
            timestamp: event@.timestamp,
            attack_type: scan_category(),
            status: started_status(),
            message: start_text(interface@, duration_secs),
        }),
{
    let message = start_message(interface, duration_secs);
    event_at(local_time_rfc3339(), "wifi_scan", "started", message.as_str())
}

} // verus!
