//! What an analysis run reports to the event log.

use crate::clock::local_time_rfc3339;
use crate::events::event_at;
use crate::models::{AttackEvent, AttackEventView};
use crate::number::{decimal_digits, push_decimal};
use crate::text::str_equal;
use vstd::prelude::*;
use vstd::string::*;

verus! {

/// The analyses on offer.
#[derive(Clone, Copy, Debug, PartialEq, Eq, Structural)]
pub enum AnalysisKind {
    /// The MQTT packets of a capture file.
    MqttTraffic,
    /// Anything else that was asked for.
    Unknown,
}

/// The analysis that a name stands for.
pub open spec fn kind_of(name: Seq<char>) -> AnalysisKind {
    if name == "mqtt-traffic"@ {
        AnalysisKind::MqttTraffic
    } else {
        AnalysisKind::Unknown
    }
}

/// Tells which analysis a name stands for.
pub fn analysis_kind(name: &str) -> (kind: AnalysisKind)
    ensures
        kind == kind_of(name@),
{
    if str_equal(name, "mqtt-traffic") {
        AnalysisKind::MqttTraffic
    } else {
        AnalysisKind::Unknown
    }
}

/// Category of every entry that an analysis logs.
pub open spec fn analysis_category() -> Seq<char> {
    "analysis"@
}

/// The entry for a traffic analysis that found `packets` packets in the
/// capture file `path`: `no_data` where it found none, else `success` with
/// the count.
pub open spec fn traffic_entry(timestamp: Seq<char>, path: Seq<char>, packets: nat) -> AttackEventView {
    if packets == 0 {
        AttackEventView {
            timestamp,
            attack_type: analysis_category(),
            status: "no_data"@,
            message: "No MQTT traffic found in "@ + path,
        }
    } else {
        AttackEventView {
            timestamp,
            attack_type: analysis_category(),
            status: "success"@,
            message: "Analyzed "@ + decimal_digits(packets) + " MQTT packets in "@ + path,
        }
    }
}

/// The entry for a request of an analysis that is not on offer.
pub open spec fn unknown_entry(timestamp: Seq<char>, name: Seq<char>) -> AttackEventView {
    AttackEventView {
        timestamp,
        attack_type: analysis_category(),
        status: "error"@,
        message: "Unknown analysis type: "@ + name,
    }
}

/// Writes the entry for a traffic analysis.
pub fn traffic_event(timestamp: String, path: &str, packets: usize) -> (event: AttackEvent)
    ensures
        event@ == traffic_entry(timestamp@, path@, packets as nat),
{
    let mut message = String::new();
    if packets == 0 {
        message.append("No MQTT traffic found in ");
        message.append(path);
        assert(message@ =~= "No MQTT traffic found in "@ + path@);
        event_at(timestamp, "analysis", "no_data", message.as_str())
    } else {
        message.append("Analyzed ");
        push_decimal(&mut message, packets as u64);
        message.append(" MQTT packets in ");
        message.append(path);
        assert(message@ =~= "Analyzed "@ + decimal_digits(packets as nat) + " MQTT packets in "@
            + path@);
        event_at(timestamp, "analysis", "success", message.as_str())
    }
}

/// Writes the entry for a request of an analysis that is not on offer.
pub fn unknown_kind_event(timestamp: String, name: &str) -> (event: AttackEvent)
    ensures
        event@ == unknown_entry(timestamp@, name@),
{
    let mut message = String::new();
    message.append("Unknown analysis type: ");
    message.append(name);
    assert(message@ =~= "Unknown analysis type: "@ + name@);
    event_at(timestamp, "analysis", "error", message.as_str())
}

/// The entry for a traffic analysis, stamped with the current local time.
/// Whatever the clock says, the entry is the one of [`traffic_event`] for
/// the stamp that was read.
pub fn log_traffic(path: &str, packets: usize) -> (event: AttackEvent)
    ensures
        event@ == traffic_entry(event@.timestamp, path@, packets as nat),
{
    traffic_event(local_time_rfc3339(), path, packets)
}

/// The entry for a request of an analysis that is not on offer, stamped
/// with the current local time. Whatever the clock says, the entry is the
/// one of [`unknown_kind_event`] for the stamp that was read.
pub fn log_unknown_kind(name: &str) -> (event: AttackEvent)
    ensures
        event@ == unknown_entry(event@.timestamp, name@),
{
    unknown_kind_event(local_time_rfc3339(), name)
}

} // verus!
