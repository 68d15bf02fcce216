//! The record parser: one line of survey output becomes an access point, a
//! client, or nothing. Lines that fit neither shape are skipped, never an
//! error.

use crate::models::{WifiClient, WifiClientView, WifiNetwork, WifiNetworkView};
use crate::number::{parse_i32, parse_signed, parse_u8, parse_unsigned};
use crate::text::{
    fields, find_field, find_from, has_char, is_word, join_fields, join_with_space,
    lemma_fields_are_words, lemma_trim_joined_words, lemma_words_skip, split_fields, starts_with,
    str_equal, trim,
};
use vstd::prelude::*;
use vstd::string::*;
use vstd::utf8::encode_utf8;

verus! {

/// Number of bytes in the written form of a hardware address.
pub const HW_ADDRESS_BYTES: usize = 17;

/// Fewest fields on an access point line.
pub const AP_MIN_FIELDS: usize = 10;

/// Index of the first field of the network name on an access point line.
pub const AP_SSID_FIELD: usize = 9;

/// Fewest fields on a client line.
pub const CLIENT_MIN_FIELDS: usize = 2;

/// Holder of a network name too long to show.
pub open spec fn lengthy_marker() -> Seq<char> {
    "<lengthy"@
}

/// Holder of a network name that is not broadcast.
pub open spec fn hidden_marker() -> Seq<char> {
    "<hidden>"@
}

/// Address recorded for a client with no stated association.
pub open spec fn unassociated_marker() -> Seq<char> {
    "N/A"@
}

/// Field that precedes the address of a client's access point.
pub open spec fn association_token() -> Seq<char> {
    "(AP)"@
}

/// Field that precedes the network names a client probes for.
pub open spec fn probe_token() -> Seq<char> {
    "Probe"@
}

/// A field passes for a hardware address where it holds a colon and is 17
/// bytes long in UTF-8.
pub open spec fn valid_hw_address(field: Seq<char>) -> bool {
    field.contains(':') && encode_utf8(field).len() == HW_ADDRESS_BYTES
}

/// Signal strength read from a field.
pub open spec fn field_power(field: Seq<char>) -> Option<int> {
    parse_signed(field, i32::MIN as int, i32::MAX as int)
}

/// Channel number read from a field.
pub open spec fn field_channel(field: Seq<char>) -> Option<int> {
    parse_unsigned(field, u8::MAX as int)
}

/// The fields from index `from` onward as one name: joined by single
/// spaces, then trimmed.
pub open spec fn joined_name(f: Seq<Seq<char>>, from: int) -> Seq<char> {
    trim(join_with_space(f.skip(from)))
}

/// A network name is kept unless it is empty or one of the two holders.
pub open spec fn valid_ssid(ssid: Seq<char>) -> bool {
    ssid.len() > 0 && ssid != lengthy_marker() && ssid != hidden_marker()
}

/// The fields make an access point record: at least ten of them, an address
/// first, a signal strength second, a channel sixth, and a name from the
/// tenth onward that is kept.
pub open spec fn ap_well_formed(f: Seq<Seq<char>>) -> bool {
    &&& f.len() >= AP_MIN_FIELDS
    &&& valid_hw_address(f[0])
    &&& field_power(f[1]) is Some
    &&& field_channel(f[5]) is Some
    &&& valid_ssid(joined_name(f, AP_SSID_FIELD as int))
}

/// The access point that well-formed fields describe. No client is linked
/// to it yet.
pub open spec fn ap_record(f: Seq<Seq<char>>) -> WifiNetworkView {
    WifiNetworkView {
        bssid: f[0],
        ssid: joined_name(f, AP_SSID_FIELD as int),
        channel: field_channel(f[5]).unwrap() as u8,
        encryption: f[7],
        power: field_power(f[1]).unwrap() as i32,
        clients: Seq::empty(),
    }
}

/// What a line yields when read as an access point.
pub open spec fn parse_ap(line: Seq<char>) -> Option<WifiNetworkView> {
    if ap_well_formed(fields(line)) {
        Some(ap_record(fields(line)))
    } else {
        None
    }
}

/// The fields make a client record: at least two of them, an address first
/// and a signal strength second.
pub open spec fn client_well_formed(f: Seq<Seq<char>>) -> bool {
    &&& f.len() >= CLIENT_MIN_FIELDS
    &&& valid_hw_address(f[0])
    &&& field_power(f[1]) is Some
}

/// The access point a client line names: the field after the first
/// association token, or the unassociated marker where there is no token or
/// nothing after it.
pub open spec fn client_bssid(f: Seq<Seq<char>>) -> Seq<char> {
    match find_from(f, association_token(), 0) {
        Some(i) if i + 1 < f.len() => f[i + 1],
        _ => unassociated_marker(),
    }
}

/// The network names a client line lists: all that follows the first probe
/// token, as one name; absent where there is no token or the name is empty.
pub open spec fn client_probe(f: Seq<Seq<char>>) -> Option<Seq<char>> {
    match find_from(f, probe_token(), 0) {
        Some(i) if joined_name(f, i + 1).len() > 0 => Some(joined_name(f, i + 1)),
        _ => None,
    }
}

/// The client that well-formed fields describe.
pub open spec fn client_record(f: Seq<Seq<char>>) -> WifiClientView {
    WifiClientView {
        mac: f[0],
        bssid: client_bssid(f),
        power: field_power(f[1]).unwrap() as i32,
        probe_ssid: client_probe(f),
    }
}

/// What a line yields when read as a client.
pub open spec fn parse_client(line: Seq<char>) -> Option<WifiClientView> {
    if client_well_formed(fields(line)) {
        Some(client_record(fields(line)))
    } else {
        None
    }
}

/// Tells whether a field passes for a hardware address.
pub fn is_hw_address(field: &str) -> (ok: bool)
    ensures
        ok == valid_hw_address(field@),
{
    has_char(field, ':') && field.as_bytes().len() == HW_ADDRESS_BYTES
}

/// The name that the fields from `from` onward spell. Fields hold no
/// whitespace and are never empty, so the joined fields are already
/// trimmed.
fn name_from(parts: &Vec<String>, from: usize, Ghost(line): Ghost<Seq<char>>) -> (name: String)
    requires
        from <= parts.len(),
        parts.deep_view() == fields(line),
    ensures
        name@ == joined_name(parts.deep_view(), from as int),
        name@.len() == 0 <==> from == parts.len(),
{
    proof {
        lemma_fields_are_words(line, 0);
        lemma_words_skip(parts.deep_view(), from as int);
        lemma_trim_joined_words(parts.deep_view().skip(from as int));
    }
    join_fields(parts, from)
}

/// Reads a line as an access point. A line that does not fit yields `None`.
pub fn parse_airodump_ap_line(line: &str) -> (r: Option<WifiNetwork>)
    ensures
        match r {
            Some(network) => parse_ap(line@) == Some(network@),
            None => parse_ap(line@) is None,
        },
{
    let parts = split_fields(line);
    if parts.len() < AP_MIN_FIELDS {
        return None;
    }
    let ghost f = parts.deep_view();
    assert(f[0] == parts[0]@ && f[1] == parts[1]@ && f[5] == parts[5]@ && f[7] == parts[7]@);
    if !is_hw_address(parts[0].as_str()) {
        return None;
    }
    let power = match parse_i32(parts[1].as_str()) {
        Some(p) => p,
        None => {
            return None;
        },
    };
    let channel = match parse_u8(parts[5].as_str()) {
        Some(c) => c,
        None => {
            return None;
        },
    };
    let ssid = name_from(&parts, AP_SSID_FIELD, Ghost(line@));
    if str_equal(ssid.as_str(), "<lengthy") || str_equal(ssid.as_str(), "<hidden>") {
        return None;
    }
    let network = WifiNetwork {
        bssid: parts[0].clone(),
        ssid,
        channel,
        encryption: parts[7].clone(),
        power,
        clients: Vec::new(),
    };
    assert(network@.clients =~= Seq::empty());
    Some(network)
}

/// Reads a line as a client. A line that does not fit yields `None`.
pub fn parse_airodump_client_line(line: &str) -> (r: Option<WifiClient>)
    ensures
        match r {
            Some(client) => parse_client(line@) == Some(client@),
            None => parse_client(line@) is None,
        },
{
    let parts = split_fields(line);
    if parts.len() < CLIENT_MIN_FIELDS {
        return None;
    }
    let ghost f = parts.deep_view();
    assert(f[0] == parts[0]@ && f[1] == parts[1]@);
    if !is_hw_address(parts[0].as_str()) {
        return None;
    }
    let power = match parse_i32(parts[1].as_str()) {
        Some(p) => p,
        None => {
            return None;
        },
    };
    let bssid = match find_field(&parts, "(AP)") {
        Some(i) if i + 1 < parts.len() => {
            assert(f[i + 1] == parts[i + 1]@);
            parts[i + 1].clone()
        },
        _ => "N/A".to_owned(),
    };
    let probe_ssid = match find_field(&parts, "Probe") {
        Some(i) if i + 1 < parts.len() => Some(name_from(&parts, i + 1, Ghost(line@))),
        Some(i) => {
            proof {
                lemma_fields_are_words(line@, 0);
                lemma_words_skip(f, i + 1);
                lemma_trim_joined_words(f.skip(i + 1));
            }
            None
        },
        None => None,
    };
    Some(WifiClient { mac: parts[0].clone(), bssid, power, probe_ssid })
}

/// What one line of survey output turned out to be.
#[derive(Debug, PartialEq, Eq)]
pub enum Record {
    /// An access point line.
    AccessPoint(WifiNetwork),
    /// A client line.
    Client(WifiClient),
    /// Neither: a header, a blank or anything else. Such a line is skipped.
    NoRecord,
}

/// What a [`Record`] holds, as plain values.
pub enum RecordView {
    AccessPoint(WifiNetworkView),
    Client(WifiClientView),
    NoRecord,
}

impl View for Record {
    type V = RecordView;

    open spec fn view(&self) -> RecordView {
        match self {
            Record::AccessPoint(network) => RecordView::AccessPoint(network@),
            Record::Client(client) => RecordView::Client(client@),
            Record::NoRecord => RecordView::NoRecord,
        }
    }
}

/// First characters of the line that heads the table.
pub open spec fn header_token() -> Seq<char> {
    "BSSID"@
}

/// A header line begins with the header token.
pub open spec fn is_header(line: Seq<char>) -> bool {
    header_token().is_prefix_of(line)
}

/// What a line is: an access point where it reads as one; else a client
/// where it reads as one; else no record.
pub open spec fn parse_line(line: Seq<char>) -> RecordView {
    match parse_ap(line) {
        Some(network) => RecordView::AccessPoint(network),
        None => match parse_client(line) {
            Some(client) => RecordView::Client(client),
            None => RecordView::NoRecord,
        },
    }
}

/// What a line of the stream is: a header is no record, and any other line
/// is what it parses as.
pub open spec fn classify(line: Seq<char>) -> RecordView {
    if is_header(line) {
        RecordView::NoRecord
    } else {
        parse_line(line)
    }
}

/// Tells whether a line is the table header.
pub fn is_header_line(line: &str) -> (yes: bool)
    ensures
        yes == is_header(line@),
{
    starts_with(line, "BSSID")
}

/// Reads a line as an access point, then as a client. A line that is
/// neither yields [`Record::NoRecord`]; no line is an error.
pub fn parse_airodump_line(line: &str) -> (record: Record)
    ensures
        record@ == parse_line(line@),
{
    match parse_airodump_ap_line(line) {
        Some(network) => Record::AccessPoint(network),
        None => match parse_airodump_client_line(line) {
            Some(client) => Record::Client(client),
            None => Record::NoRecord,
        },
    }
}

/// Reads a line of the stream: the header is skipped, any other line is
/// parsed.
pub fn classify_line(line: &str) -> (record: Record)
    ensures
        record@ == classify(line@),
{
    if is_header_line(line) {
        Record::NoRecord
    } else {
        parse_airodump_line(line)
    }
}

/// A line with fewer than two fields is no record; so is one whose first
/// field does not pass for a hardware address, and one whose second field
/// is not a signal strength.
pub proof fn lemma_malformed_is_no_record(line: Seq<char>)
    requires
        ({
            let f = fields(line);
            ||| f.len() < CLIENT_MIN_FIELDS
            ||| !valid_hw_address(f[0])
            ||| field_power(f[1]) is None
        }),
    ensures
        parse_ap(line) is None,
        parse_client(line) is None,
        parse_line(line) == RecordView::NoRecord,
        classify(line) == RecordView::NoRecord,
{
}

/// Every access point that the parser yields keeps the rules of the
/// record: its address is 17 bytes with a colon, its name is neither empty
/// nor a holder, and no client is linked to it.
pub proof fn lemma_parsed_access_point(line: Seq<char>)
    requires
        parse_ap(line) is Some,
    ensures
        valid_hw_address(parse_ap(line).unwrap().bssid),
        valid_ssid(parse_ap(line).unwrap().ssid),
        parse_ap(line).unwrap().clients.len() == 0,
        parse_ap(line).unwrap().wf(),
        is_word(parse_ap(line).unwrap().bssid),
        is_word(parse_ap(line).unwrap().encryption),
{
    lemma_fields_are_words(line, 0);
    let f = fields(line);
    assert(is_word(f[0]));
    assert(is_word(f[7]));
}

/// Every client that the parser yields keeps the rules of the record: its
/// address is 17 bytes with a colon, and a probe list, where present, is
/// not empty.
pub proof fn lemma_parsed_client(line: Seq<char>)
    requires
        parse_client(line) is Some,
    ensures
        valid_hw_address(parse_client(line).unwrap().mac),
        parse_client(line).unwrap().probe_ssid matches Some(names) ==> names.len() > 0,
        is_word(parse_client(line).unwrap().mac),
{
    lemma_fields_are_words(line, 0);
    let f = fields(line);
    assert(is_word(f[0]));
}

/// An access point that comes out of the stream has no client linked to
/// it, so it is well formed.
pub proof fn lemma_classified_access_point(line: Seq<char>)
    ensures
        classify(line) matches RecordView::AccessPoint(network) ==> network.wf()
            && network.clients.len() == 0,
{
}

} // verus!
