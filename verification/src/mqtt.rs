//! A one-line summary of a raw MQTT control packet: its type and, for a
//! publication, its topic and payload.

use crate::clock::local_time_rfc3339;
use crate::models::{PacketInfo, PacketInfoView};
use vstd::prelude::*;
use vstd::slice::slice_subrange;
use vstd::string::*;
use vstd::utf8::{decode_utf8, valid_utf8};

verus! {

/// Type number of a publication.
pub const PUBLISH: u8 = 3;

/// Most bytes that a remaining length is read from.
pub const MAX_LENGTH_BYTES: usize = 3;

/// The type number of a packet: the high four bits of its first byte.
pub open spec fn message_type(first: u8) -> u8 {
    (first >> 4) & 0x0F
}

/// The quality of service of a publication: bits 1 and 2 of its first byte.
pub open spec fn quality_of_service(first: u8) -> u8 {
    (first >> 1) & 0x03
}

/// The name of a packet type.
pub open spec fn message_type_name(kind: u8) -> Seq<char> {
    if kind == 1 {
        "CONNECT"@
    } else if kind == 2 {
        "CONNACK"@
    } else if kind == 3 {
        "PUBLISH"@
    } else if kind == 4 {
        "PUBACK"@
    } else if kind == 5 {
        "PUBREC"@
    } else if kind == 6 {
        "PUBREL"@
    } else if kind == 7 {
        "PUBCOMP"@
    } else if kind == 8 {
        "SUBSCRIBE"@
    } else if kind == 9 {
        "SUBACK"@
    } else if kind == 10 {
        "UNSUBSCRIBE"@
    } else if kind == 11 {
        "UNSUBACK"@
    } else if kind == 12 {
        "PINGREQ"@
    } else if kind == 13 {
        "PINGRESP"@
    } else if kind == 14 {
        "DISCONNECT"@
    } else {
        "UNKNOWN"@
    }
}

/// A length byte with its high bit set is followed by another.
pub open spec fn continues(byte: u8) -> bool {
    byte & 128 != 0
}

/// Number of bytes from index `i` up to and including the first that is
/// not followed by another, counted from the start; nothing where every
/// byte from `i` on is followed by another.
pub open spec fn length_bytes_from(bytes: Seq<u8>, i: int) -> Option<int>
    decreases bytes.len() - i,
{
    if i < 0 || i >= bytes.len() {
        None
    } else if continues(bytes[i]) {
        length_bytes_from(bytes, i + 1)
    } else {
        Some(i + 1)
    }
}

/// Number of bytes that the remaining length at the start of `bytes` takes.
pub open spec fn remaining_length_bytes(bytes: Seq<u8>) -> Option<int> {
    length_bytes_from(bytes, 0)
}

/// 128 to the power `n`.
pub open spec fn weight(n: nat) -> int
    decreases n,
{
    if n == 0 {
        1
    } else {
        128 * weight((n - 1) as nat)
    }
}

/// The number that the first `n` length bytes spell: seven bits a byte,
/// least significant byte first.
pub open spec fn length_value(bytes: Seq<u8>, n: nat) -> int
    decreases n,
{
    if n == 0 {
        0
    } else {
        length_value(bytes, (n - 1) as nat) + (bytes[n - 1] & 127) * weight((n - 1) as nat)
    }
}

/// The remaining length at the start of `bytes`: its value where it takes
/// at most three bytes, nothing where it takes more or never ends.
pub open spec fn remaining_length(bytes: Seq<u8>) -> Option<int> {
    match remaining_length_bytes(bytes) {
        Some(n) if n <= MAX_LENGTH_BYTES => Some(length_value(bytes, n as nat)),
        _ => None,
    }
}

/// The bytes that a length takes end at the first byte that is not followed
/// by another.
pub proof fn lemma_length_bytes(bytes: Seq<u8>, i: int)
    requires
        0 <= i,
    ensures
        match length_bytes_from(bytes, i) {
            Some(n) => {
                &&& i < n <= bytes.len()
                &&& !continues(bytes[n - 1])
                &&& forall|k: int| i <= k < n - 1 ==> continues(bytes[k])
            },
            None => forall|k: int| i <= k < bytes.len() ==> continues(bytes[k]),
        },
    decreases bytes.len() - i,
{
    if i < bytes.len() && continues(bytes[i]) {
        lemma_length_bytes(bytes, i + 1);
    }
}

/// Counts the bytes of the remaining length at the start of `bytes`.
pub fn get_remaining_length_bytes(bytes: &[u8]) -> (count: Option<usize>)
    ensures
        match count {
            Some(n) => remaining_length_bytes(bytes@) == Some(n as int) && 0 < n <= bytes.len(),
            None => remaining_length_bytes(bytes@) is None,
        },
{
    let mut i: usize = 0;
    while i < bytes.len()
        invariant
            i <= bytes.len(),
            remaining_length_bytes(bytes@) == length_bytes_from(bytes@, i as int),
        decreases bytes.len() - i,
    {
        let encoded = bytes[i];
        i += 1;
        if (encoded & 128) == 0 {
            return Some(i);
        }
    }
    None
}

/// Reads the remaining length at the start of `bytes`.
pub fn decode_remaining_length(bytes: &[u8]) -> (value: Option<u32>)
    ensures
        match value {
            Some(v) => remaining_length(bytes@) == Some(v as int),
            None => remaining_length(bytes@) is None,
        },
{
    let mut multiplier: u32 = 1;
    let mut value: u32 = 0;
    let mut i: usize = 0;
    proof {
        lemma_length_bytes(bytes@, 0);
    }
    loop
        invariant
            i <= MAX_LENGTH_BYTES,
            i <= bytes.len(),
            multiplier == weight(i as nat),
            value == length_value(bytes@, i as nat),
            value < multiplier,
            forall|k: int| 0 <= k < i ==> continues(bytes@[k]),
            remaining_length_bytes(bytes@) == length_bytes_from(bytes@, i as int),
        decreases MAX_LENGTH_BYTES - i,
    {
        if i >= bytes.len() {
            return None;
        }
        if i == MAX_LENGTH_BYTES {
            proof {
                lemma_length_bytes(bytes@, i as int);
            }
            return None;
        }
        let encoded = bytes[i];
        let low: u32 = (encoded & 127) as u32;
        assert(low <= 127) by (bit_vector)
            requires
                low == (encoded & 127) as u32,
        ;
        assert(weight(0) == 1 && weight(1) == 128 && weight(2) == 16384 && weight(3) == 2097152)
            by {
            reveal_with_fuel(weight, 4);
        }
        assert(multiplier <= 16384);
        assert(low * multiplier <= 127 * 16384 && value + low * multiplier < 128 * multiplier)
            by (nonlinear_arith)
            requires
                low <= 127,
                0 <= value < multiplier <= 16384,
        ;
        value = value + low * multiplier;
        multiplier = multiplier * 128;
        if (encoded & 128) == 0 {
            return Some(value);
        }
        i += 1;
    }
}

/// The text that lossy UTF-8 decoding makes of bytes: every well-formed
/// sequence decoded, every ill-formed one replaced by U+FFFD.
pub uninterp spec fn utf8_lossy(bytes: Seq<u8>) -> Seq<char>;

/// Decodes bytes as UTF-8, replacing what is ill-formed:
/// `String::from_utf8_lossy`. The text is the one that lossy decoding
/// makes of these bytes, and for well-formed bytes it is their plain
/// decoding.
#[verifier::external_body]
fn decode_lossy(bytes: &[u8]) -> (text: String)
    ensures
        text@ == utf8_lossy(bytes@),
        valid_utf8(bytes@) ==> text@ == decode_utf8(bytes@),
{
    String::from_utf8_lossy(bytes).into_owned()
}

/// Where the parts of a publication lie in its bytes.
#[derive(Clone, Copy, Debug, PartialEq, Eq)]
pub struct PublishFrame {
    /// Index of the first byte of the topic.
    pub topic_start: usize,
    /// Index after the last byte of the topic.
    pub topic_end: usize,
    /// Index of the first byte of the payload; the length of the packet
    /// where there is none.
    pub payload_start: usize,
}

/// What a [`PublishFrame`] holds, as plain values.
pub struct PublishFrameView {
    pub topic_start: int,
    pub topic_end: int,
    pub payload_start: int,
}

impl View for PublishFrame {
    type V = PublishFrameView;

    open spec fn view(&self) -> PublishFrameView {
        PublishFrameView {
            topic_start: self.topic_start as int,
            topic_end: self.topic_end as int,
            payload_start: self.payload_start as int,
        }
    }
}

/// The length of a topic, from its two length bytes, high byte first.
pub open spec fn topic_length(high: u8, low: u8) -> int {
    (((high as u16) << 8) | (low as u16)) as int
}

/// The layout of a publication. After the first byte comes the remaining
/// length, then two bytes with the length of the topic, then the topic.
/// With a quality of service above 0 a two-byte packet identifier follows,
/// which is passed over where the packet has room for it. The rest is
/// payload. There is no layout where the remaining length cannot be read or
/// the packet ends before the topic does.
pub open spec fn publish_frame(raw: Seq<u8>) -> Option<PublishFrameView> {
    if raw.len() < 1 {
        None
    } else {
        match (remaining_length(raw.skip(1)), remaining_length_bytes(raw.skip(1))) {
            (Some(_), Some(n)) => {
                let at = 1 + n;
                if at + 2 > raw.len() {
                    None
                } else {
                    let topic_start = at + 2;
                    let topic_end = topic_start + topic_length(raw[at], raw[at + 1]);
                    if topic_end > raw.len() {
                        None
                    } else {
                        Some(
                            PublishFrameView {
                                topic_start,
                                topic_end,
                                payload_start: if quality_of_service(raw[0]) > 0 && topic_end + 2
                                    <= raw.len() {
                                    topic_end + 2
                                } else {
                                    topic_end
                                },
                            },
                        )
                    }
                }
            },
            _ => None,
        }
    }
}

/// Finds the parts of a publication.
pub fn locate_publish(raw: &[u8]) -> (frame: Option<PublishFrame>)
    ensures
        match frame {
            Some(f) => publish_frame(raw@) == Some(f@) && f.topic_start <= f.topic_end
                <= f.payload_start <= raw.len(),
            None => publish_frame(raw@) is None,
        },
{
    if raw.len() < 1 {
        return None;
    }
    let first = raw[0];
    let rest = slice_subrange(raw, 1, raw.len());
    assert(rest@ =~= raw@.skip(1));
    if decode_remaining_length(rest).is_none() {
        return None;
    }
    let mut offset: usize = match get_remaining_length_bytes(rest) {
        Some(n) => 1 + n,
        None => {
            return None;
        },
    };
    if offset + 2 > raw.len() {
        return None;
    }
    let length: u16 = ((raw[offset] as u16) << 8) | (raw[offset + 1] as u16);
    offset += 2;
    let topic_start = offset;
    if length as usize > raw.len() - offset {
        return None;
    }
    offset += length as usize;
    let topic_end = offset;
    let qos = (first >> 1) & 0x03;
    if qos > 0 && raw.len() - offset >= 2 {
        offset += 2;
    }
    Some(PublishFrame { topic_start, topic_end, payload_start: offset })
}

/// The characters of an optional text.
pub open spec fn text_view(text: Option<&str>) -> Option<Seq<char>> {
    match text {
        Some(t) => Some(t@),
        None => None,
    }
}

/// The summary of a packet: its type, then the topic and the payload where
/// there are any.
pub open spec fn summary_text(
    kind: Seq<char>,
    topic: Option<Seq<char>>,
    payload: Option<Seq<char>>,
) -> Seq<char> {
    "MQTT "@ + kind + match topic {
        Some(t) => ", Topic: "@ + t,
        None => Seq::empty(),
    } + match payload {
        Some(p) => ", Payload: "@ + p,
        None => Seq::empty(),
    }
}

/// Writes the summary of a packet.
pub fn compose_summary(kind: &str, topic: Option<&str>, payload: Option<&str>) -> (text: String)
    ensures
        text@ == summary_text(kind@, text_view(topic), text_view(payload)),
{
    let mut text = String::new();
    text.append("MQTT ");
    text.append(kind);
    let ghost head = text@;
    assert(head =~= "MQTT "@ + kind@);
    match topic {
        Some(t) => {
            text.append(", Topic: ");
            text.append(t);
            assert(text@ =~= head + (", Topic: "@ + t@));
        },
        None => {
            assert(text@ =~= head + Seq::<char>::empty());
        },
    }
    let ghost middle = text@;
    match payload {
        Some(p) => {
            text.append(", Payload: ");
            text.append(p);
            assert(text@ =~= middle + (", Payload: "@ + p@));
        },
        None => {
            assert(text@ =~= middle + Seq::<char>::empty());
        },
    }
    text
}

/// Names a packet type.
pub fn message_type_label(kind: u8) -> (name: &'static str)
    ensures
        name@ == message_type_name(kind),
{
    if kind == 1 {
        "CONNECT"
    } else if kind == 2 {
        "CONNACK"
    } else if kind == 3 {
        "PUBLISH"
    } else if kind == 4 {
        "PUBACK"
    } else if kind == 5 {
        "PUBREC"
    } else if kind == 6 {
        "PUBREL"
    } else if kind == 7 {
        "PUBCOMP"
    } else if kind == 8 {
        "SUBSCRIBE"
    } else if kind == 9 {
        "SUBACK"
    } else if kind == 10 {
        "UNSUBSCRIBE"
    } else if kind == 11 {
        "UNSUBACK"
    } else if kind == 12 {
        "PINGREQ"
    } else if kind == 13 {
        "PINGRESP"
    } else if kind == 14 {
        "DISCONNECT"
    } else {
        "UNKNOWN"
    }
}

/// A packet is summarised as a publication where it has that type and more
/// than three bytes.
pub open spec fn is_publication(raw: Seq<u8>) -> bool {
    raw.len() > 3 && message_type(raw[0]) == PUBLISH
}

/// The summary of a packet. An empty packet has none, nor has a
/// publication without a layout. A publication names its topic, and its
/// payload where it has one, each decoded as lossy UTF-8; any other packet
/// names its type alone.
pub open spec fn packet_summary(raw: Seq<u8>) -> Option<Seq<char>> {
    if raw.len() < 1 {
        None
    } else if is_publication(raw) {
        match publish_frame(raw) {
            Some(f) => Some(
                summary_text(
                    message_type_name(PUBLISH),
                    Some(utf8_lossy(raw.subrange(f.topic_start, f.topic_end))),
                    if f.payload_start < raw.len() {
                        Some(utf8_lossy(raw.subrange(f.payload_start, raw.len() as int)))
                    } else {
                        None
                    },
                ),
            ),
            None => None,
        }
    } else {
        Some(summary_text(message_type_name(message_type(raw[0])), None, None))
    }
}

/// Summarises a packet.
pub fn summarize_packet(raw: &[u8]) -> (summary: Option<String>)
    ensures
        match summary {
            Some(text) => packet_summary(raw@) == Some(text@),
            None => packet_summary(raw@) is None,
        },
{
    if raw.len() < 1 {
        return None;
    }
    let kind = (raw[0] >> 4) & 0x0F;
    if kind == PUBLISH && raw.len() > 3 {
        let frame = match locate_publish(raw) {
            Some(f) => f,
            None => {
                return None;
            },
        };
        let topic = decode_lossy(slice_subrange(raw, frame.topic_start, frame.topic_end));
        if frame.payload_start < raw.len() {
            let payload = decode_lossy(slice_subrange(raw, frame.payload_start, raw.len()));
            Some(compose_summary("PUBLISH", Some(topic.as_str()), Some(payload.as_str())))
        } else {
            Some(compose_summary("PUBLISH", Some(topic.as_str()), None))
        }
    } else {
        Some(compose_summary(message_type_label(kind), None, None))
    }
}

/// The account of a packet that was captured at the time `timestamp`: the
/// addresses are unknown, the protocol is MQTT, the size is the number of
/// bytes, kept to 32 bits.
pub open spec fn packet_account(raw: Seq<u8>, timestamp: Seq<char>) -> Option<PacketInfoView> {
    match packet_summary(raw) {
        Some(summary) => Some(
            PacketInfoView {
                timestamp,
                source_ip: "N/A"@,
                dest_ip: "N/A"@,
                protocol: "MQTT"@,
                size: raw.len() as u32,
                summary,
            },
        ),
        None => None,
    }
}

/// Accounts for a packet that was captured at the time `timestamp`.
pub fn packet_info_at(raw: &[u8], timestamp: String) -> (info: Option<PacketInfo>)
    ensures
        match info {
            Some(packet) => packet_account(raw@, timestamp@) == Some(packet@),
            None => packet_account(raw@, timestamp@) is None,
        },
{
    match summarize_packet(raw) {
        Some(summary) => Some(
            PacketInfo {
                timestamp,
                source_ip: "N/A".to_owned(),
                dest_ip: "N/A".to_owned(),
                protocol: "MQTT".to_owned(),
                size: #[verifier::truncate]
                (raw.len() as u32),
                summary,
            },
        ),
        None => None,
    }
}

/// Accounts for a packet, stamped with the current local time. Whatever
/// the clock says, the account is the one of [`packet_account`] for the
/// stamp that was read.
pub fn parse_mqtt_packet_summary(raw: &[u8]) -> (info: Option<PacketInfo>)
    ensures
        match info {
            Some(packet) => packet_account(raw@, packet@.timestamp) == Some(packet@),
            None => packet_summary(raw@) is None,
        },
{
    packet_info_at(raw, local_time_rfc3339())
}

} // verus!
