//! Packets read from the output of a dissector: what one line of its JSON
//! holds, and the account of the packet that the line describes.

use crate::models::{PacketInfo, PacketInfoView};
use crate::number::{parse_u32, parse_unsigned};
use vstd::prelude::*;
use vstd::string::*;

verus! {

/// A member of a JSON object that is expected to be text.
#[derive(Debug, PartialEq, Eq)]
pub enum JsonField {
    /// The object has no such member.
    Missing,
    /// The member is not text.
    NotText,
    /// The member's text.
    Text(String),
}

/// What a [`JsonField`] holds, as plain values.
pub enum JsonFieldView {
    Missing,
    NotText,
    Text(Seq<char>),
}

impl View for JsonField {
    type V = JsonFieldView;

    open spec fn view(&self) -> JsonFieldView {
        match self {
            JsonField::Missing => JsonFieldView::Missing,
            JsonField::NotText => JsonFieldView::NotText,
            JsonField::Text(text) => JsonFieldView::Text(text@),
        }
    }
}

/// What one line of dissector output holds, as far as a packet account
/// needs it. Where `has_layers` is false the later fields say nothing;
/// where `has_frame` is false the two frame fields say nothing.
#[derive(Debug, PartialEq, Eq)]
pub struct DissectedPacket {
    /// The line has a `_source` member.
    pub has_source: bool,
    /// `_source` has a `layers` member.
    pub has_layers: bool,
    /// `layers` has a `frame` member.
    pub has_frame: bool,
    /// `frame.time` of the frame.
    pub frame_time: JsonField,
    /// `frame.len` of the frame.
    pub frame_len: JsonField,
    /// `ip.src` of the `ip` layer, where both exist and it is text.
    pub ip_src: Option<String>,
    /// `ip.dst` of the `ip` layer, where both exist and it is text.
    pub ip_dst: Option<String>,
    /// `mqtt.msgtype` of the `mqtt` layer, where both exist and it is text.
    pub mqtt_type: Option<String>,
    /// `mqtt.topic` of the `mqtt` layer, where both exist and it is text.
    pub mqtt_topic: Option<String>,
    /// `mqtt.payload` of the `mqtt` layer, where both exist and it is text.
    pub mqtt_payload: Option<String>,
}

/// The characters of an optional text.
pub open spec fn optional_text(text: Option<String>) -> Option<Seq<char>> {
    match text {
        Some(t) => Some(t@),
        None => None,
    }
}

/// What a [`DissectedPacket`] holds, as plain values.
pub struct DissectedPacketView {
    pub has_source: bool,
    pub has_layers: bool,
    pub has_frame: bool,
    pub frame_time: JsonFieldView,
    pub frame_len: JsonFieldView,
    pub ip_src: Option<Seq<char>>,
    pub ip_dst: Option<Seq<char>>,
    pub mqtt_type: Option<Seq<char>>,
    pub mqtt_topic: Option<Seq<char>>,
    pub mqtt_payload: Option<Seq<char>>,
}

impl View for DissectedPacket {
    type V = DissectedPacketView;

    open spec fn view(&self) -> DissectedPacketView {
        DissectedPacketView {
            has_source: self.has_source,
            has_layers: self.has_layers,
            has_frame: self.has_frame,
            frame_time: self.frame_time@,
            frame_len: self.frame_len@,
            ip_src: optional_text(self.ip_src),
            ip_dst: optional_text(self.ip_dst),
            mqtt_type: optional_text(self.mqtt_type),
            mqtt_topic: optional_text(self.mqtt_topic),
            mqtt_payload: optional_text(self.mqtt_payload),
        }
    }
}

/// Why a line of dissector output cannot be read.
#[derive(Clone, Copy, Debug, PartialEq, Eq, Structural)]
pub enum DissectError {
    /// The line has no `_source`.
    MissingSource,
    /// The layers have no `frame`.
    MissingFrame,
    /// The frame has no `frame.time`.
    MissingFrameTime,
    /// `frame.time` is not text.
    FrameTimeNotText,
    /// The frame has no `frame.len`.
    MissingFrameLen,
    /// `frame.len` is not text.
    FrameLenNotText,
}

/// What an error says.
pub open spec fn error_text(error: DissectError) -> Seq<char> {
    match error {
        DissectError::MissingSource => "Missing _source"@,
        DissectError::MissingFrame => "Missing frame"@,
        DissectError::MissingFrameTime => "Missing frame.time"@,
        DissectError::FrameTimeNotText => "frame.time not a string"@,
        DissectError::MissingFrameLen => "Missing frame.len"@,
        DissectError::FrameLenNotText => "frame.len not a string"@,
    }
}

impl DissectError {
    /// Says what went wrong.
    pub fn message(&self) -> (text: String)
        ensures
            text@ == error_text(*self),
    {
        match self {
            DissectError::MissingSource => "Missing _source".to_owned(),
            DissectError::MissingFrame => "Missing frame".to_owned(),
            DissectError::MissingFrameTime => "Missing frame.time".to_owned(),
            DissectError::FrameTimeNotText => "frame.time not a string".to_owned(),
            DissectError::MissingFrameLen => "Missing frame.len".to_owned(),
            DissectError::FrameLenNotText => "frame.len not a string".to_owned(),
        }
    }
}

/// A value behind its label, or nothing where the value is unknown.
pub open spec fn labelled(label: Seq<char>, value: Option<Seq<char>>) -> Seq<char> {
    match value {
        Some(v) => label + v,
        None => Seq::empty(),
    }
}

/// The summary of a dissected packet: its type, topic and payload, each
/// where it is known, in that order.
pub open spec fn dissected_summary(
    kind: Option<Seq<char>>,
    topic: Option<Seq<char>>,
    payload: Option<Seq<char>>,
) -> Seq<char> {
    labelled("Type: "@, kind) + labelled(", Topic: "@, topic) + labelled(", Payload: "@, payload)
}

/// The size that a frame length spells; 0 where it spells no number of 32
/// bits.
pub open spec fn frame_size(text: Seq<char>) -> u32 {
    match parse_unsigned(text, u32::MAX as int) {
        Some(n) => n as u32,
        None => 0,
    }
}

/// What a line of dissector output yields. A line without `_source` is an
/// error; one without layers is passed over; one with layers must have a
/// frame with a time and a length, both text. The addresses are `N/A` where
/// unknown, and the protocol is MQTT.
pub open spec fn dissected_account(line: DissectedPacketView) -> Result<
    Option<PacketInfoView>,
    DissectError,
> {
    if !line.has_source {
        Err(DissectError::MissingSource)
    } else if !line.has_layers {
        Ok(None)
    } else if !line.has_frame {
        Err(DissectError::MissingFrame)
    } else {
        match line.frame_time {
            JsonFieldView::Missing => Err(DissectError::MissingFrameTime),
            JsonFieldView::NotText => Err(DissectError::FrameTimeNotText),
            JsonFieldView::Text(time) => match line.frame_len {
                JsonFieldView::Missing => Err(DissectError::MissingFrameLen),
                JsonFieldView::NotText => Err(DissectError::FrameLenNotText),
                JsonFieldView::Text(length) => Ok(
                    Some(
                        PacketInfoView {
                            timestamp: time,
                            source_ip: match line.ip_src {
                                Some(a) => a,
                                None => "N/A"@,
                            },
                            dest_ip: match line.ip_dst {
                                Some(a) => a,
                                None => "N/A"@,
                            },
                            protocol: "MQTT"@,
                            size: frame_size(length),
                            summary: dissected_summary(
                                line.mqtt_type,
                                line.mqtt_topic,
                                line.mqtt_payload,
                            ),
                        },
                    ),
                ),
            },
        }
    }
}

/// Copies an address, or writes `N/A` where there is none.
fn address_or_unknown(address: &Option<String>) -> (text: String)
    ensures
        text@ == match optional_text(*address) {
            Some(a) => a,
            None => "N/A"@,
        },
{
    match address {
        Some(a) => a.clone(),
        None => "N/A".to_owned(),
    }
}

/// Writes the summary of a dissected packet.
pub fn summarize_dissection(
    kind: &Option<String>,
    topic: &Option<String>,
    payload: &Option<String>,
) -> (summary: String)
    ensures
        summary@ == dissected_summary(
            optional_text(*kind),
            optional_text(*topic),
            optional_text(*payload),
        ),
{
    let mut summary = String::new();
    match kind {
        Some(k) => {
            summary.append("Type: ");
            summary.append(k.as_str());
        },
        None => {},
    }
    let ghost head = summary@;
    match topic {
        Some(t) => {
            summary.append(", Topic: ");
            summary.append(t.as_str());
            assert(summary@ =~= head + (", Topic: "@ + t@));
        },
        None => {
            assert(summary@ =~= head + Seq::<char>::empty());
        },
    }
    let ghost middle = summary@;
    match payload {
        Some(p) => {
            summary.append(", Payload: ");
            summary.append(p.as_str());
            assert(summary@ =~= middle + (", Payload: "@ + p@));
        },
        None => {
            assert(summary@ =~= middle + Seq::<char>::empty());
        },
    }
    proof {
        match kind {
            Some(k) => {
                assert(head =~= "Type: "@ + k@);
            },
            None => {
                assert(head =~= Seq::<char>::empty());
            },
        }
    }
    summary
}

/// Accounts for the packet that a line of dissector output describes.
pub fn packet_from_dissection(line: &DissectedPacket) -> (account: Result<
    Option<PacketInfo>,
    DissectError,
>)
    ensures
        match account {
            Ok(Some(packet)) => dissected_account(line@) == Ok::<
                Option<PacketInfoView>,
                DissectError,
            >(Some(packet@)),
            Ok(None) => dissected_account(line@) == Ok::<Option<PacketInfoView>, DissectError>(
                None,
            ),
            Err(error) => dissected_account(line@) == Err::<Option<PacketInfoView>, DissectError>(
                error,
            ),
        },
{
    if !line.has_source {
        return Err(DissectError::MissingSource);
    }
    if !line.has_layers {
        return Ok(None);
    }
    if !line.has_frame {
        return Err(DissectError::MissingFrame);
    }
    let timestamp = match &line.frame_time {
        JsonField::Missing => {
            return Err(DissectError::MissingFrameTime);
        },
        JsonField::NotText => {
            return Err(DissectError::FrameTimeNotText);
        },
        JsonField::Text(time) => time.clone(),
    };
    let size = match &line.frame_len {
        JsonField::Missing => {
            return Err(DissectError::MissingFrameLen);
        },
        JsonField::NotText => {
            return Err(DissectError::FrameLenNotText);
        },
        JsonField::Text(length) => match parse_u32(length.as_str()) {
            Some(n) => n,
            None => 0,
        },
    };
    Ok(
        Some(
            PacketInfo {
                timestamp,
                source_ip: address_or_unknown(&line.ip_src),
                dest_ip: address_or_unknown(&line.ip_dst),
                protocol: "MQTT".to_owned(),
                size,
                summary: summarize_dissection(
                    &line.mqtt_type,
                    &line.mqtt_topic,
                    &line.mqtt_payload,
                ),
            },
        ),
    )
}

/// The views of a sequence of dissected lines, in order.
pub open spec fn line_views(lines: Seq<DissectedPacket>) -> Seq<DissectedPacketView> {
    lines.map_values(|l: DissectedPacket| l@)
}

/// The views of a sequence of packet accounts, in order.
pub open spec fn packet_views(packets: Seq<PacketInfo>) -> Seq<PacketInfoView> {
    packets.map_values(|p: PacketInfo| p@)
}

/// The accounts of the packets that the lines describe, in order. Lines
/// without layers are passed over; the first line in error ends the
/// reading with that error.
pub open spec fn dissected_accounts(lines: Seq<DissectedPacketView>) -> Result<
    Seq<PacketInfoView>,
    DissectError,
>
    decreases lines.len(),
{
    if lines.len() == 0 {
        Ok(Seq::empty())
    } else {
        match dissected_accounts(lines.drop_last()) {
            Err(error) => Err(error),
            Ok(done) => match dissected_account(lines.last()) {
                Err(error) => Err(error),
                Ok(Some(packet)) => Ok(done.push(packet)),
                Ok(None) => Ok(done),
            },
        }
    }
}

/// An error in a prefix of the lines is the error of all of them.
pub proof fn lemma_error_ends_reading(lines: Seq<DissectedPacketView>, n: int)
    requires
        0 <= n <= lines.len(),
        dissected_accounts(lines.take(n)) is Err,
    ensures
        dissected_accounts(lines) == dissected_accounts(lines.take(n)),
    decreases lines.len(),
{
    if n == lines.len() {
        assert(lines.take(n) =~= lines);
    } else {
        assert(lines.drop_last().take(n) =~= lines.take(n));
        lemma_error_ends_reading(lines.drop_last(), n);
    }
}

/// Accounts for the packets that the lines describe.
pub fn packets_from_dissection(lines: &Vec<DissectedPacket>) -> (accounts: Result<
    Vec<PacketInfo>,
    DissectError,
>)
    ensures
        match accounts {
            Ok(packets) => dissected_accounts(line_views(lines@)) == Ok::<
                Seq<PacketInfoView>,
                DissectError,
            >(packet_views(packets@)),
            Err(error) => dissected_accounts(line_views(lines@)) == Err::<
                Seq<PacketInfoView>,
                DissectError,
            >(error),
        },
{
    let ghost views = line_views(lines@);
    let mut packets: Vec<PacketInfo> = Vec::new();
    let mut i: usize = 0;
    assert(views.take(0) =~= Seq::empty());
    assert(packet_views(packets@) =~= Seq::empty());
    while i < lines.len()
        invariant
            i <= lines.len(),
            views == line_views(lines@),
            dissected_accounts(views.take(i as int)) == Ok::<Seq<PacketInfoView>, DissectError>(
                packet_views(packets@),
            ),
        decreases lines.len() - i,
    {
        let ghost done = packet_views(packets@);
        proof {
            assert(views.take(i + 1).drop_last() =~= views.take(i as int));
            assert(views.take(i + 1).last() == lines[i as int]@);
        }
        match packet_from_dissection(&lines[i]) {
            Ok(Some(packet)) => {
                packets.push(packet);
                assert(packet_views(packets@) =~= done.push(packet@));
            },
            Ok(None) => {},
            Err(error) => {
                proof {
                    lemma_error_ends_reading(views, i + 1);
                }
                return Err(error);
            },
        }
        i += 1;
    }
    assert(views.take(i as int) =~= views);
    Ok(packets)
}

} // verus!
