//! The records that a survey produces, and their mathematical views.

use vstd::prelude::*;

verus! {

/// A wireless client station, as last observed.
#[derive(Debug, PartialEq, Eq)]
pub struct WifiClient {
    /// Hardware address of the station; the key of the record.
    pub mac: String,
    /// Hardware address of the access point it is associated with, or the
    /// unassociated marker.
    pub bssid: String,
    /// Signal strength in dBm.
    pub power: i32,
    /// Network names the station was seen probing for, if any.
    pub probe_ssid: Option<String>,
}

/// What a [`WifiClient`] holds, as plain values.
pub struct WifiClientView {
    pub mac: Seq<char>,
    pub bssid: Seq<char>,
    pub power: i32,
    pub probe_ssid: Option<Seq<char>>,
}

impl View for WifiClient {
    type V = WifiClientView;

    open spec fn view(&self) -> WifiClientView {
        WifiClientView {
            mac: self.mac@,
            bssid: self.bssid@,
            power: self.power,
            probe_ssid: match self.probe_ssid {
                Some(s) => Some(s@),
                None => None,
            },
        }
    }
}

impl Clone for WifiClient {
    fn clone(&self) -> (copy: Self)
        ensures
            copy@ == self@,
    {
        WifiClient {
            mac: self.mac.clone(),
            bssid: self.bssid.clone(),
            power: self.power,
            probe_ssid: match &self.probe_ssid {
                Some(s) => Some(s.clone()),
                None => None,
            },
        }
    }
}

/// The views of a sequence of clients, in order.
pub open spec fn client_views(clients: Seq<WifiClient>) -> Seq<WifiClientView> {
    clients.map_values(|c: WifiClient| c@)
}

/// No two clients of the sequence share a hardware address.
pub open spec fn distinct_macs(clients: Seq<WifiClientView>) -> bool {
    forall|i: int, j: int|
        0 <= i < clients.len() && 0 <= j < clients.len() && i != j ==> (#[trigger] clients[i]).mac
            != (#[trigger] clients[j]).mac
}

/// Some client of the sequence has the hardware address `mac`.
pub open spec fn has_mac(clients: Seq<WifiClientView>, mac: Seq<char>) -> bool {
    exists|i: int| 0 <= i < clients.len() && (#[trigger] clients[i]).mac == mac
}

/// Copies a list of clients.
pub fn clone_clients(clients: &Vec<WifiClient>) -> (copy: Vec<WifiClient>)
    ensures
        client_views(copy@) == client_views(clients@),
{
    let mut copy: Vec<WifiClient> = Vec::new();
    let mut i: usize = 0;
    while i < clients.len()
        invariant
            i <= clients.len(),
            copy.len() == i,
            forall|k: int| 0 <= k < i ==> copy[k]@ == clients[k]@,
        decreases clients.len() - i,
    {
        copy.push(clients[i].clone());
        i += 1;
    }
    assert(client_views(copy@) =~= client_views(clients@));
    copy
}

/// A wireless access point, as last observed, with the clients linked to it.
#[derive(Debug, PartialEq, Eq)]
pub struct WifiNetwork {
    /// Hardware address of the access point; the key of the record.
    pub bssid: String,
    /// Advertised network name.
    pub ssid: String,
    /// Radio channel.
    pub channel: u8,
    /// Cipher and authentication label, kept as read.
    pub encryption: String,
    /// Signal strength in dBm.
    pub power: i32,
    /// Associated clients in the order they were linked, one per address.
    pub clients: Vec<WifiClient>,
}

/// What a [`WifiNetwork`] holds, as plain values.
pub struct WifiNetworkView {
    pub bssid: Seq<char>,
    pub ssid: Seq<char>,
    pub channel: u8,
    pub encryption: Seq<char>,
    pub power: i32,
    pub clients: Seq<WifiClientView>,
}

impl View for WifiNetwork {
    type V = WifiNetworkView;

    open spec fn view(&self) -> WifiNetworkView {
        WifiNetworkView {
            bssid: self.bssid@,
            ssid: self.ssid@,
            channel: self.channel,
            encryption: self.encryption@,
            power: self.power,
            clients: client_views(self.clients@),
        }
    }
}

impl WifiNetworkView {
    /// The client list names each hardware address at most once.
    pub open spec fn wf(self) -> bool {
        distinct_macs(self.clients)
    }
}

impl Clone for WifiNetwork {
    fn clone(&self) -> (copy: Self)
        ensures
            copy@ == self@,
    {
        WifiNetwork {
            bssid: self.bssid.clone(),
            ssid: self.ssid.clone(),
            channel: self.channel,
            encryption: self.encryption.clone(),
            power: self.power,
            clients: clone_clients(&self.clients),
        }
    }
}

/// One entry of the event log: when, about what, how it went, and a message.
#[derive(Debug, PartialEq, Eq)]
pub struct AttackEvent {
    pub timestamp: String,
    pub attack_type: String,
    pub status: String,
    pub message: String,
}

/// What an [`AttackEvent`] holds, as plain values.
pub struct AttackEventView {
    pub timestamp: Seq<char>,
    pub attack_type: Seq<char>,
    pub status: Seq<char>,
    pub message: Seq<char>,
}

impl View for AttackEvent {
    type V = AttackEventView;

    open spec fn view(&self) -> AttackEventView {
        AttackEventView {
            timestamp: self.timestamp@,
            attack_type: self.attack_type@,
            status: self.status@,
            message: self.message@,
        }
    }
}

impl Clone for AttackEvent {
    fn clone(&self) -> (copy: Self)
        ensures
            copy@ == self@,
    {
        AttackEvent {
            timestamp: self.timestamp.clone(),
            attack_type: self.attack_type.clone(),
            status: self.status.clone(),
            message: self.message.clone(),
        }
    }
}

/// A one-line account of a captured packet.
#[derive(Debug, PartialEq, Eq)]
pub struct PacketInfo {
    pub timestamp: String,
    pub source_ip: String,
    pub dest_ip: String,
    pub protocol: String,
    pub size: u32,
    pub summary: String,
}

/// What a [`PacketInfo`] holds, as plain values.
pub struct PacketInfoView {
    pub timestamp: Seq<char>,
    pub source_ip: Seq<char>,
    pub dest_ip: Seq<char>,
    pub protocol: Seq<char>,
    pub size: u32,
    pub summary: Seq<char>,
}

impl View for PacketInfo {
    type V = PacketInfoView;

    open spec fn view(&self) -> PacketInfoView {
        PacketInfoView {
            timestamp: self.timestamp@,
            source_ip: self.source_ip@,
            dest_ip: self.dest_ip@,
            protocol: self.protocol@,
            size: self.size,
            summary: self.summary@,
        }
    }
}

impl Clone for PacketInfo {
    fn clone(&self) -> (copy: Self)
        ensures
            copy@ == self@,
    {
        PacketInfo {
            timestamp: self.timestamp.clone(),
            source_ip: self.source_ip.clone(),
            dest_ip: self.dest_ip.clone(),
            protocol: self.protocol.clone(),
            size: self.size,
            summary: self.summary.clone(),
        }
    }
}

} // verus!
