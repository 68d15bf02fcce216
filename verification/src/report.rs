//! What the renderer shows of a snapshot: the access points and the clients
//! as rows of text, strongest signal first.

use crate::dissect::packet_views;
use crate::models::{
    client_views, PacketInfo, PacketInfoView, WifiClient, WifiClientView, WifiNetwork,
    WifiNetworkView,
};
use crate::text::str_equal;
use crate::number::{decimal_digits, push_decimal, push_signed_decimal, signed_decimal};
use crate::topology::network_views;
use vstd::prelude::*;
use vstd::set_lib::{lemma_int_range, lemma_len_subset, lemma_subset_equality, set_int_range};
use vstd::string::*;

verus! {

/// Weakest signal, in dBm, that is shown as strong, less one.
pub const STRONG_ABOVE: i32 = -50;

/// Weakest signal, in dBm, that is shown as fair, less one.
pub const FAIR_ABOVE: i32 = -70;

/// How good a signal is.
#[derive(Clone, Copy, Debug, PartialEq, Eq, Structural)]
pub enum SignalBand {
    /// Above -50 dBm.
    Strong,
    /// Above -70 dBm, up to -50 dBm.
    Fair,
    /// -70 dBm and below.
    Weak,
}

/// The band of a signal strength.
pub open spec fn band_of(power: i32) -> SignalBand {
    if power > STRONG_ABOVE {
        SignalBand::Strong
    } else if power > FAIR_ABOVE {
        SignalBand::Fair
    } else {
        SignalBand::Weak
    }
}

/// Tells the band of a signal strength.
pub fn signal_band(power: i32) -> (band: SignalBand)
    ensures
        band == band_of(power),
{
    if power > STRONG_ABOVE {
        SignalBand::Strong
    } else if power > FAIR_ABOVE {
        SignalBand::Fair
    } else {
        SignalBand::Weak
    }
}

/// A signal strength as shown: the number, a space and the unit.
pub open spec fn power_text(power: i32) -> Seq<char> {
    signed_decimal(power as int) + " dBm"@
}

/// Writes a signal strength as shown.
pub fn power_label(power: i32) -> (label: String)
    ensures
        label@ == power_text(power),
{
    let mut label = String::new();
    push_signed_decimal(&mut label, power as i64);
    label.append(" dBm");
    assert(label@ =~= power_text(power));
    label
}

/// Writes a count in decimal.
pub fn count_label(count: usize) -> (label: String)
    ensures
        label@ == decimal_digits(count as nat),
{
    let mut label = String::new();
    push_decimal(&mut label, count as u64);
    assert(label@ =~= decimal_digits(count as nat));
    label
}

/// Number of clients that name the access point `bssid`.
pub open spec fn associated_count(clients: Seq<WifiClientView>, bssid: Seq<char>) -> nat
    decreases clients.len(),
{
    if clients.len() == 0 {
        0
    } else {
        associated_count(clients.drop_last(), bssid) + if clients.last().bssid == bssid {
            1nat
        } else {
            0nat
        }
    }
}

/// Counts the clients that name the access point `bssid`.
pub fn count_associated(clients: &Vec<WifiClient>, bssid: &String) -> (count: usize)
    ensures
        count == associated_count(client_views(clients@), bssid@),
{
    let ghost views = client_views(clients@);
    let mut count: usize = 0;
    let mut i: usize = 0;
    while i < clients.len()
        invariant
            i <= clients.len(),
            views == client_views(clients@),
            count == associated_count(views.take(i as int), bssid@),
            count <= i,
        decreases clients.len() - i,
    {
        assert(views.take(i + 1).drop_last() =~= views.take(i as int));
        assert(views.take(i + 1).last() == clients[i as int]@);
        if clients[i].bssid == *bssid {
            count += 1;
        }
        i += 1;
    }
    assert(views.take(i as int) =~= views);
    count
}

/// Whether the record at index `i` is shown before the one at index `j`:
/// it has the stronger signal, or the same signal and the earlier place.
pub open spec fn shown_before(powers: Seq<i32>, i: int, j: int) -> bool {
    powers[i] > powers[j] || (powers[i] == powers[j] && i < j)
}

/// An order of display for the first `n` records: their indices, each
/// once, strongest signal first, and records of equal signal in the order
/// they have among the records.
pub open spec fn is_display_order(powers: Seq<i32>, order: Seq<usize>, n: int) -> bool {
    &&& order.len() == n
    &&& forall|k: int| 0 <= k < order.len() ==> #[trigger] order[k] < n
    &&& forall|a: int, b: int|
        0 <= a < b < order.len() ==> shown_before(powers, order[a] as int, order[b] as int)
}

/// Orders records for display by their signal strengths.
pub fn display_order(powers: &Vec<i32>) -> (order: Vec<usize>)
    ensures
        is_display_order(powers@, order@, powers.len() as int),
{
    let mut order: Vec<usize> = Vec::new();
    let mut i: usize = 0;
    while i < powers.len()
        invariant
            i <= powers.len(),
            is_display_order(powers@, order@, i as int),
        decreases powers.len() - i,
    {
        let mut k: usize = 0;
        while k < order.len() && powers[order[k]] >= powers[i]
            invariant
                i < powers.len(),
                is_display_order(powers@, order@, i as int),
                k <= order.len(),
                forall|a: int| 0 <= a < k ==> powers[order[a] as int] >= powers[i as int],
            decreases order.len() - k,
        {
            k += 1;
        }
        let ghost before = order@;
        order.insert(k, i);
        proof {
            let after = order@;
            assert(after =~= before.insert(k as int, i));
            assert forall|a: int, b: int| 0 <= a < b < after.len() implies shown_before(
                powers@,
                after[a] as int,
                after[b] as int,
            ) by {
                if b < k {
                    assert(after[a] == before[a] && after[b] == before[b]);
                } else if b == k {
                    assert(after[a] == before[a] && after[b] == i);
                } else if a < k {
                    assert(after[a] == before[a] && after[b] == before[b - 1]);
                } else if a == k {
                    assert(after[a] == i && after[b] == before[b - 1]);
                    assert(k < before.len());
                    if b - 1 > k {
                        assert(shown_before(powers@, before[k as int] as int, before[b - 1] as int));
                    }
                } else {
                    assert(after[a] == before[a - 1] && after[b] == before[b - 1]);
                }
            }
            assert forall|j: int| 0 <= j < after.len() implies #[trigger] after[j] < i + 1 by {
                if j < k {
                    assert(after[j] == before[j]);
                } else if j > k {
                    assert(after[j] == before[j - 1]);
                }
            }
        }
        i += 1;
    }
    order
}

/// An order of display names every record.
pub proof fn lemma_display_order_complete(powers: Seq<i32>, order: Seq<usize>, x: int)
    requires
        is_display_order(powers, order, powers.len() as int),
        0 <= x < powers.len(),
    ensures
        exists|k: int| 0 <= k < order.len() && order[k] == x,
{
    let n = powers.len() as int;
    let places = order.map_values(|v: usize| v as int);
    assert(places.no_duplicates()) by {
        assert forall|i: int, j: int|
            0 <= i < places.len() && 0 <= j < places.len() && i != j implies places[i]
            != places[j] by {
            if i < j {
                assert(shown_before(powers, order[i] as int, order[j] as int));
            } else {
                assert(shown_before(powers, order[j] as int, order[i] as int));
            }
        }
    }
    places.unique_seq_to_set();
    lemma_int_range(0, n);
    assert(places.to_set().subset_of(set_int_range(0, n))) by {
        assert forall|v: int| places.to_set().contains(v) implies set_int_range(0, n).contains(
            v,
        ) by {
            let k = choose|k: int| 0 <= k < places.len() && places[k] == v;
            assert(order[k] < n);
        }
    }
    lemma_len_subset(places.to_set(), set_int_range(0, n));
    lemma_subset_equality(places.to_set(), set_int_range(0, n));
    assert(set_int_range(0, n).contains(x));
    assert(places.contains(x));
    let k = choose|k: int| 0 <= k < places.len() && places[k] == x;
    assert(order[k] == x);
}

/// The records have one order of display only.
pub proof fn lemma_display_order_unique(powers: Seq<i32>, first: Seq<usize>, second: Seq<usize>)
    requires
        is_display_order(powers, first, powers.len() as int),
        is_display_order(powers, second, powers.len() as int),
    ensures
        first == second,
{
    assert forall|k: int| 0 <= k < first.len() implies first[k] == second[k] by {
        lemma_same_place(powers, first, second, k);
    }
    assert(first =~= second);
}

/// Two orders of display agree at every place up to `k`.
proof fn lemma_same_place(powers: Seq<i32>, first: Seq<usize>, second: Seq<usize>, k: int)
    requires
        is_display_order(powers, first, powers.len() as int),
        is_display_order(powers, second, powers.len() as int),
        0 <= k < first.len(),
    ensures
        forall|j: int| 0 <= j <= k ==> first[j] == second[j],
    decreases k,
{
    if k > 0 {
        lemma_same_place(powers, first, second, k - 1);
    }
    let x = first[k] as int;
    let y = second[k] as int;
    if x != y {
        if shown_before(powers, x, y) {
            lemma_display_order_complete(powers, second, x);
            let j = choose|j: int| 0 <= j < second.len() && second[j] == x;
            if j < k {
                assert(shown_before(powers, first[j] as int, first[k] as int));
            } else if j > k {
                assert(shown_before(powers, second[k] as int, second[j] as int));
            }
        } else {
            lemma_display_order_complete(powers, first, y);
            let j = choose|j: int| 0 <= j < first.len() && first[j] == y;
            if j < k {
                assert(shown_before(powers, second[j] as int, second[k] as int));
            } else if j > k {
                assert(shown_before(powers, first[k] as int, first[j] as int));
            }
        }
    }
}

/// One access point as shown.
#[derive(Debug, PartialEq, Eq)]
pub struct NetworkRow {
    pub bssid: String,
    pub ssid: String,
    pub channel: String,
    pub power: String,
    pub band: SignalBand,
    pub encryption: String,
    pub clients: String,
}

/// What a [`NetworkRow`] holds, as plain values.
pub struct NetworkRowView {
    pub bssid: Seq<char>,
    pub ssid: Seq<char>,
    pub channel: Seq<char>,
    pub power: Seq<char>,
    pub band: SignalBand,
    pub encryption: Seq<char>,
    pub clients: Seq<char>,
}

impl View for NetworkRow {
    type V = NetworkRowView;

    open spec fn view(&self) -> NetworkRowView {
        NetworkRowView {
            bssid: self.bssid@,
            ssid: self.ssid@,
            channel: self.channel@,
            power: self.power@,
            band: self.band,
            encryption: self.encryption@,
            clients: self.clients@,
        }
    }
}

/// One client as shown.
#[derive(Debug, PartialEq, Eq)]
pub struct ClientRow {
    pub mac: String,
    pub bssid: String,
    pub power: String,
    pub band: SignalBand,
    pub probes: String,
}

/// What a [`ClientRow`] holds, as plain values.
pub struct ClientRowView {
    pub mac: Seq<char>,
    pub bssid: Seq<char>,
    pub power: Seq<char>,
    pub band: SignalBand,
    pub probes: Seq<char>,
}

impl View for ClientRow {
    type V = ClientRowView;

    open spec fn view(&self) -> ClientRowView {
        ClientRowView {
            mac: self.mac@,
            bssid: self.bssid@,
            power: self.power@,
            band: self.band,
            probes: self.probes@,
        }
    }
}

/// The row of an access point: its own values as text, and the number of
/// clients, among all that were seen, that name it.
pub open spec fn network_row_of(
    network: WifiNetworkView,
    clients: Seq<WifiClientView>,
) -> NetworkRowView {
    NetworkRowView {
        bssid: network.bssid,
        ssid: network.ssid,
        channel: decimal_digits(network.channel as nat),
        power: power_text(network.power),
        band: band_of(network.power),
        encryption: network.encryption,
        clients: decimal_digits(associated_count(clients, network.bssid)),
    }
}

/// The row of a client: its own values as text, with `N/A` where it probes
/// for nothing.
pub open spec fn client_row_of(client: WifiClientView) -> ClientRowView {
    ClientRowView {
        mac: client.mac,
        bssid: client.bssid,
        power: power_text(client.power),
        band: band_of(client.power),
        probes: match client.probe_ssid {
            Some(names) => names,
            None => "N/A"@,
        },
    }
}

/// Writes the row of an access point.
pub fn network_row(network: &WifiNetwork, clients: &Vec<WifiClient>) -> (row: NetworkRow)
    ensures
        row@ == network_row_of(network@, client_views(clients@)),
{
    NetworkRow {
        bssid: network.bssid.clone(),
        ssid: network.ssid.clone(),
        channel: count_label(network.channel as usize),
        power: power_label(network.power),
        band: signal_band(network.power),
        encryption: network.encryption.clone(),
        clients: count_label(count_associated(clients, &network.bssid)),
    }
}

/// Writes the row of a client.
pub fn client_row(client: &WifiClient) -> (row: ClientRow)
    ensures
        row@ == client_row_of(client@),
{
    ClientRow {
        mac: client.mac.clone(),
        bssid: client.bssid.clone(),
        power: power_label(client.power),
        band: signal_band(client.power),
        probes: match &client.probe_ssid {
            Some(names) => names.clone(),
            None => "N/A".to_owned(),
        },
    }
}

/// The signal strengths of access points, in order.
pub open spec fn network_powers(networks: Seq<WifiNetworkView>) -> Seq<i32> {
    networks.map_values(|n: WifiNetworkView| n.power)
}

/// The signal strengths of clients, in order.
pub open spec fn client_powers(clients: Seq<WifiClientView>) -> Seq<i32> {
    clients.map_values(|c: WifiClientView| c.power)
}

/// The heading of a survey report.
pub open spec fn report_title(elapsed_secs: u64) -> Seq<char> {
    "Wi-Fi Scan Results (Elapsed: "@ + decimal_digits(elapsed_secs as nat) + "s)"@
}

/// A snapshot as shown.
#[derive(Debug, PartialEq, Eq)]
pub struct ScanReport {
    /// Heading, with the seconds elapsed.
    pub title: String,
    /// The access points, strongest signal first.
    pub networks: Vec<NetworkRow>,
    /// The clients, strongest signal first.
    pub clients: Vec<ClientRow>,
}

/// The rows are those of the access points, taken in an order of display.
pub open spec fn shows_networks(
    rows: Seq<NetworkRow>,
    networks: Seq<WifiNetworkView>,
    clients: Seq<WifiClientView>,
    order: Seq<usize>,
) -> bool {
    &&& is_display_order(network_powers(networks), order, networks.len() as int)
    &&& rows.len() == networks.len()
    &&& forall|k: int|
        0 <= k < rows.len() ==> (#[trigger] rows[k])@ == network_row_of(
            networks[order[k] as int],
            clients,
        )
}

/// The rows are those of the clients, taken in an order of display.
pub open spec fn shows_clients(
    rows: Seq<ClientRow>,
    clients: Seq<WifiClientView>,
    order: Seq<usize>,
) -> bool {
    &&& is_display_order(client_powers(clients), order, clients.len() as int)
    &&& rows.len() == clients.len()
    &&& forall|k: int|
        0 <= k < rows.len() ==> (#[trigger] rows[k])@ == client_row_of(clients[order[k] as int])
}

/// Writes the heading of a survey report.
pub fn scan_title(elapsed_secs: u64) -> (title: String)
    ensures
        title@ == report_title(elapsed_secs),
{
    let mut title = String::new();
    title.append("Wi-Fi Scan Results (Elapsed: ");
    push_decimal(&mut title, elapsed_secs);
    title.append("s)");
    assert(title@ =~= report_title(elapsed_secs));
    title
}

/// Lays out a snapshot for display: a heading with the seconds elapsed,
/// then every access point and every client as a row, each list with the
/// strongest signal first and equal signals in the order of the snapshot.
pub fn scan_report(
    networks: &Vec<WifiNetwork>,
    clients: &Vec<WifiClient>,
    elapsed_secs: u64,
) -> (report: ScanReport)
    ensures
        report.title@ == report_title(elapsed_secs),
        exists|order: Seq<usize>|
            shows_networks(
                report.networks@,
                network_views(networks@),
                client_views(clients@),
                order,
            ),
        exists|order: Seq<usize>| shows_clients(report.clients@, client_views(clients@), order),
{
    let ghost nets = network_views(networks@);
    let ghost stations = client_views(clients@);
    let mut powers: Vec<i32> = Vec::new();
    let mut i: usize = 0;
    while i < networks.len()
        invariant
            i <= networks.len(),
            nets == network_views(networks@),
            powers@ == network_powers(nets).take(i as int),
        decreases networks.len() - i,
    {
        powers.push(networks[i].power);
        assert(powers@ =~= network_powers(nets).take(i + 1));
        i += 1;
    }
    assert(powers@ =~= network_powers(nets));
    let order = display_order(&powers);
    let mut rows: Vec<NetworkRow> = Vec::new();
    let mut k: usize = 0;
    while k < order.len()
        invariant
            k <= order.len(),
            order.len() == networks.len(),
            nets == network_views(networks@),
            stations == client_views(clients@),
            is_display_order(network_powers(nets), order@, networks.len() as int),
            rows.len() == k,
            forall|j: int|
                0 <= j < k ==> (#[trigger] rows[j])@ == network_row_of(
                    nets[order[j] as int],
                    stations,
                ),
        decreases order.len() - k,
    {
        assert(order@[k as int] < networks.len());
        rows.push(network_row(&networks[order[k]], clients));
        k += 1;
    }

    let mut client_strengths: Vec<i32> = Vec::new();
    let mut i: usize = 0;
    while i < clients.len()
        invariant
            i <= clients.len(),
            stations == client_views(clients@),
            client_strengths@ == client_powers(stations).take(i as int),
        decreases clients.len() - i,
    {
        client_strengths.push(clients[i].power);
        assert(client_strengths@ =~= client_powers(stations).take(i + 1));
        i += 1;
    }
    assert(client_strengths@ =~= client_powers(stations));
    let client_order = display_order(&client_strengths);
    let mut client_rows: Vec<ClientRow> = Vec::new();
    let mut k: usize = 0;
    while k < client_order.len()
        invariant
            k <= client_order.len(),
            client_order.len() == clients.len(),
            stations == client_views(clients@),
            is_display_order(client_powers(stations), client_order@, clients.len() as int),
            client_rows.len() == k,
            forall|j: int|
                0 <= j < k ==> (#[trigger] client_rows[j])@ == client_row_of(
                    stations[client_order[j] as int],
                ),
        decreases client_order.len() - k,
    {
        assert(client_order@[k as int] < clients.len());
        client_rows.push(client_row(&clients[client_order[k]]));
        k += 1;
    }
    let report = ScanReport {
        title: scan_title(elapsed_secs),
        networks: rows,
        clients: client_rows,
    };
    assert(shows_networks(report.networks@, nets, stations, order@));
    assert(shows_clients(report.clients@, stations, client_order@));
    report
}

/// How a protocol is shown.
#[derive(Clone, Copy, Debug, PartialEq, Eq, Structural)]
pub enum ProtocolClass {
    Tcp,
    Udp,
    Icmp,
    Other,
}

/// The lower-case form of a text, by the Unicode case mapping.
pub uninterp spec fn lowercase(text: Seq<char>) -> Seq<char>;

/// Puts a text into lower case: `str::to_lowercase`. The result is the
/// lower-case form of the text.
#[verifier::external_body]
fn to_lowercase(text: &str) -> (lower: String)
    ensures
        lower@ == lowercase(text@),
{
    text.to_lowercase()
}

/// The class that a protocol name in lower case belongs to.
pub open spec fn class_of(lower: Seq<char>) -> ProtocolClass {
    if lower == "tcp"@ {
        ProtocolClass::Tcp
    } else if lower == "udp"@ {
        ProtocolClass::Udp
    } else if lower == "icmp"@ {
        ProtocolClass::Icmp
    } else {
        ProtocolClass::Other
    }
}

/// Tells the class of a protocol name that is in lower case.
pub fn class_of_lowercase(lower: &str) -> (class: ProtocolClass)
    ensures
        class == class_of(lower@),
{
    if str_equal(lower, "tcp") {
        ProtocolClass::Tcp
    } else if str_equal(lower, "udp") {
        ProtocolClass::Udp
    } else if str_equal(lower, "icmp") {
        ProtocolClass::Icmp
    } else {
        ProtocolClass::Other
    }
}

/// Tells the class of a protocol name, whatever its case.
pub fn protocol_class(protocol: &str) -> (class: ProtocolClass)
    ensures
        class == class_of(lowercase(protocol@)),
{
    let lower = to_lowercase(protocol);
    class_of_lowercase(lower.as_str())
}

/// One packet as shown.
#[derive(Debug, PartialEq, Eq)]
pub struct PacketRow {
    pub timestamp: String,
    pub source_ip: String,
    pub dest_ip: String,
    pub protocol: String,
    pub class: ProtocolClass,
    pub size: String,
    pub summary: String,
}

/// What a [`PacketRow`] holds, as plain values.
pub struct PacketRowView {
    pub timestamp: Seq<char>,
    pub source_ip: Seq<char>,
    pub dest_ip: Seq<char>,
    pub protocol: Seq<char>,
    pub class: ProtocolClass,
    pub size: Seq<char>,
    pub summary: Seq<char>,
}

impl View for PacketRow {
    type V = PacketRowView;

    open spec fn view(&self) -> PacketRowView {
        PacketRowView {
            timestamp: self.timestamp@,
            source_ip: self.source_ip@,
            dest_ip: self.dest_ip@,
            protocol: self.protocol@,
            class: self.class,
            size: self.size@,
            summary: self.summary@,
        }
    }
}

/// The row of a packet: its own values as text, its size in bytes with the
/// unit, and the class of its protocol.
pub open spec fn packet_row_of(packet: PacketInfoView) -> PacketRowView {
    PacketRowView {
        timestamp: packet.timestamp,
        source_ip: packet.source_ip,
        dest_ip: packet.dest_ip,
        protocol: packet.protocol,
        class: class_of(lowercase(packet.protocol)),
        size: decimal_digits(packet.size as nat) + " B"@,
        summary: packet.summary,
    }
}

/// Writes the row of a packet.
pub fn packet_row(packet: &PacketInfo) -> (row: PacketRow)
    ensures
        row@ == packet_row_of(packet@),
{
    let mut size = String::new();
    push_decimal(&mut size, packet.size as u64);
    size.append(" B");
    assert(size@ =~= decimal_digits(packet.size as nat) + " B"@);
    PacketRow {
        timestamp: packet.timestamp.clone(),
        source_ip: packet.source_ip.clone(),
        dest_ip: packet.dest_ip.clone(),
        protocol: packet.protocol.clone(),
        class: protocol_class(packet.protocol.as_str()),
        size,
        summary: packet.summary.clone(),
    }
}

/// Writes the rows of packets, in their order.
pub fn packet_rows(packets: &Vec<PacketInfo>) -> (rows: Vec<PacketRow>)
    ensures
        rows.len() == packets.len(),
        forall|k: int|
            0 <= k < rows.len() ==> (#[trigger] rows[k])@ == packet_row_of(
                packet_views(packets@)[k],
            ),
{
    let mut rows: Vec<PacketRow> = Vec::new();
    let mut i: usize = 0;
    while i < packets.len()
        invariant
            i <= packets.len(),
            rows.len() == i,
            forall|k: int|
                0 <= k < i ==> (#[trigger] rows[k])@ == packet_row_of(packet_views(packets@)[k]),
        decreases packets.len() - i,
    {
        assert(packet_views(packets@)[i as int] == packets[i as int]@);
        rows.push(packet_row(&packets[i]));
        i += 1;
    }
    rows
}

} // verus!
