//! The topology store: every access point and client seen so far, one
//! record per hardware address, with each client linked to its access point.

use crate::models::{
    client_views, clone_clients, distinct_macs, has_mac, WifiClient, WifiClientView, WifiNetwork,
    WifiNetworkView,
};
use vstd::prelude::*;
use vstd::seq_lib::seq_to_set_is_finite;

verus! {

/// Index of the first access point at or after `i` with the address `bssid`.
pub open spec fn network_index_from(
    networks: Seq<WifiNetworkView>,
    bssid: Seq<char>,
    i: int,
) -> Option<int>
    decreases networks.len() - i,
{
    if i < 0 || i >= networks.len() {
        None
    } else if networks[i].bssid == bssid {
        Some(i)
    } else {
        network_index_from(networks, bssid, i + 1)
    }
}

/// Index of the access point with the address `bssid`, if one is known.
pub open spec fn network_index(networks: Seq<WifiNetworkView>, bssid: Seq<char>) -> Option<int> {
    network_index_from(networks, bssid, 0)
}

/// Index of the first client at or after `i` with the address `mac`.
pub open spec fn client_index_from(clients: Seq<WifiClientView>, mac: Seq<char>, i: int) -> Option<
    int,
>
    decreases clients.len() - i,
{
    if i < 0 || i >= clients.len() {
        None
    } else if clients[i].mac == mac {
        Some(i)
    } else {
        client_index_from(clients, mac, i + 1)
    }
}

/// Index of the client with the address `mac`, if one is known.
pub open spec fn client_index(clients: Seq<WifiClientView>, mac: Seq<char>) -> Option<int> {
    client_index_from(clients, mac, 0)
}

/// No two access points of the sequence share an address.
pub open spec fn distinct_bssids(networks: Seq<WifiNetworkView>) -> bool {
    forall|i: int, j: int|
        0 <= i < networks.len() && 0 <= j < networks.len() && i != j ==> (
        #[trigger] networks[i]).bssid != (#[trigger] networks[j]).bssid
}

/// The access points after one is observed: the record takes the place of
/// the one with its address, or comes last where the address is new.
pub open spec fn upsert_network(
    networks: Seq<WifiNetworkView>,
    record: WifiNetworkView,
) -> Seq<WifiNetworkView> {
    match network_index(networks, record.bssid) {
        Some(i) => networks.update(i, record),
        None => networks.push(record),
    }
}

/// The clients after one is observed: the record takes the place of the one
/// with its address, or comes last where the address is new.
pub open spec fn upsert_station(
    clients: Seq<WifiClientView>,
    record: WifiClientView,
) -> Seq<WifiClientView> {
    match client_index(clients, record.mac) {
        Some(i) => clients.update(i, record),
        None => clients.push(record),
    }
}

/// An access point with one more client at the end of its list.
pub open spec fn with_client(network: WifiNetworkView, record: WifiClientView) -> WifiNetworkView {
    WifiNetworkView {
        bssid: network.bssid,
        ssid: network.ssid,
        channel: network.channel,
        encryption: network.encryption,
        power: network.power,
        clients: network.clients.push(record),
    }
}

/// The access points after a client is observed: where the client names a
/// known access point whose list lacks the client's address, the client is
/// added at the end of that list; nothing else changes.
pub open spec fn link_client(
    networks: Seq<WifiNetworkView>,
    record: WifiClientView,
) -> Seq<WifiNetworkView> {
    match network_index(networks, record.bssid) {
        Some(i) if !has_mac(networks[i].clients, record.mac) => networks.update(
            i,
            with_client(networks[i], record),
        ),
        _ => networks,
    }
}

/// What a [`TopologyStore`] holds: the access points and the clients, each
/// in the order their addresses were first seen.
pub struct TopologyView {
    pub networks: Seq<WifiNetworkView>,
    pub clients: Seq<WifiClientView>,
}

impl TopologyView {
    /// The store with nothing in it.
    pub open spec fn empty() -> TopologyView {
        TopologyView { networks: Seq::empty(), clients: Seq::empty() }
    }

    /// One access point per address, one client per address, and each
    /// access point lists a client at most once.
    pub open spec fn wf(self) -> bool {
        &&& distinct_bssids(self.networks)
        &&& distinct_macs(self.clients)
        &&& forall|i: int| 0 <= i < self.networks.len() ==> (#[trigger] self.networks[i]).wf()
    }

    /// The store after an access point is observed.
    pub open spec fn upsert_access_point(self, record: WifiNetworkView) -> TopologyView {
        TopologyView { networks: upsert_network(self.networks, record), clients: self.clients }
    }

    /// The store after a client is observed.
    pub open spec fn upsert_client(self, record: WifiClientView) -> TopologyView {
        TopologyView {
            networks: link_client(self.networks, record),
            clients: upsert_station(self.clients, record),
        }
    }

    /// The access point recorded for an address.
    pub open spec fn access_point(self, bssid: Seq<char>) -> Option<WifiNetworkView> {
        match network_index(self.networks, bssid) {
            Some(i) => Some(self.networks[i]),
            None => None,
        }
    }

    /// The client recorded for an address.
    pub open spec fn client(self, mac: Seq<char>) -> Option<WifiClientView> {
        match client_index(self.clients, mac) {
            Some(i) => Some(self.clients[i]),
            None => None,
        }
    }

    /// The access points as a mapping from address to record.
    pub open spec fn access_points(self) -> Map<Seq<char>, WifiNetworkView> {
        Map::new(
            |bssid: Seq<char>| self.access_point(bssid) is Some,
            |bssid: Seq<char>| self.access_point(bssid).unwrap(),
        )
    }

    /// The clients as a mapping from address to record.
    pub open spec fn stations(self) -> Map<Seq<char>, WifiClientView> {
        Map::new(
            |mac: Seq<char>| self.client(mac) is Some,
            |mac: Seq<char>| self.client(mac).unwrap(),
        )
    }
}

/// A search from `i` finds the first access point at or after `i` with the
/// address, and finds nothing only where none has it.
pub proof fn lemma_network_index(networks: Seq<WifiNetworkView>, bssid: Seq<char>, i: int)
    requires
        0 <= i,
    ensures
        match network_index_from(networks, bssid, i) {
            Some(at) => {
                &&& i <= at < networks.len()
                &&& networks[at].bssid == bssid
                &&& forall|k: int| i <= k < at ==> networks[k].bssid != bssid
            },
            None => forall|k: int| i <= k < networks.len() ==> networks[k].bssid != bssid,
        },
    decreases networks.len() - i,
{
    if i < networks.len() && networks[i].bssid != bssid {
        lemma_network_index(networks, bssid, i + 1);
    }
}

/// A search from `i` finds the first client at or after `i` with the
/// address, and finds nothing only where none has it.
pub proof fn lemma_client_index(clients: Seq<WifiClientView>, mac: Seq<char>, i: int)
    requires
        0 <= i,
    ensures
        match client_index_from(clients, mac, i) {
            Some(at) => {
                &&& i <= at < clients.len()
                &&& clients[at].mac == mac
                &&& forall|k: int| i <= k < at ==> clients[k].mac != mac
            },
            None => forall|k: int| i <= k < clients.len() ==> clients[k].mac != mac,
        },
    decreases clients.len() - i,
{
    if i < clients.len() && clients[i].mac != mac {
        lemma_client_index(clients, mac, i + 1);
    }
}

/// The views of a sequence of access points, in order.
pub open spec fn network_views(networks: Seq<WifiNetwork>) -> Seq<WifiNetworkView> {
    networks.map_values(|n: WifiNetwork| n@)
}

/// The live state of one survey session.
pub struct TopologyStore {
    networks: Vec<WifiNetwork>,
    clients: Vec<WifiClient>,
}

impl View for TopologyStore {
    type V = TopologyView;

    closed spec fn view(&self) -> TopologyView {
        TopologyView {
            networks: network_views(self.networks@),
            clients: client_views(self.clients@),
        }
    }
}

/// A copy of the store's contents at one moment.
#[derive(Debug)]
pub struct Snapshot {
    pub networks: Vec<WifiNetwork>,
    pub clients: Vec<WifiClient>,
}

impl View for Snapshot {
    type V = TopologyView;

    open spec fn view(&self) -> TopologyView {
        TopologyView {
            networks: network_views(self.networks@),
            clients: client_views(self.clients@),
        }
    }
}

/// Finds the access point with the address `bssid`.
fn find_network(networks: &Vec<WifiNetwork>, bssid: &String) -> (at: Option<usize>)
    ensures
        match at {
            Some(i) => i < networks.len() && network_index(network_views(networks@), bssid@)
                == Some(i as int),
            None => network_index(network_views(networks@), bssid@) is None,
        },
{
    let ghost views = network_views(networks@);
    let mut i: usize = 0;
    while i < networks.len()
        invariant
            i <= networks.len(),
            views == network_views(networks@),
            network_index(views, bssid@) == network_index_from(views, bssid@, i as int),
        decreases networks.len() - i,
    {
        assert(views[i as int] == networks[i as int]@);
        if networks[i].bssid == *bssid {
            return Some(i);
        }
        i += 1;
    }
    None
}

/// Finds the client with the address `mac`.
fn find_client(clients: &Vec<WifiClient>, mac: &String) -> (at: Option<usize>)
    ensures
        match at {
            Some(i) => i < clients.len() && client_index(client_views(clients@), mac@) == Some(
                i as int,
            ),
            None => client_index(client_views(clients@), mac@) is None,
        },
{
    let ghost views = client_views(clients@);
    let mut i: usize = 0;
    while i < clients.len()
        invariant
            i <= clients.len(),
            views == client_views(clients@),
            client_index(views, mac@) == client_index_from(views, mac@, i as int),
        decreases clients.len() - i,
    {
        assert(views[i as int] == clients[i as int]@);
        if clients[i].mac == *mac {
            return Some(i);
        }
        i += 1;
    }
    None
}

/// Tells whether a list names the address `mac`.
fn lists_mac(clients: &Vec<WifiClient>, mac: &String) -> (found: bool)
    ensures
        found == has_mac(client_views(clients@), mac@),
{
    let ghost views = client_views(clients@);
    let mut i: usize = 0;
    while i < clients.len()
        invariant
            i <= clients.len(),
            views == client_views(clients@),
            forall|k: int| 0 <= k < i ==> (#[trigger] views[k]).mac != mac@,
        decreases clients.len() - i,
    {
        assert(views[i as int] == clients[i as int]@);
        if clients[i].mac == *mac {
            return true;
        }
        i += 1;
    }
    false
}

impl TopologyStore {
    /// An empty store, as at the start of a session.
    pub fn new() -> (store: Self)
        ensures
            store@ == TopologyView::empty(),
            store@.wf(),
    {
        let store = TopologyStore { networks: Vec::new(), clients: Vec::new() };
        assert(store@.networks =~= Seq::empty());
        assert(store@.clients =~= Seq::empty());
        store
    }

    /// Records an observed access point: it replaces the record with its
    /// address, client list included, or is added where the address is new.
    pub fn upsert_access_point(&mut self, record: WifiNetwork)
        requires
            old(self)@.wf(),
            record@.wf(),
        ensures
            final(self)@ == old(self)@.upsert_access_point(record@),
            final(self)@.wf(),
    {
        let ghost before = self@;
        let ghost rec = record@;
        proof {
            lemma_network_index(before.networks, rec.bssid, 0);
        }
        match find_network(&self.networks, &record.bssid) {
            Some(i) => {
                self.networks.set(i, record);
                assert(self@.networks =~= before.networks.update(i as int, rec));
            },
            None => {
                self.networks.push(record);
                assert(self@.networks =~= before.networks.push(rec));
            },
        }
    }

    /// Records an observed client: it replaces the record with its address,
    /// or is added where the address is new. Where the client names a known
    /// access point that does not list its address yet, it is also added at
    /// the end of that access point's list.
    pub fn upsert_client(&mut self, record: WifiClient)
        requires
            old(self)@.wf(),
        ensures
            final(self)@ == old(self)@.upsert_client(record@),
            final(self)@.wf(),
    {
        let ghost before = self@;
        let ghost rec = record@;
        proof {
            lemma_client_index(before.clients, rec.mac, 0);
            lemma_network_index(before.networks, rec.bssid, 0);
        }
        match find_client(&self.clients, &record.mac) {
            Some(i) => {
                self.clients.set(i, record.clone());
                assert(self@.clients =~= before.clients.update(i as int, rec));
            },
            None => {
                self.clients.push(record.clone());
                assert(self@.clients =~= before.clients.push(rec));
            },
        }
        match find_network(&self.networks, &record.bssid) {
            Some(i) => {
                assert(before.networks[i as int] == self.networks[i as int]@);
                if !lists_mac(&self.networks[i].clients, &record.mac) {
                    let ghost listed = before.networks[i as int].clients;
                    self.networks[i].clients.push(record);
                    assert(self.networks[i as int]@.clients =~= listed.push(rec));
                    assert(self@.networks =~= before.networks.update(
                        i as int,
                        with_client(before.networks[i as int], rec),
                    ));
                    assert(with_client(before.networks[i as int], rec).wf()) by {
                        assert(before.networks[i as int].wf());
                    }
                }
            },
            None => {},
        }
    }

    /// Number of distinct access points seen.
    pub fn access_point_count(&self) -> (n: usize)
        ensures
            n == self@.networks.len(),
            self@.wf() ==> n == self@.access_points().dom().len(),
    {
        proof {
            if self@.wf() {
                lemma_counts_are_distinct(self@);
            }
        }
        self.networks.len()
    }

    /// Number of distinct clients seen.
    pub fn client_count(&self) -> (n: usize)
        ensures
            n == self@.clients.len(),
            self@.wf() ==> n == self@.stations().dom().len(),
    {
        proof {
            if self@.wf() {
                lemma_counts_are_distinct(self@);
            }
        }
        self.clients.len()
    }

    /// The access point recorded for an address.
    pub fn access_point(&self, bssid: &String) -> (found: Option<&WifiNetwork>)
        ensures
            match found {
                Some(network) => self@.access_point(bssid@) == Some(network@),
                None => self@.access_point(bssid@) is None,
            },
    {
        match find_network(&self.networks, bssid) {
            Some(i) => {
                assert(self@.networks[i as int] == self.networks[i as int]@);
                Some(&self.networks[i])
            },
            None => None,
        }
    }

    /// The client recorded for an address.
    pub fn client(&self, mac: &String) -> (found: Option<&WifiClient>)
        ensures
            match found {
                Some(client) => self@.client(mac@) == Some(client@),
                None => self@.client(mac@) is None,
            },
    {
        match find_client(&self.clients, mac) {
            Some(i) => {
                assert(self@.clients[i as int] == self.clients[i as int]@);
                Some(&self.clients[i])
            },
            None => None,
        }
    }

    /// A copy of everything in the store, for a reader that must not see
    /// later changes.
    pub fn snapshot(&self) -> (snap: Snapshot)
        ensures
            snap@ == self@,
    {
        let mut networks: Vec<WifiNetwork> = Vec::new();
        let mut i: usize = 0;
        while i < self.networks.len()
            invariant
                i <= self.networks.len(),
                networks.len() == i,
                forall|k: int| 0 <= k < i ==> networks[k]@ == self.networks[k]@,
            decreases self.networks.len() - i,
        {
            networks.push(self.networks[i].clone());
            i += 1;
        }
        let snap = Snapshot { networks, clients: clone_clients(&self.clients) };
        assert(snap@.networks =~= self@.networks);
        snap
    }
}

/// The first access point with an address is the one a search finds.
pub proof fn lemma_network_index_is(networks: Seq<WifiNetworkView>, bssid: Seq<char>, at: int)
    requires
        0 <= at < networks.len(),
        networks[at].bssid == bssid,
        forall|k: int| 0 <= k < at ==> networks[k].bssid != bssid,
    ensures
        network_index(networks, bssid) == Some(at),
{
    lemma_network_index(networks, bssid, 0);
}

/// The first client with an address is the one a search finds.
pub proof fn lemma_client_index_is(clients: Seq<WifiClientView>, mac: Seq<char>, at: int)
    requires
        0 <= at < clients.len(),
        clients[at].mac == mac,
        forall|k: int| 0 <= k < at ==> clients[k].mac != mac,
    ensures
        client_index(clients, mac) == Some(at),
{
    lemma_client_index(clients, mac, 0);
}

/// After an access point is observed, a search for its address finds it
/// where the observation put it, and a search for any other address finds
/// what it found before.
pub proof fn lemma_upsert_network_index(
    networks: Seq<WifiNetworkView>,
    record: WifiNetworkView,
    bssid: Seq<char>,
)
    ensures
        upsert_network(networks, record).len() == match network_index(networks, record.bssid) {
            Some(_) => networks.len(),
            None => networks.len() + 1,
        },
        network_index(upsert_network(networks, record), record.bssid) == match network_index(
            networks,
            record.bssid,
        ) {
            Some(i) => Some(i),
            None => Some(networks.len() as int),
        },
        bssid != record.bssid ==> network_index(upsert_network(networks, record), bssid)
            == network_index(networks, bssid),
{
    let after = upsert_network(networks, record);
    lemma_network_index(networks, record.bssid, 0);
    lemma_network_index(networks, bssid, 0);
    match network_index(networks, record.bssid) {
        Some(i) => {
            lemma_network_index_is(after, record.bssid, i);
        },
        None => {
            lemma_network_index_is(after, record.bssid, networks.len() as int);
        },
    }
    if bssid != record.bssid {
        match network_index(networks, bssid) {
            Some(j) => {
                lemma_network_index_is(after, bssid, j);
            },
            None => {
                lemma_network_index(after, bssid, 0);
            },
        }
    }
}

/// After a client is observed, a search for its address finds it where the
/// observation put it, and a search for any other address finds what it
/// found before.
pub proof fn lemma_upsert_station_index(
    clients: Seq<WifiClientView>,
    record: WifiClientView,
    mac: Seq<char>,
)
    ensures
        upsert_station(clients, record).len() == match client_index(clients, record.mac) {
            Some(_) => clients.len(),
            None => clients.len() + 1,
        },
        client_index(upsert_station(clients, record), record.mac) == match client_index(
            clients,
            record.mac,
        ) {
            Some(i) => Some(i),
            None => Some(clients.len() as int),
        },
        mac != record.mac ==> client_index(upsert_station(clients, record), mac) == client_index(
            clients,
            mac,
        ),
{
    let after = upsert_station(clients, record);
    lemma_client_index(clients, record.mac, 0);
    lemma_client_index(clients, mac, 0);
    match client_index(clients, record.mac) {
        Some(i) => {
            lemma_client_index_is(after, record.mac, i);
        },
        None => {
            lemma_client_index_is(after, record.mac, clients.len() as int);
        },
    }
    if mac != record.mac {
        match client_index(clients, mac) {
            Some(j) => {
                lemma_client_index_is(after, mac, j);
            },
            None => {
                lemma_client_index(after, mac, 0);
            },
        }
    }
}

/// Linking a client moves no access point: a search for any address finds
/// the same place before and after.
pub proof fn lemma_link_client_index(
    networks: Seq<WifiNetworkView>,
    record: WifiClientView,
    bssid: Seq<char>,
)
    ensures
        link_client(networks, record).len() == networks.len(),
        network_index(link_client(networks, record), bssid) == network_index(networks, bssid),
{
    let after = link_client(networks, record);
    lemma_network_index(networks, record.bssid, 0);
    lemma_network_index(networks, bssid, 0);
    match network_index(networks, bssid) {
        Some(j) => {
            lemma_network_index_is(after, bssid, j);
        },
        None => {
            lemma_network_index(after, bssid, 0);
        },
    }
}

/// Observing an access point puts its record under its address, adds one
/// to the number of access points where the address is new and leaves the
/// number unchanged where it is known, and touches no other address and no
/// client.
pub proof fn lemma_access_point_upsert(store: TopologyView, record: WifiNetworkView)
    ensures
        store.upsert_access_point(record).access_point(record.bssid) == Some(record),
        store.upsert_access_point(record).networks.len() == if store.access_point(record.bssid)
            is Some {
            store.networks.len()
        } else {
            store.networks.len() + 1
        },
        forall|bssid: Seq<char>|
            bssid != record.bssid ==> #[trigger] store.upsert_access_point(record).access_point(
                bssid,
            ) == store.access_point(bssid),
        store.upsert_access_point(record).access_points() == store.access_points().insert(
            record.bssid,
            record,
        ),
        store.upsert_access_point(record).clients == store.clients,
{
    let after = store.upsert_access_point(record);
    lemma_upsert_network_index(store.networks, record, record.bssid);
    lemma_network_index(store.networks, record.bssid, 0);
    assert forall|bssid: Seq<char>| bssid != record.bssid implies #[trigger] after.access_point(
        bssid,
    ) == store.access_point(bssid) by {
        lemma_upsert_network_index(store.networks, record, bssid);
        lemma_network_index(store.networks, bssid, 0);
    }
    assert(after.access_points() =~= store.access_points().insert(record.bssid, record));
}

/// Observing the same access point twice in a row leaves the store as the
/// first observation left it: the same number of access points, and under
/// the record's address the values last given.
pub proof fn lemma_access_point_upsert_idempotent(store: TopologyView, record: WifiNetworkView)
    ensures
        store.upsert_access_point(record).upsert_access_point(record) == store.upsert_access_point(
            record,
        ),
        store.upsert_access_point(record).upsert_access_point(record).networks.len()
            == store.upsert_access_point(record).networks.len(),
        store.upsert_access_point(record).upsert_access_point(record).access_point(record.bssid)
            == Some(record),
{
    let once = store.upsert_access_point(record);
    lemma_upsert_network_index(store.networks, record, record.bssid);
    lemma_network_index(store.networks, record.bssid, 0);
    assert(upsert_network(once.networks, record) =~= once.networks);
}

/// Observing a client puts its record under its address, adds one to the
/// number of clients where the address is new and leaves the number
/// unchanged where it is known, and touches no other client.
pub proof fn lemma_client_upsert(store: TopologyView, record: WifiClientView)
    ensures
        store.upsert_client(record).client(record.mac) == Some(record),
        store.upsert_client(record).clients.len() == if store.client(record.mac) is Some {
            store.clients.len()
        } else {
            store.clients.len() + 1
        },
        forall|mac: Seq<char>|
            mac != record.mac ==> #[trigger] store.upsert_client(record).client(mac)
                == store.client(mac),
        store.upsert_client(record).stations() == store.stations().insert(record.mac, record),
{
    let after = store.upsert_client(record);
    lemma_upsert_station_index(store.clients, record, record.mac);
    lemma_client_index(store.clients, record.mac, 0);
    assert forall|mac: Seq<char>| mac != record.mac implies #[trigger] after.client(mac)
        == store.client(mac) by {
        lemma_upsert_station_index(store.clients, record, mac);
        lemma_client_index(store.clients, mac, 0);
    }
    assert(after.stations() =~= store.stations().insert(record.mac, record));
}

/// Observing a client never shortens a client list: every access point
/// stays where it was with its own values, and its list after the
/// observation begins with its list before. The list grows by the observed
/// client, and only the list of the access point that the client names, and
/// only where it did not hold the client's address.
pub proof fn lemma_client_upsert_appends(store: TopologyView, record: WifiClientView)
    ensures
        store.upsert_client(record).networks.len() == store.networks.len(),
        forall|i: int|
            0 <= i < store.networks.len() ==> {
                let before = #[trigger] store.networks[i];
                let after = store.upsert_client(record).networks[i];
                let linked = network_index(store.networks, record.bssid) == Some(i) && !has_mac(
                    before.clients,
                    record.mac,
                );
                &&& after.bssid == before.bssid
                &&& after.ssid == before.ssid
                &&& after.channel == before.channel
                &&& after.encryption == before.encryption
                &&& after.power == before.power
                &&& before.clients.is_prefix_of(after.clients)
                &&& after.clients == if linked {
                    before.clients.push(record)
                } else {
                    before.clients
                }
            },
{
    lemma_network_index(store.networks, record.bssid, 0);
    assert forall|i: int| 0 <= i < store.networks.len() implies {
        let before = #[trigger] store.networks[i];
        let after = store.upsert_client(record).networks[i];
        before.clients.is_prefix_of(after.clients)
    } by {
        let before = store.networks[i];
        let after = store.upsert_client(record).networks[i];
        assert(before.clients =~= after.clients.subrange(0, before.clients.len() as int));
    }
}

/// A client that an access point lists is still listed there after any
/// client is observed.
pub proof fn lemma_link_survives_client(
    store: TopologyView,
    record: WifiClientView,
    bssid: Seq<char>,
    mac: Seq<char>,
)
    requires
        store.access_point(bssid) is Some,
        has_mac(store.access_point(bssid).unwrap().clients, mac),
    ensures
        store.upsert_client(record).access_point(bssid) is Some,
        has_mac(store.upsert_client(record).access_point(bssid).unwrap().clients, mac),
{
    lemma_link_client_index(store.networks, record, bssid);
    lemma_network_index(store.networks, bssid, 0);
    lemma_client_upsert_appends(store, record);
    let i = network_index(store.networks, bssid).unwrap();
    let before = store.networks[i].clients;
    let after = store.upsert_client(record).networks[i].clients;
    let k = choose|k: int| 0 <= k < before.len() && (#[trigger] before[k]).mac == mac;
    assert(after[k] == before[k]);
}

/// A client that an access point lists is still listed there after an
/// access point is observed, unless the observed record takes that access
/// point's place with a list that lacks the client.
pub proof fn lemma_link_survives_access_point(
    store: TopologyView,
    record: WifiNetworkView,
    bssid: Seq<char>,
    mac: Seq<char>,
)
    requires
        store.access_point(bssid) is Some,
        has_mac(store.access_point(bssid).unwrap().clients, mac),
        record.bssid != bssid || has_mac(record.clients, mac),
    ensures
        store.upsert_access_point(record).access_point(bssid) is Some,
        has_mac(store.upsert_access_point(record).access_point(bssid).unwrap().clients, mac),
{
    lemma_access_point_upsert(store, record);
}

/// Observing the same client twice in a row leaves the store as the first
/// observation left it: no list names the client twice.
pub proof fn lemma_client_upsert_idempotent(store: TopologyView, record: WifiClientView)
    ensures
        store.upsert_client(record).upsert_client(record) == store.upsert_client(record),
{
    let once = store.upsert_client(record);
    lemma_upsert_station_index(store.clients, record, record.mac);
    lemma_client_index(store.clients, record.mac, 0);
    assert(upsert_station(once.clients, record) =~= once.clients);
    lemma_link_client_index(store.networks, record, record.bssid);
    lemma_network_index(store.networks, record.bssid, 0);
    match network_index(store.networks, record.bssid) {
        Some(i) => {
            if !has_mac(store.networks[i].clients, record.mac) {
                let listed = once.networks[i].clients;
                assert(listed[listed.len() - 1].mac == record.mac);
                assert(has_mac(listed, record.mac));
            }
        },
        None => {},
    }
}

/// A client that names no known access point is recorded among the clients
/// and changes no access point.
pub proof fn lemma_unassociated_client(store: TopologyView, record: WifiClientView)
    requires
        store.access_point(record.bssid) is None,
    ensures
        store.upsert_client(record).networks == store.networks,
        store.upsert_client(record).client(record.mac) == Some(record),
{
    lemma_client_upsert(store, record);
}

/// A client seen before its access point is not linked when the access
/// point appears: the access point then lists exactly the clients of its
/// own record. Only when the client is observed again is it linked.
pub proof fn lemma_no_retroactive_link(
    store: TopologyView,
    client: WifiClientView,
    network: WifiNetworkView,
)
    requires
        store.access_point(client.bssid) is None,
        network.bssid == client.bssid,
    ensures
        store.upsert_client(client).upsert_access_point(network).access_point(client.bssid)
            == Some(network),
        store.upsert_client(client).upsert_access_point(network).upsert_client(
            client,
        ).access_point(client.bssid) == Some(
            if has_mac(network.clients, client.mac) {
                network
            } else {
                with_client(network, client)
            },
        ),
{
    let seen = store.upsert_client(client);
    let known = seen.upsert_access_point(network);
    lemma_access_point_upsert(seen, network);
    lemma_link_client_index(known.networks, client, client.bssid);
    lemma_network_index(known.networks, client.bssid, 0);
}

/// Observations keep the store well formed.
pub proof fn lemma_upserts_keep_wf(
    store: TopologyView,
    network: WifiNetworkView,
    client: WifiClientView,
)
    requires
        store.wf(),
    ensures
        network.wf() ==> store.upsert_access_point(network).wf(),
        store.upsert_client(client).wf(),
{
    lemma_network_index(store.networks, network.bssid, 0);
    lemma_network_index(store.networks, client.bssid, 0);
    lemma_client_index(store.clients, client.mac, 0);
    match network_index(store.networks, client.bssid) {
        Some(i) => {
            assert(store.networks[i].wf());
        },
        None => {},
    }
}

/// In a well-formed store the number of access points is the number of
/// distinct addresses among them, and so is the number of clients.
pub proof fn lemma_counts_are_distinct(store: TopologyView)
    requires
        store.wf(),
    ensures
        store.access_points().dom().finite(),
        store.access_points().dom().len() == store.networks.len(),
        store.stations().dom().finite(),
        store.stations().dom().len() == store.clients.len(),
{
    let bssids = store.networks.map_values(|n: WifiNetworkView| n.bssid);
    assert(bssids.no_duplicates()) by {
        assert forall|i: int, j: int|
            0 <= i < bssids.len() && 0 <= j < bssids.len() && i != j implies bssids[i]
            != bssids[j] by {
            assert(store.networks[i].bssid != store.networks[j].bssid);
        }
    }
    bssids.unique_seq_to_set();
    seq_to_set_is_finite(bssids);
    assert(bssids.to_set() =~= store.access_points().dom()) by {
        assert forall|key: Seq<char>|
            bssids.to_set().contains(key) <==> store.access_points().dom().contains(key) by {
            lemma_network_index(store.networks, key, 0);
            if bssids.to_set().contains(key) {
                let k = choose|k: int| 0 <= k < bssids.len() && bssids[k] == key;
                assert(store.networks[k].bssid == key);
            }
            if store.access_points().dom().contains(key) {
                let at = network_index(store.networks, key).unwrap();
                assert(bssids[at] == key);
            }
        }
    }
    let macs = store.clients.map_values(|c: WifiClientView| c.mac);
    assert(macs.no_duplicates()) by {
        assert forall|i: int, j: int|
            0 <= i < macs.len() && 0 <= j < macs.len() && i != j implies macs[i] != macs[j] by {
            assert(store.clients[i].mac != store.clients[j].mac);
        }
    }
    macs.unique_seq_to_set();
    seq_to_set_is_finite(macs);
    assert(macs.to_set() =~= store.stations().dom()) by {
        assert forall|key: Seq<char>|
            macs.to_set().contains(key) <==> store.stations().dom().contains(key) by {
            lemma_client_index(store.clients, key, 0);
            if macs.to_set().contains(key) {
                let k = choose|k: int| 0 <= k < macs.len() && macs[k] == key;
                assert(store.clients[k].mac == key);
            }
            if store.stations().dom().contains(key) {
                let at = client_index(store.clients, key).unwrap();
                assert(macs[at] == key);
            }
        }
    }
}

} // verus!
