//! The UDP server: one socket, many peers.
//!
//! The server learns its peers from what it receives: every frame names a
//! system and a component, and the table remembers the address from which
//! each pair was last heard. What the bus carries goes to every peer but
//! the one it came from.

use crate::drivers::{record_write, step_after_write, TaskStep, WriteOutcome};
use crate::protocol::{read_all_messages, Protocol};
use crate::frame::{frames_of, is_frame};
use crate::stats::driver::{counted_all, side_after, side_view, uuid_of_name, DriverStats, DriverUuid};
use crate::drivers::driver::Driver;
use crate::drivers::info::{
    address_from_url, address_of, legacy_examples, legacy_examples_of, url_examples,
    url_examples_of, DriverInfo, EndpointUrl,
};
use std::collections::HashMap;
use vstd::prelude::*;
use vstd::std_specs::hash::*;
use vstd::std_specs::iter::IteratorSpec;

verus! {

broadcast use vstd::std_specs::hash::group_hash_axioms;

/// The key under which the table holds system `system_id`, component
/// `component_id`: the two ids as one number, the system id in the high
/// byte.
pub open spec fn peer_key(system_id: u8, component_id: u8) -> u16 {
    (system_id * 256 + component_id) as u16
}

/// One frame as the peer table sees it.
pub struct Heard {
    pub system_id: u8,
    pub component_id: u8,
    pub address: Seq<char>,
}

/// The table after the frames of `heard` were received, in order, starting
/// from `table`: each frame puts the address it came from under the key of
/// its system and component, in place of what was there.
pub open spec fn table_after(table: Map<u16, Seq<char>>, heard: Seq<Heard>) -> Map<
    u16,
    Seq<char>,
>
    decreases heard.len(),
{
    if heard.len() == 0 {
        table
    } else {
        let last = heard.last();
        table_after(table, heard.drop_last()).insert(
            peer_key(last.system_id, last.component_id),
            last.address,
        )
    }
}

/// Peer-table uniqueness: the table holds one address under each key, and
/// two peers share a key only if they are the same system and component.
/// Whatever is received, in whatever order, every peer heard is held, at
/// the address from which it was heard last, and nothing is held that was
/// not there before or heard since.
pub proof fn lemma_peer_table_unique(table: Map<u16, Seq<char>>, heard: Seq<Heard>)
    ensures
        forall|a: u8, b: u8, c: u8, d: u8|
            #[trigger] peer_key(a, b) == #[trigger] peer_key(c, d) ==> a == c && b == d,
        forall|i: int|
            0 <= i < heard.len() ==> table_after(table, heard).contains_key(
                peer_key((#[trigger] heard[i]).system_id, heard[i].component_id),
            ),
        heard.len() > 0 ==> table_after(table, heard)[peer_key(
            heard.last().system_id,
            heard.last().component_id,
        )] == heard.last().address,
        forall|key: u16| #[trigger]
            table_after(table, heard).contains_key(key) ==> table.contains_key(key) || exists|
                i: int,
            |
                0 <= i < heard.len() && peer_key(
                    (#[trigger] heard[i]).system_id,
                    heard[i].component_id,
                ) == key,
    decreases heard.len(),
{
    if heard.len() > 0 {
        let before = heard.drop_last();
        lemma_peer_table_unique(table, before);
        assert forall|i: int| 0 <= i < heard.len() implies table_after(table, heard).contains_key(
            peer_key((#[trigger] heard[i]).system_id, heard[i].component_id),
        ) by {
            if i < before.len() {
                assert(before[i] == heard[i]);
            }
        }
        assert forall|key: u16| #[trigger]
            table_after(table, heard).contains_key(key) implies table.contains_key(key) || exists|
            i: int,
        |
            0 <= i < heard.len() && peer_key((#[trigger] heard[i]).system_id, heard[i].component_id)
                == key by {
            if key == peer_key(heard.last().system_id, heard.last().component_id) {
                let last = heard.len() - 1;
                assert(peer_key(heard[last].system_id, heard[last].component_id) == key);
            } else if !table.contains_key(key) {
                assert(table_after(table, before).contains_key(key));
                let i = choose|i: int|
                    0 <= i < before.len() && peer_key(
                        (#[trigger] before[i]).system_id,
                        before[i].component_id,
                    ) == key;
                assert(heard[i] == before[i]);
                assert(peer_key(heard[i].system_id, heard[i].component_id) == key);
            }
        }
    }
}

/// `addresses` holds, in the order of `keys`, the address of each peer of
/// `table` that is not at `origin`, each peer once.
pub open spec fn lists_targets(
    table: Map<u16, Seq<char>>,
    origin: Seq<char>,
    keys: Seq<u16>,
    addresses: Seq<Seq<char>>,
) -> bool {
    &&& keys.no_duplicates()
    &&& keys.len() == addresses.len()
    &&& forall|i: int|
        0 <= i < keys.len() ==> table.contains_key(#[trigger] keys[i]) && table[keys[i]]
            == addresses[i] && addresses[i] != origin
    &&& forall|key: u16| #[trigger] table.contains_key(key) && table[key] != origin ==> keys.contains(key)
}

/// `addresses` are the addresses to which a message from `origin` goes:
/// one for each peer of `table` that is not at `origin`, in some order.
pub open spec fn is_targets_of(
    table: Map<u16, Seq<char>>,
    origin: Seq<char>,
    addresses: Seq<Seq<char>>,
) -> bool {
    exists|keys: Seq<u16>| #[trigger] lists_targets(table, origin, keys, addresses)
}

/// What the strings of `strings` hold.
pub open spec fn views_of(strings: Seq<String>) -> Seq<Seq<char>> {
    Seq::new(strings.len(), |i: int| strings[i]@)
}

/// `key` is among the first `n` keys of the walk `pairs` through a table.
spec fn walked(pairs: Seq<(&u16, &String)>, n: int, key: u16) -> bool {
    exists|j: int| 0 <= j < n && *(#[trigger] pairs[j]).0 == key
}

/// The peers of a UDP server: for each system and component the address
/// from which it was last heard.
#[derive(Debug)]
pub struct PeerTable {
    peers: HashMap<u16, String>,
}

impl View for PeerTable {
    type V = Map<u16, Seq<char>>;

    closed spec fn view(&self) -> Map<u16, Seq<char>> {
        Map::new(|key: u16| self.peers@.contains_key(key), |key: u16| self.peers@[key]@)
    }
}

impl PeerTable {
    /// A table without peers.
    pub fn new() -> (table: PeerTable)
        ensures
            table@ == Map::<u16, Seq<char>>::empty(),
    {
        let table = PeerTable { peers: HashMap::new() };
        assert(table@ =~= Map::<u16, Seq<char>>::empty());
        table
    }

    /// Number of peers.
    pub fn len(&self) -> (len: usize)
        ensures
            len == self@.dom().len(),
    {
        assert(self@.dom() =~= self.peers@.dom());
        self.peers.len()
    }

    /// Notes that a frame of system `system_id`, component `component_id`
    /// came from `address`. The last address heard wins. Returns whether
    /// the peer is new to the table.
    pub fn observe(&mut self, system_id: u8, component_id: u8, address: &str) -> (is_new: bool)
        ensures
            final(self)@ == old(self)@.insert(peer_key(system_id, component_id), address@),
            is_new == !old(self)@.contains_key(peer_key(system_id, component_id)),
    {
        let key: u16 = system_id as u16 * 256 + component_id as u16;
        let previous = self.peers.insert(key, address.to_owned());
        assert(self@ =~= old(self)@.insert(key, address@));
        previous.is_none()
    }

    /// The address at which system `system_id`, component `component_id`
    /// was last heard, if it was.
    pub fn address_of(&self, system_id: u8, component_id: u8) -> (address: Option<&String>)
        ensures
            address is Some <==> self@.contains_key(peer_key(system_id, component_id)),
            address matches Some(a) ==> a@ == self@[peer_key(system_id, component_id)],
    {
        let key: u16 = system_id as u16 * 256 + component_id as u16;
        self.peers.get(&key)
    }

    /// The addresses to which a message from `origin` is to be written:
    /// every peer's but those at `origin`, in no particular order.
    pub fn targets(&self, origin: &String) -> (addresses: Vec<String>)
        ensures
            is_targets_of(self@, origin@, views_of(addresses@)),
            forall|k: int| 0 <= k < addresses@.len() ==> (#[trigger] addresses@[k])@ != origin@,
    {
        let mut addresses: Vec<String> = Vec::new();
        let ghost mut keys: Seq<u16> = Seq::empty();
        for pair in it: self.peers.iter()
            invariant
                it.seq() == spec_hash_map_iter(&self.peers).remaining(),
                it.seq().no_duplicates(),
                keys.no_duplicates(),
                keys.len() == addresses@.len(),
                forall|i: int|
                    0 <= i < keys.len() ==> self.peers@.contains_key(#[trigger] keys[i])
                        && self.peers@[keys[i]]@ == addresses@[i]@ && addresses@[i]@ != origin@
                        && walked(it.seq(), it.index() as int, keys[i]),
                forall|j: int|
                    0 <= j < it.index() && self.peers@[*(#[trigger] it.seq()[j]).0]@ != origin@
                        ==> keys.contains(*it.seq()[j].0),
        {
            let (key, address) = pair;
            let ghost n = it.index() as int;
            let ghost pairs = it.seq();
            assert(self.peers@.contains_key(*key) && self.peers@[*key] == *address);
            proof {
                if walked(pairs, n, *key) {
                    let j = choose|j: int| 0 <= j < n && *(#[trigger] pairs[j]).0 == *key;
                    assert(self.peers@[*pairs[j].0] == *pairs[j].1);
                    assert(pairs[j] == pairs[n]);
                }
                assert forall|i: int| 0 <= i < keys.len() implies walked(
                    pairs,
                    n + 1,
                    #[trigger] keys[i],
                ) by {
                    let j = choose|j: int| 0 <= j < n && *(#[trigger] pairs[j]).0 == keys[i];
                    assert(0 <= j < n + 1 && *pairs[j].0 == keys[i]);
                }
            }
            if !(*address == *origin) {
                addresses.push(address.clone());
                proof {
                    assert(!keys.contains(*key)) by {
                        if keys.contains(*key) {
                            let i = choose|i: int| 0 <= i < keys.len() && keys[i] == *key;
                            assert(walked(pairs, n, keys[i]));
                        }
                    }
                    let before = keys;
                    keys = keys.push(*key);
                    assert(*pairs[n].0 == *key);
                    assert(walked(pairs, n + 1, *key));
                    assert forall|j: int|
                        0 <= j < n + 1 && self.peers@[*(#[trigger] pairs[j]).0]@ != origin@ implies keys.contains(
                        *pairs[j].0,
                    ) by {
                        if j < n {
                            let i = choose|i: int|
                                0 <= i < before.len() && before[i] == *pairs[j].0;
                            assert(keys[i] == *pairs[j].0);
                        } else {
                            assert(keys[before.len() as int] == *key);
                        }
                    }
                }
            }
        }
        proof {
            let pairs = spec_hash_map_iter(&self.peers).remaining();
            let views = views_of(addresses@);
            assert forall|key: u16| #[trigger]
                self@.contains_key(key) && self@[key] != origin@ implies keys.contains(key) by {
                assert(pairs.contains((&key, &self.peers@[key])));
                let j = choose|j: int|
                    0 <= j < pairs.len() && pairs[j] == (&key, &self.peers@[key]);
                assert(*pairs[j].0 == key);
            }
            assert forall|i: int| 0 <= i < keys.len() implies self@.contains_key(
                #[trigger] keys[i],
            ) && self@[keys[i]] == views[i] && views[i] != origin@ by {
                assert(self.peers@[keys[i]]@ == addresses@[i]@);
            }
            assert(lists_targets(self@, origin@, keys, views));
            assert forall|k: int| 0 <= k < addresses@.len() implies (#[trigger] addresses@[k])@
                != origin@ by {
                assert(self.peers@.contains_key(keys[k]));
            }
        }
        addresses
    }
}

/// How the peer table sees `messages` that came from `address`.
pub open spec fn heard_from(messages: Seq<Protocol>, address: Seq<char>) -> Seq<Heard> {
    Seq::new(
        messages.len(),
        |i: int|
            Heard {
                system_id: messages[i].packet@[5],
                component_id: messages[i].packet@[6],
                address,
            },
    )
}

/// A driver that binds a local address and exchanges frames with whoever
/// sends to it.
#[derive(Debug)]
pub struct UdpServer {
    /// The address to bind.
    pub local_addr: String,
    /// The peers heard so far.
    pub clients: PeerTable,
    /// The identity derived from the local address.
    pub uuid: DriverUuid,
    /// What the driver counted.
    pub stats: DriverStats,
}

impl UdpServer {
    /// A server for `local_addr`, without peers. The address is its name.
    pub fn new(local_addr: &str) -> (server: UdpServer)
        ensures
            server.local_addr@ == local_addr@,
            server.clients@ == Map::<u16, Seq<char>>::empty(),
            server.uuid.value == uuid_of_name(local_addr@),
            server.stats.name@ == local_addr@,
            server.stats.driver_type == "UdpServer",
            server.stats.stats.input is None,
            server.stats.stats.output is None,
    {
        UdpServer {
            local_addr: local_addr.to_owned(),
            clients: PeerTable::new(),
            uuid: DriverUuid::from_name(local_addr),
            stats: DriverStats::new(local_addr, "UdpServer"),
        }
    }

    /// Takes one datagram that came from `client_addr`: cuts it into
    /// messages, notes for each the address of its system and component,
    /// and counts it as input. The messages are the ones to publish, in
    /// order. What follows the last complete frame of a datagram is dropped.
    pub fn on_datagram(&mut self, datagram: Vec<u8>, client_addr: &str) -> (messages: Vec<Protocol>)
        ensures
            messages@.len() == frames_of(datagram@).len(),
            forall|i: int|
                0 <= i < messages@.len() ==> (#[trigger] messages@[i]).packet@ == frames_of(
                    datagram@,
                )[i],
            forall|i: int|
                0 <= i < messages@.len() ==> (#[trigger] messages@[i]).origin@ == client_addr@,
            final(self).clients@ == table_after(
                old(self).clients@,
                heard_from(messages@, client_addr@),
            ),
            side_view(final(self).stats.stats.input) == counted_all(
                side_view(old(self).stats.stats.input),
                messages@,
            ),
            final(self).stats.stats.output == old(self).stats.stats.output,
            final(self).stats.name == old(self).stats.name,
            final(self).stats.driver_type == old(self).stats.driver_type,
            final(self).local_addr == old(self).local_addr,
            final(self).uuid == old(self).uuid,
    {
        let mut buf = datagram;
        let messages = read_all_messages(client_addr, &mut buf);
        let mut i: usize = 0;
        while i < messages.len()
            invariant
                i <= messages.len(),
                self.clients@ == table_after(
                    old(self).clients@,
                    heard_from(messages@.subrange(0, i as int), client_addr@),
                ),
                self.stats == old(self).stats,
                self.local_addr == old(self).local_addr,
                self.uuid == old(self).uuid,
            decreases messages.len() - i,
        {
            proof {
                let upto = heard_from(messages@.subrange(0, i + 1), client_addr@);
                assert(upto.drop_last() =~= heard_from(
                    messages@.subrange(0, i as int),
                    client_addr@,
                ));
            }
            let packet = &messages[i].packet;
            self.clients.observe(packet.system_id(), packet.component_id(), client_addr);
            i = i + 1;
        }
        assert(messages@.subrange(0, i as int) =~= messages@);
        self.stats.stats.update_input_all(&messages);
        messages
    }

    /// Notes how the write of `message` to one peer ended: a write that
    /// succeeded is counted as output; the send task ends on a failure
    /// other than a refused datagram.
    pub fn on_written(&mut self, message: &Protocol, outcome: WriteOutcome) -> (step: TaskStep)
        ensures
            step == step_after_write(outcome),
            final(self).stats.stats.input == old(self).stats.stats.input,
            outcome == WriteOutcome::Written ==> side_view(final(self).stats.stats.output)
                == side_after(old(self).stats.stats.output, *message),
            outcome != WriteOutcome::Written ==> final(self).stats.stats.output == old(
                self,
            ).stats.stats.output,
            final(self).stats.name == old(self).stats.name,
            final(self).stats.driver_type == old(self).stats.driver_type,
            final(self).clients == old(self).clients,
            final(self).local_addr == old(self).local_addr,
            final(self).uuid == old(self).uuid,
    {
        record_write(&mut self.stats.stats, message, outcome)
    }

    /// The addresses to which `message` from the bus is to be written:
    /// those of all peers but the one that the message came from.
    pub fn deliveries(&self, message: &Protocol) -> (addresses: Vec<String>)
        ensures
            is_targets_of(self.clients@, message.origin@, views_of(addresses@)),
            forall|k: int|
                0 <= k < addresses@.len() ==> (#[trigger] addresses@[k])@ != message.origin@,
    {
        self.clients.targets(&message.origin)
    }
}

/// The description of the UDP server.
#[derive(Clone, Copy, Debug, PartialEq, Eq)]
pub struct UdpServerInfo;

impl DriverInfo for UdpServerInfo {
    fn name(&self) -> (name: &'static str)
        ensures
            name@ == "UdpServer"@,
    {
        "UdpServer"
    }

    fn valid_schemes(&self) -> (schemes: Vec<&'static str>)
        ensures
            schemes@.len() == 3,
            schemes@[0]@ == "udps"@,
            schemes@[1]@ == "udpserver"@,
            schemes@[2]@ == "udpin"@,
    {
        let mut schemes: Vec<&'static str> = Vec::new();
        schemes.push("udps");
        schemes.push("udpserver");
        schemes.push("udpin");
        schemes
    }

    fn cli_example_legacy(&self) -> (examples: Vec<String>)
        ensures
            forall|i: int|
                0 <= i < 2 ==> (#[trigger] examples@[i])@ == legacy_examples_of(
                    "udps"@,
                    "<IP>:<PORT>"@,
                    "0.0.0.0:14550"@,
                )[i],
    {
        legacy_examples("udps", "<IP>:<PORT>", "0.0.0.0:14550")
    }

    fn cli_example_url(&self) -> (examples: Vec<String>)
        ensures
            examples@.len() == url_examples_of("udps"@, "<IP>:<PORT>"@, "0.0.0.0:14550"@).len(),
            forall|i: int|
                0 <= i < examples@.len() ==> (#[trigger] examples@[i])@ == url_examples_of(
                    "udps"@,
                    "<IP>:<PORT>"@,
                    "0.0.0.0:14550"@,
                )[i],
    {
        url_examples("udps", "<IP>:<PORT>", "0.0.0.0:14550")
    }

    /// A server on the host and the port that `url` names; none where either is missing.
    fn create_endpoint_from_url(&self, url: &EndpointUrl) -> (driver: Option<Driver>)
        ensures
            driver is Some <==> url.host is Some && url.port is Some,
            driver matches Some(d) ==> d matches Driver::UdpServer(server)
                && server.local_addr@ == address_of(url.host->0@, url.port->0)
                && server.clients@ == Map::<u16, Seq<char>>::empty()
                && server.stats.stats.input is None && server.stats.stats.output is None,
    {
        match address_from_url(url) {
            Some(address) => Some(Driver::UdpServer(UdpServer::new(address.as_str()))),
            None => None,
        }
    }
}

} // verus!
