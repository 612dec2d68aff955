//! Opening the mesh: one duplex channel for each pair of parties.
//!
//! Of two parties the one with the higher index listens and the one with the
//! lower index dials, on the port that `ports` gives their pair. Both work
//! that out alone, so no message is needed to agree on it. The decisions are
//! made here; the caller binds, accepts and connects, and reports back.

use vstd::prelude::*;
use crate::errors::{ConfigError, HarnessError, ProtocolError, Stage, TransportError};
use crate::ports::{
    PortTable,
    is_pair,
    lemma_offset_injective,
    pair_count,
};
use crate::text::texts;

verus! {

/// What a party is to one index of the mesh.
#[derive(Debug, Clone, Copy, PartialEq, Eq, Structural)]
pub enum Role {
    /// The index is the party's own: there is no channel to open.
    Own,
    /// The peer has the lower index: the party binds the pair's port and waits
    /// for the peer.
    Listener,
    /// The peer has the higher index: the party dials the peer on the pair's
    /// port.
    Connector,
}

/// The role of party `index` towards the index `peer`.
pub open spec fn role_of(index: int, peer: int) -> Role {
    if peer == index {
        Role::Own
    } else if peer < index {
        Role::Listener
    } else {
        Role::Connector
    }
}

/// The role of party `index` towards the index `peer`.
pub fn role_towards(index: usize, peer: usize) -> (role: Role)
    ensures
        role == role_of(index as int, peer as int),
{
    if peer == index {
        Role::Own
    } else if peer < index {
        Role::Listener
    } else {
        Role::Connector
    }
}

/// The port on which party `index` and its peer meet, whichever of the two
/// asks.
pub open spec fn meeting_port(ports: PortTable, index: int, peer: int) -> int {
    if peer < index {
        ports.spec_port_for(peer, index)
    } else {
        ports.spec_port_for(index, peer)
    }
}

/// Of the two parties of a pair, the lower one dials and the higher one
/// listens, and both name the same port: exactly one listener and exactly one
/// connector on each pair.
pub proof fn lemma_roles_complement(ports: PortTable, low: int, high: int)
    requires
        low < high,
    ensures
        role_of(low, high) == Role::Connector,
        role_of(high, low) == Role::Listener,
        meeting_port(ports, low, high) == meeting_port(ports, high, low),
        meeting_port(ports, low, high) == ports.spec_port_for(low, high),
{
}

/// For any two different indices, one party of the two listens and the other
/// dials, never both and never neither.
pub proof fn lemma_one_listener_one_connector(a: int, b: int)
    requires
        a != b,
    ensures
        (role_of(a, b) == Role::Listener && role_of(b, a) == Role::Connector) || (role_of(a, b)
            == Role::Connector && role_of(b, a) == Role::Listener),
        role_of(a, b) != Role::Own,
        role_of(b, a) != Role::Own,
{
}

/// No port is asked for twice: where two pairs of one mesh meet on the same
/// port, they are the same pair.
pub proof fn lemma_no_port_collision(ports: PortTable, a: int, b: int, c: int, d: int)
    requires
        0 <= a < ports.parties(),
        0 <= b < ports.parties(),
        0 <= c < ports.parties(),
        0 <= d < ports.parties(),
        a != b,
        c != d,
        meeting_port(ports, a, b) == meeting_port(ports, c, d),
    ensures
        (a == c && b == d) || (a == d && b == c),
{
    let n = ports.parties();
    let (l1, h1) = if a < b {
        (a, b)
    } else {
        (b, a)
    };
    let (l2, h2) = if c < d {
        (c, d)
    } else {
        (d, c)
    };
    assert(is_pair(l1, h1, n));
    assert(is_pair(l2, h2, n));
    lemma_offset_injective(l1, h1, l2, h2, n);
}

/// What one party knows before it opens a channel: which party it is, how many
/// there are, the block of ports and the peers' addresses by index.
pub struct Mesh {
    index: usize,
    parties: usize,
    ports: PortTable,
    addresses: Vec<String>,
}

/// The fault, if any, in the parameters of a mesh; the first that applies, in
/// the order of `ConfigError`.
pub open spec fn mesh_fault(index: int, parties: int, base_port: int, addresses: int) -> Option<
    ConfigError,
> {
    if parties < 2 {
        Some(ConfigError::TooFewParties)
    } else if index >= parties {
        Some(ConfigError::PartyOutOfRange)
    } else if base_port + pair_count(parties) > usize::MAX {
        Some(ConfigError::PortRange)
    } else if index + 1 < parties && addresses < parties {
        Some(ConfigError::MissingAddress)
    } else {
        None
    }
}

impl Mesh {
    /// The party's own index.
    pub closed spec fn index(&self) -> int {
        self.index as int
    }

    /// The number of parties.
    pub closed spec fn parties(&self) -> int {
        self.parties as int
    }

    /// The block of ports.
    pub closed spec fn ports(&self) -> PortTable {
        self.ports
    }

    /// The peers' addresses, by party index.
    pub closed spec fn addresses(&self) -> Seq<Seq<char>> {
        texts(self.addresses@)
    }

    /// At least two parties, the party one of them, a port for every pair, and
    /// an address for every peer that the party dials.
    pub open spec fn wf(&self) -> bool {
        &&& 2 <= self.parties()
        &&& 0 <= self.index() < self.parties()
        &&& self.ports().wf()
        &&& self.ports().parties() == self.parties()
        &&& self.index() + 1 < self.parties() ==> self.addresses().len() >= self.parties()
    }

    /// The mesh of party `index` among `parties`, with ports from `base_port`
    /// on and the peers' addresses in the order of their indices. Only the
    /// peers above `index` are dialled, so only they need an address.
    pub fn new(index: usize, parties: usize, base_port: usize, addresses: Vec<String>) -> (r:
        Result<Mesh, ConfigError>)
        ensures
            match r {
                Ok(mesh) => {
                    &&& mesh_fault(
                        index as int,
                        parties as int,
                        base_port as int,
                        addresses@.len() as int,
                    ) is None
                    &&& mesh.wf()
                    &&& mesh.index() == index
                    &&& mesh.parties() == parties
                    &&& mesh.ports().base() == base_port
                    &&& mesh.addresses() == texts(addresses@)
                },
                Err(e) => mesh_fault(
                    index as int,
                    parties as int,
                    base_port as int,
                    addresses@.len() as int,
                ) == Some(e),
            },
    {
        if parties < 2 {
            return Err(ConfigError::TooFewParties);
        }
        if index >= parties {
            return Err(ConfigError::PartyOutOfRange);
        }
        let ports = match PortTable::new(base_port, parties) {
            Some(ports) => ports,
            None => {
                return Err(ConfigError::PortRange);
            },
        };
        if index + 1 < parties && addresses.len() < parties {
            return Err(ConfigError::MissingAddress);
        }
        Ok(Mesh { index, parties, ports, addresses })
    }

    /// The party's own index.
    pub fn own_index(&self) -> (index: usize)
        ensures
            index == self.index(),
    {
        self.index
    }

    /// The number of parties.
    pub fn party_count(&self) -> (parties: usize)
        ensures
            parties == self.parties(),
    {
        self.parties
    }

    /// The block of ports.
    pub fn port_table(&self) -> (ports: &PortTable)
        ensures
            *ports == self.ports(),
    {
        &self.ports
    }
}

/// One entry of a party's channel table.
pub enum ChannelSlot<C> {
    /// The party's own index: no channel.
    Own,
    /// A peer's index: the two handles of the channel to that peer, one to
    /// send on and one to receive on.
    Connected { send: C, recv: C },
}

impl<C> ChannelSlot<C> {
    /// The handle to send on, where the entry holds a channel.
    pub open spec fn send_half(self) -> Option<C> {
        match self {
            ChannelSlot::Own => None,
            ChannelSlot::Connected { send, recv } => Some(send),
        }
    }

    /// The handle to receive on, where the entry holds a channel.
    pub open spec fn recv_half(self) -> Option<C> {
        match self {
            ChannelSlot::Own => None,
            ChannelSlot::Connected { send, recv } => Some(recv),
        }
    }
}

/// What the caller is to do next while the mesh is opened.
pub enum PeerAction {
    /// The next index is the party's own: nothing to open.
    RecordOwn,
    /// Bind `port` on the wildcard address and wait for `peer` to connect.
    Listen { peer: usize, port: usize },
    /// Connect to `peer` at `host` and `port`.
    Connect { peer: usize, host: String, port: usize },
    /// Every index has its entry.
    Finished,
}

/// What the caller reports back.
pub enum PeerEvent<C> {
    /// The party's own slot was noted.
    OwnRecorded,
    /// The channel to the peer stands; here are its two handles.
    Established { send: C, recv: C },
    /// The channel to the peer could not be opened.
    Failed { stage: Stage },
}

/// The channels of one party, by peer index.
pub struct ChannelTable<C> {
    owner: usize,
    slots: Vec<ChannelSlot<C>>,
}

impl<C> ChannelTable<C> {
    /// The index of the party that the table belongs to.
    pub closed spec fn owner(&self) -> int {
        self.owner as int
    }

    /// The entries, by party index.
    pub closed spec fn view(&self) -> Seq<ChannelSlot<C>> {
        self.slots@
    }

    /// The owner has an entry, and that entry is the only one without a
    /// channel.
    pub open spec fn wf(&self) -> bool {
        &&& 0 <= self.owner() < self@.len()
        &&& forall|j: int| 0 <= j < self@.len() ==> ((#[trigger] self@[j]) is Own <==> j == self.owner())
    }

    /// The indices whose entry holds no channel.
    pub open spec fn unconnected(&self) -> Set<int> {
        Set::new(|j: int| 0 <= j < self@.len() && self@[j] is Own)
    }

    /// The indices whose entry holds a channel.
    pub open spec fn connected(&self) -> Set<int> {
        Set::new(|j: int| 0 <= j < self@.len() && self@[j] is Connected)
    }

    /// The index of the party that the table belongs to.
    pub fn owner_index(&self) -> (owner: usize)
        ensures
            owner == self.owner(),
    {
        self.owner
    }

    /// The number of entries: the party count.
    pub fn len(&self) -> (n: usize)
        ensures
            n == self@.len(),
    {
        self.slots.len()
    }

    /// The entry of `peer`.
    pub fn slot(&self, peer: usize) -> (slot: &ChannelSlot<C>)
        requires
            peer < self@.len(),
        ensures
            *slot == self@[peer as int],
    {
        &self.slots[peer]
    }

    /// Parts the table into the sending and the receiving handles, each by
    /// party index, with `None` at the owner's index.
    pub fn into_halves(self) -> (halves: (Vec<Option<C>>, Vec<Option<C>>))
        requires
            self.wf(),
        ensures
            halves.0@.len() == self@.len(),
            halves.1@.len() == self@.len(),
            forall|j: int|
                0 <= j < self@.len() ==> (#[trigger] halves.0@[j]) == self@[j].send_half(),
            forall|j: int|
                0 <= j < self@.len() ==> (#[trigger] halves.1@[j]) == self@[j].recv_half(),
    {
        let ghost all = self@;
        let mut slots = self.slots;
        let mut send_rev: Vec<Option<C>> = Vec::new();
        let mut recv_rev: Vec<Option<C>> = Vec::new();
        while slots.len() > 0
            invariant
                slots@ == all.take(slots@.len() as int),
                slots@.len() <= all.len(),
                send_rev@.len() == all.len() - slots@.len(),
                recv_rev@.len() == all.len() - slots@.len(),
                forall|k: int|
                    0 <= k < send_rev@.len() ==> (#[trigger] send_rev@[k]) == all[all.len() - 1
                        - k].send_half(),
                forall|k: int|
                    0 <= k < recv_rev@.len() ==> (#[trigger] recv_rev@[k]) == all[all.len() - 1
                        - k].recv_half(),
            decreases slots@.len(),
        {
            let ghost before = slots@;
            match slots.pop() {
                Some(ChannelSlot::Connected { send, recv }) => {
                    send_rev.push(Some(send));
                    recv_rev.push(Some(recv));
                },
                Some(ChannelSlot::Own) => {
                    send_rev.push(None);
                    recv_rev.push(None);
                },
                None => {},
            }
            assert(before.last() == all[before.len() - 1]);
            assert(slots@ =~= all.take(slots@.len() as int));
        }
        let mut send: Vec<Option<C>> = Vec::new();
        let mut recv: Vec<Option<C>> = Vec::new();
        let ghost send_all = send_rev@;
        let ghost recv_all = recv_rev@;
        while send_rev.len() > 0 && recv_rev.len() > 0
            invariant
                send_all.len() == all.len(),
                recv_all.len() == all.len(),
                send_rev@ == send_all.take(send_rev@.len() as int),
                recv_rev@ == recv_all.take(recv_rev@.len() as int),
                send_rev@.len() == recv_rev@.len(),
                send_rev@.len() <= all.len(),
                send@.len() == all.len() - send_rev@.len(),
                recv@.len() == send@.len(),
                forall|j: int|
                    0 <= j < send@.len() ==> (#[trigger] send@[j]) == send_all[all.len() - 1 - j],
                forall|j: int|
                    0 <= j < recv@.len() ==> (#[trigger] recv@[j]) == recv_all[all.len() - 1 - j],
            decreases send_rev@.len(),
        {
            let ghost send_before = send_rev@;
            let ghost recv_before = recv_rev@;
            match send_rev.pop() {
                Some(handle) => {
                    send.push(handle);
                },
                None => {},
            }
            match recv_rev.pop() {
                Some(handle) => {
                    recv.push(handle);
                },
                None => {},
            }
            assert(send_before.last() == send_all[send_before.len() - 1]);
            assert(recv_before.last() == recv_all[recv_before.len() - 1]);
            assert(send_rev@ =~= send_all.take(send_rev@.len() as int));
            assert(recv_rev@ =~= recv_all.take(recv_rev@.len() as int));
        }
        (send, recv)
    }
}

/// The opening of one party's mesh, peer by peer in the order of their indices.
///
/// `next_action` says what is to be done for the next index, `advance` takes
/// the outcome, and once every index has its entry `finish` hands out the
/// table.
pub struct Establisher<C> {
    mesh: Mesh,
    slots: Vec<ChannelSlot<C>>,
}

impl<C> Establisher<C> {
    /// The parameters of the mesh.
    pub closed spec fn mesh(&self) -> Mesh {
        self.mesh
    }

    /// The entries made so far, by party index.
    pub closed spec fn slots(&self) -> Seq<ChannelSlot<C>> {
        self.slots@
    }

    /// The index whose entry comes next; the party count once all are made.
    pub open spec fn cursor(&self) -> int {
        self.slots().len() as int
    }

    /// The mesh is well formed, no entry lies beyond the party count, and of
    /// the entries made the party's own, and no other, is without a channel.
    pub open spec fn wf(&self) -> bool {
        &&& self.mesh().wf()
        &&& self.cursor() <= self.mesh().parties()
        &&& forall|j: int|
            0 <= j < self.cursor() ==> ((#[trigger] self.slots()[j]) is Own <==> j
                == self.mesh().index())
    }

    /// Whether every index has its entry.
    pub open spec fn is_complete(&self) -> bool {
        self.cursor() == self.mesh().parties()
    }

    /// Starts with no entry made.
    pub fn new(mesh: Mesh) -> (est: Establisher<C>)
        requires
            mesh.wf(),
        ensures
            est.wf(),
            est.mesh() == mesh,
            est.slots() == Seq::<ChannelSlot<C>>::empty(),
    {
        Establisher { mesh, slots: Vec::new() }
    }

    /// What is to be done for the next index: nothing for the party's own,
    /// listening for a peer below it, dialling a peer above it, each on the
    /// port of the pair.
    pub fn next_action(&self) -> (action: PeerAction)
        requires
            self.wf(),
        ensures
            match action {
                PeerAction::RecordOwn => self.cursor() == self.mesh().index(),
                PeerAction::Listen { peer, port } => {
                    &&& peer == self.cursor()
                    &&& role_of(self.mesh().index(), peer as int) == Role::Listener
                    &&& port == meeting_port(self.mesh().ports(), self.mesh().index(), peer as int)
                },
                PeerAction::Connect { peer, host, port } => {
                    &&& peer == self.cursor()
                    &&& peer < self.mesh().parties()
                    &&& role_of(self.mesh().index(), peer as int) == Role::Connector
                    &&& host@ == self.mesh().addresses()[peer as int]
                    &&& port == meeting_port(self.mesh().ports(), self.mesh().index(), peer as int)
                },
                PeerAction::Finished => self.is_complete(),
            },
    {
        let peer = self.slots.len();
        let index = self.mesh.index;
        if peer == self.mesh.parties {
            return PeerAction::Finished;
        }
        match role_towards(index, peer) {
            Role::Own => PeerAction::RecordOwn,
            Role::Listener => PeerAction::Listen {
                peer,
                port: self.mesh.ports.port_for(peer, index),
            },
            Role::Connector => PeerAction::Connect {
                peer,
                host: self.mesh.addresses[peer].clone(),
                port: self.mesh.ports.port_for(index, peer),
            },
        }
    }

    /// Takes the outcome of the action that `next_action` named.
    ///
    /// The outcome that fits makes the next entry. A failure to open the
    /// channel comes back as a `TransportError` that names this party, the
    /// peer and the step that failed. An outcome that does not fit the action
    /// is `ProtocolError::Unexpected`. In both cases nothing is changed.
    pub fn advance(&mut self, event: PeerEvent<C>) -> (r: Result<(), HarnessError>)
        requires
            old(self).wf(),
        ensures
            final(self).wf(),
            final(self).mesh() == old(self).mesh(),
            match event {
                PeerEvent::OwnRecorded => if old(self).cursor() == old(self).mesh().index() {
                    r == Ok::<(), HarnessError>(()) && final(self).slots() == old(self).slots().push(
                        ChannelSlot::Own,
                    )
                } else {
                    r == Err::<(), HarnessError>(HarnessError::Protocol(ProtocolError::Unexpected))
                        && final(self).slots() == old(self).slots()
                },
                PeerEvent::Established { send, recv } => if !old(self).is_complete() && old(
                    self,
                ).cursor() != old(self).mesh().index() {
                    r == Ok::<(), HarnessError>(()) && final(self).slots() == old(self).slots().push(
                        ChannelSlot::Connected { send, recv },
                    )
                } else {
                    r == Err::<(), HarnessError>(HarnessError::Protocol(ProtocolError::Unexpected))
                        && final(self).slots() == old(self).slots()
                },
                PeerEvent::Failed { stage } => final(self).slots() == old(self).slots() && if !old(
                    self,
                ).is_complete() && old(self).cursor() != old(self).mesh().index() {
                    r == Err::<(), HarnessError>(
                        HarnessError::Transport(
                            (TransportError {
                                stage,
                                party: old(self).mesh().index() as usize,
                                peer: old(self).cursor() as usize,
                            }),
                        ),
                    )
                } else {
                    r == Err::<(), HarnessError>(HarnessError::Protocol(ProtocolError::Unexpected))
                },
            },
    {
        let peer = self.slots.len();
        let index = self.mesh.index;
        let open = peer < self.mesh.parties && peer != index;
        match event {
            PeerEvent::OwnRecorded => {
                if peer == index {
                    self.slots.push(ChannelSlot::Own);
                    Ok(())
                } else {
                    Err(HarnessError::Protocol(ProtocolError::Unexpected))
                }
            },
            PeerEvent::Established { send, recv } => {
                if open {
                    self.slots.push(ChannelSlot::Connected { send, recv });
                    Ok(())
                } else {
                    Err(HarnessError::Protocol(ProtocolError::Unexpected))
                }
            },
            PeerEvent::Failed { stage } => {
                if open {
                    Err(HarnessError::Transport(TransportError { stage, party: index, peer }))
                } else {
                    Err(HarnessError::Protocol(ProtocolError::Unexpected))
                }
            },
        }
    }

    /// Whether every index has its entry.
    pub fn complete(&self) -> (done: bool)
        requires
            self.wf(),
        ensures
            done == self.is_complete(),
    {
        self.slots.len() == self.mesh.parties
    }

    /// The finished table: one entry for each party, the party's own without
    /// a channel and every other with one. Before every index has its entry
    /// there is no table: `ProtocolError::Unexpected`.
    pub fn finish(self) -> (r: Result<ChannelTable<C>, ProtocolError>)
        requires
            self.wf(),
        ensures
            match r {
                Ok(table) => {
                    &&& self.is_complete()
                    &&& table.wf()
                    &&& table.owner() == self.mesh().index()
                    &&& table@ == self.slots()
                    &&& table@.len() == self.mesh().parties()
                    &&& table.unconnected() == set![self.mesh().index()]
                    &&& table.connected().len() == self.mesh().parties() - 1
                },
                Err(e) => !self.is_complete() && e == ProtocolError::Unexpected,
            },
    {
        if self.slots.len() == self.mesh.parties {
            let table = ChannelTable { owner: self.mesh.index, slots: self.slots };
            proof {
                lemma_one_own_slot(table);
            }
            Ok(table)
        } else {
            Err(ProtocolError::Unexpected)
        }
    }
}

/// A table that is well formed has exactly one entry without a channel, the
/// owner's, and a channel in each of the others.
pub proof fn lemma_one_own_slot<C>(table: ChannelTable<C>)
    requires
        table.wf(),
    ensures
        table.unconnected() == set![table.owner()],
        table.unconnected().len() == 1,
        table.connected().finite(),
        table.connected().len() == table@.len() - 1,
        forall|j: int| 0 <= j < table@.len() && j != table.owner() ==> (#[trigger] table@[j]) is Connected,
{
    let n = table@.len() as int;
    let all = Set::new(|j: int| 0 <= j < n);
    assert(table.unconnected() =~= set![table.owner()]);
    assert(table.connected() =~= all.remove(table.owner())) by {
        assert forall|j: int| table.connected().contains(j) <==> all.remove(
            table.owner(),
        ).contains(j) by {
            if 0 <= j < n {
                assert(table@[j] is Own <==> j == table.owner());
            }
        }
    }
    vstd::set_lib::lemma_int_range(0, n);
    assert(all =~= vstd::set_lib::set_int_range(0, n));
}

} // verus!
