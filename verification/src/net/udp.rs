//! The datagram transport: connections are addresses. The first datagram
//! from an address gives it an identifier, a failed write takes it away.
//!
//! The transport never touches a socket. The caller receives and sends, and
//! reports the datagrams that came in and how each send ended.

use vstd::prelude::*;
use crate::net::registry::{
    distinct_handles, distinct_ids, drawn, fresh_id, has_id, ids_below, lemma_registered_below,
    lemma_registered_distinct, lemma_retain_contains, lemma_retain_distinct, lemma_retain_distinct_handles,
    lemma_retain_has_id, registered, retain_good, Registry,
};
use crate::net::{io_fault, messages, ClientMessage, Fault, NetIdGen, UserNetId, ID_SPACE};

verus! {

/// The address of a peer, as plain numbers.
#[derive(Debug, Clone, Copy, PartialEq, Eq, Structural, Hash)]
pub enum PeerAddr {
    V4 { octets: u32, port: u16 },
    V6 { segments: u128, port: u16, flowinfo: u32, scope_id: u32 },
}

/// One datagram as it was received.
#[derive(Debug, Clone, PartialEq, Eq)]
pub struct Datagram {
    pub from: PeerAddr,
    pub data: Vec<u8>,
}

/// The peers of the transport: each live identifier with its address.
pub type Peers = Seq<(UserNetId, PeerAddr)>;

/// Some peer has the address `addr`.
pub open spec fn has_addr(peers: Peers, addr: PeerAddr) -> bool {
    exists|i: int| 0 <= i < peers.len() && (#[trigger] peers[i]).1 == addr
}

/// The identifier of the peer at `addr`: the address-to-identifier mapping.
pub open spec fn id_of(peers: Peers, addr: PeerAddr) -> Option<UserNetId> {
    if has_addr(peers, addr) {
        Some(peers[choose|i: int| 0 <= i < peers.len() && (#[trigger] peers[i]).1 == addr].0)
    } else {
        None
    }
}

/// The address of the peer `id`: the identifier-to-address mapping.
pub open spec fn addr_of(peers: Peers, id: UserNetId) -> Option<PeerAddr> {
    if has_id(peers, id) {
        Some(peers[choose|i: int| 0 <= i < peers.len() && (#[trigger] peers[i]).0 == id].1)
    } else {
        None
    }
}

/// Every identifier has one address and every address one identifier.
pub open spec fn paired(peers: Peers) -> bool {
    distinct_ids(peers) && distinct_handles(peers)
}

/// The identifier under which a datagram from `addr` is surfaced: the one
/// that the address has, or else the one that it is given now.
pub open spec fn resolved_id(peers: Peers, issued: nat, addr: PeerAddr) -> Option<UserNetId> {
    if has_addr(peers, addr) {
        id_of(peers, addr)
    } else {
        fresh_id(peers, issued)
    }
}

/// The peers after a datagram from `addr` was resolved.
pub open spec fn resolved_peers(peers: Peers, issued: nat, addr: PeerAddr) -> Peers {
    if has_addr(peers, addr) {
        peers
    } else {
        registered(peers, issued, addr)
    }
}

/// The generator's count after a datagram from `addr` was resolved.
pub open spec fn resolved_count(peers: Peers, issued: nat, addr: PeerAddr) -> nat {
    if has_addr(peers, addr) {
        issued
    } else {
        drawn(issued)
    }
}

/// Peers, generator count and surfaced messages after one more datagram.
pub open spec fn read_one(
    state: (Peers, nat, Seq<(UserNetId, Seq<u8>)>),
    from: PeerAddr,
    data: Seq<u8>,
) -> (Peers, nat, Seq<(UserNetId, Seq<u8>)>) {
    (
        resolved_peers(state.0, state.1, from),
        resolved_count(state.0, state.1, from),
        match resolved_id(state.0, state.1, from) {
            Some(id) => state.2.push((id, data)),
            None => state.2,
        },
    )
}

/// Peers, generator count and surfaced messages after a batch of datagrams,
/// taken in the order in which they were received.
pub open spec fn read_all(
    state: (Peers, nat, Seq<(UserNetId, Seq<u8>)>),
    datagrams: Seq<Datagram>,
) -> (Peers, nat, Seq<(UserNetId, Seq<u8>)>)
    decreases datagrams.len(),
{
    if datagrams.len() == 0 {
        state
    } else {
        read_one(
            read_all(state, datagrams.drop_last()),
            datagrams.last().from,
            datagrams.last().data@,
        )
    }
}

/// What the caller has to do next for a write.
#[derive(Debug, Clone, Copy, PartialEq, Eq, Structural)]
pub enum WriteStep {
    /// Send the payload from offset `from` on to `to`, and report the outcome.
    Send { to: PeerAddr, from: usize },
    /// The write is over, and this is its result.
    Done(bool),
}

/// Under `paired`, the peer found at a position is the one that the
/// mappings name.
pub proof fn lemma_mappings_at(peers: Peers, i: int)
    requires
        paired(peers),
        0 <= i < peers.len(),
    ensures
        id_of(peers, peers[i].1) == Some(peers[i].0),
        addr_of(peers, peers[i].0) == Some(peers[i].1),
{
    let a = choose|k: int| 0 <= k < peers.len() && (#[trigger] peers[k]).1 == peers[i].1;
    let b = choose|k: int| 0 <= k < peers.len() && (#[trigger] peers[k]).0 == peers[i].0;
    assert(a == i);
    assert(b == i);
}

/// Registering a new address keeps identifiers and addresses paired.
pub proof fn lemma_resolved_paired(peers: Peers, issued: nat, addr: PeerAddr)
    requires
        paired(peers),
    ensures
        paired(resolved_peers(peers, issued, addr)),
{
    if !has_addr(peers, addr) {
        lemma_registered_distinct(peers, issued, addr);
        if let Some(id) = fresh_id(peers, issued) {
            let all = peers.push((id, addr));
            assert forall|i: int, j: int| 0 <= i < j < all.len() implies (#[trigger] all[i]).1 != (
            #[trigger] all[j]).1 by {
                assert(all[i] == peers[i]);
                if j < peers.len() {
                    assert(all[j] == peers[j]);
                }
            }
        }
    }
}

/// The two mappings never disagree: an identifier has an address exactly if
/// that address has the identifier. So neither of them names a peer that the
/// other does not know.
pub proof fn lemma_mappings_agree(peers: Peers, id: UserNetId, addr: PeerAddr)
    requires
        paired(peers),
    ensures
        addr_of(peers, id) == Some(addr) <==> id_of(peers, addr) == Some(id),
{
    if addr_of(peers, id) == Some(addr) {
        let i = choose|i: int| 0 <= i < peers.len() && (#[trigger] peers[i]).0 == id;
        lemma_mappings_at(peers, i);
    }
    if id_of(peers, addr) == Some(id) {
        let i = choose|i: int| 0 <= i < peers.len() && (#[trigger] peers[i]).1 == addr;
        lemma_mappings_at(peers, i);
    }
}

/// An evicted identifier is gone from both mappings: it has no address, and
/// no address has it. What is left is still paired.
pub proof fn lemma_evicted_is_gone(peers: Peers, bad: Seq<UserNetId>, id: UserNetId)
    requires
        paired(peers),
        bad.contains(id),
    ensures
        paired(retain_good(peers, bad)),
        addr_of(retain_good(peers, bad), id) is None,
        forall|addr: PeerAddr| id_of(retain_good(peers, bad), addr) != Some(id),
{
    let kept = retain_good(peers, bad);
    lemma_retain_distinct(peers, bad);
    lemma_retain_distinct_handles(peers, bad);
    lemma_retain_has_id(peers, bad, id);
    assert forall|addr: PeerAddr| id_of(kept, addr) != Some(id) by {
        lemma_mappings_agree(kept, id, addr);
    }
}

/// A sweep leaves a peer that is not marked bad as it is: the identifier
/// keeps its address and the address its identifier.
pub proof fn lemma_sweep_keeps_good(peers: Peers, bad: Seq<UserNetId>, id: UserNetId)
    requires
        paired(peers),
        has_id(peers, id),
        !bad.contains(id),
    ensures
        addr_of(retain_good(peers, bad), id) == addr_of(peers, id),
        id_of(retain_good(peers, bad), addr_of(peers, id)->0) == Some(id),
{
    let kept = retain_good(peers, bad);
    let i = choose|i: int| 0 <= i < peers.len() && (#[trigger] peers[i]).0 == id;
    lemma_mappings_at(peers, i);
    lemma_retain_contains(peers, bad, peers[i]);
    assert(peers.contains(peers[i]));
    let j = choose|j: int| 0 <= j < kept.len() && kept[j] == peers[i];
    lemma_retain_distinct(peers, bad);
    lemma_retain_distinct_handles(peers, bad);
    lemma_mappings_at(kept, j);
}

/// Resolving a datagram leaves every known address with its identifier, and
/// an address that was given an identifier has it afterwards.
pub proof fn lemma_resolved_keeps(peers: Peers, issued: nat, from: PeerAddr, addr: PeerAddr)
    requires
        paired(peers),
    ensures
        paired(resolved_peers(peers, issued, from)),
        id_of(peers, addr) is Some ==> id_of(resolved_peers(peers, issued, from), addr) == id_of(peers, addr),
        resolved_id(peers, issued, from) is Some ==> id_of(
            resolved_peers(peers, issued, from),
            from,
        ) == resolved_id(peers, issued, from),
{
    let after = resolved_peers(peers, issued, from);
    lemma_resolved_paired(peers, issued, from);
    if !has_addr(peers, from) {
        if let Some(id) = fresh_id(peers, issued) {
            assert(after == peers.push((id, from)));
            assert(after[peers.len() as int] == (id, from));
            lemma_mappings_at(after, peers.len() as int);
            if id_of(peers, addr) is Some {
                let i = choose|i: int| 0 <= i < peers.len() && (#[trigger] peers[i]).1 == addr;
                lemma_mappings_at(peers, i);
                assert(after[i] == peers[i]);
                lemma_mappings_at(after, i);
            }
        }
    }
}

/// Reading a batch in two parts is reading it whole.
pub proof fn lemma_read_all_split(
    state: (Peers, nat, Seq<(UserNetId, Seq<u8>)>),
    first: Seq<Datagram>,
    second: Seq<Datagram>,
)
    ensures
        read_all(state, first + second) == read_all(read_all(state, first), second),
    decreases second.len(),
{
    if second.len() == 0 {
        assert(first + second =~= first);
    } else {
        lemma_read_all_split(state, first, second.drop_last());
        assert((first + second).drop_last() =~= first + second.drop_last());
        assert((first + second).last() == second.last());
    }
}

/// A read never takes an identifier away from an address: whatever the
/// batch, an address that had an identifier before has the same one after
/// its last datagram.
pub proof fn lemma_read_keeps_known(
    state: (Peers, nat, Seq<(UserNetId, Seq<u8>)>),
    datagrams: Seq<Datagram>,
    addr: PeerAddr,
)
    requires
        paired(state.0),
    ensures
        paired(read_all(state, datagrams).0),
        id_of(state.0, addr) is Some ==> id_of(read_all(state, datagrams).0, addr) == id_of(state.0, addr),
    decreases datagrams.len(),
{
    if datagrams.len() > 0 {
        lemma_read_keeps_known(state, datagrams.drop_last(), addr);
        let before = read_all(state, datagrams.drop_last());
        lemma_resolved_keeps(before.0, before.1, datagrams.last().from, addr);
    }
}

/// The identifier under which datagram `k` of a batch is surfaced, if it is.
pub open spec fn id_given(
    state: (Peers, nat, Seq<(UserNetId, Seq<u8>)>),
    datagrams: Seq<Datagram>,
    k: int,
) -> Option<UserNetId> {
    let before = read_all(state, datagrams.take(k));
    resolved_id(before.0, before.1, datagrams[k].from)
}

/// An address has one identifier: two datagrams of a batch that come from
/// the same address are surfaced under the same identifier, once the
/// earlier one is surfaced at all.
pub proof fn lemma_one_id_per_address(
    state: (Peers, nat, Seq<(UserNetId, Seq<u8>)>),
    datagrams: Seq<Datagram>,
    i: int,
    j: int,
)
    requires
        paired(state.0),
        0 <= i <= j < datagrams.len(),
        datagrams[i].from == datagrams[j].from,
        id_given(state, datagrams, i) is Some,
    ensures
        id_given(state, datagrams, j) == id_given(state, datagrams, i),
{
    if i < j {
        let addr = datagrams[i].from;
        let before = read_all(state, datagrams.take(i));
        lemma_read_keeps_known(state, datagrams.take(i), addr);
        lemma_resolved_keeps(before.0, before.1, addr, addr);
        let upto = datagrams.take(i + 1);
        assert(upto.drop_last() =~= datagrams.take(i));
        assert(upto.last() == datagrams[i]);
        let after = read_all(state, upto);
        assert(id_of(after.0, addr) == id_given(state, datagrams, i));
        let middle = datagrams.subrange(i + 1, j);
        assert(upto + middle =~= datagrams.take(j));
        lemma_read_all_split(state, upto, middle);
        lemma_read_keeps_known(after, middle, addr);
    }
}

/// An address that has an identifier keeps it through every read: each of
/// its datagrams is surfaced under that identifier.
pub proof fn lemma_known_address_keeps_id(
    state: (Peers, nat, Seq<(UserNetId, Seq<u8>)>),
    datagrams: Seq<Datagram>,
    k: int,
)
    requires
        paired(state.0),
        0 <= k < datagrams.len(),
        id_of(state.0, datagrams[k].from) is Some,
    ensures
        id_given(state, datagrams, k) == id_of(state.0, datagrams[k].from),
{
    lemma_read_keeps_known(state, datagrams.take(k), datagrams[k].from);
}

/// While identifiers last, every datagram of a batch is surfaced, and every
/// identifier among the peers still comes from the generator.
pub proof fn lemma_read_all_surfaces(
    state: (Peers, nat, Seq<(UserNetId, Seq<u8>)>),
    datagrams: Seq<Datagram>,
)
    requires
        ids_below(state.0, state.1),
        state.1 + datagrams.len() <= ID_SPACE,
    ensures
        ids_below(read_all(state, datagrams).0, read_all(state, datagrams).1),
        read_all(state, datagrams).1 <= state.1 + datagrams.len(),
        read_all(state, datagrams).2.len() == state.2.len() + datagrams.len(),
    decreases datagrams.len(),
{
    if datagrams.len() > 0 {
        lemma_read_all_surfaces(state, datagrams.drop_last());
        let before = read_all(state, datagrams.drop_last());
        lemma_registered_below(before.0, before.1, datagrams.last().from);
    }
}

/// The datagram transport.
pub struct UdpNetServer {
    clients: Registry<PeerAddr>,
    bad_clients: Vec<UserNetId>,
}

impl UdpNetServer {
    /// The peers, oldest first.
    pub closed spec fn peers(&self) -> Peers {
        self.clients@
    }

    /// The peers marked for eviction at the next sweep.
    pub closed spec fn bad(&self) -> Seq<UserNetId> {
        self.bad_clients@
    }

    /// The two mappings are in step: no identifier has two addresses and no
    /// address two identifiers.
    pub open spec fn wf(&self) -> bool {
        paired(self.peers())
    }

    /// A transport without peers.
    pub fn new() -> (r: Self)
        ensures
            r.wf(),
            r.peers().len() == 0,
            r.bad().len() == 0,
    {
        UdpNetServer { clients: Registry::new(), bad_clients: Vec::new() }
    }

    /// Number of peers.
    pub fn len(&self) -> (n: usize)
        ensures
            n == self.peers().len(),
    {
        self.clients.len()
    }

    /// The address of the peer `id`, if it is live.
    pub fn addr(&self, id: &UserNetId) -> (r: Option<PeerAddr>)
        requires
            self.wf(),
        ensures
            r == addr_of(self.peers(), *id),
    {
        match self.clients.position(*id) {
            Some(i) => {
                proof {
                    lemma_mappings_at(self.peers(), i as int);
                }
                Some(*self.clients.handle_at(i))
            },
            None => None,
        }
    }

    /// The identifier of the peer at `addr`, if it has one.
    pub fn net_id(&self, addr: PeerAddr) -> (r: Option<UserNetId>)
        requires
            self.wf(),
        ensures
            r == id_of(self.peers(), addr),
    {
        let mut i: usize = 0;
        while i < self.clients.len()
            invariant
                i <= self.peers().len(),
                self.wf(),
                forall|k: int| 0 <= k < i ==> (#[trigger] self.peers()[k]).1 != addr,
            decreases self.peers().len() - i,
        {
            if *self.clients.handle_at(i) == addr {
                proof {
                    lemma_mappings_at(self.peers(), i as int);
                }
                return Some(self.clients.id_at(i));
            }
            i = i + 1;
        }
        None
    }

    /// Maps an address to its identifier, and gives it one if it has none.
    ///
    /// An address that is known keeps its identifier. A new address gets the
    /// next identifier of the generator and joins both mappings. It gets none,
    /// and stays unknown, if the generator is spent or hands out an
    /// identifier that is live here.
    pub fn addr_to_net_id(&mut self, ids: &mut NetIdGen, addr: PeerAddr) -> (r: Option<UserNetId>)
        requires
            old(self).wf(),
            old(ids).wf(),
        ensures
            final(self).wf(),
            final(ids).wf(),
            r == resolved_id(old(self).peers(), old(ids).issued(), addr),
            final(self).peers() == resolved_peers(old(self).peers(), old(ids).issued(), addr),
            final(ids).issued() == resolved_count(old(self).peers(), old(ids).issued(), addr),
            final(self).bad() == old(self).bad(),
    {
        proof {
            lemma_resolved_paired(self.peers(), ids.issued(), addr);
        }
        match self.net_id(addr) {
            Some(id) => Some(id),
            None => self.clients.register(ids, addr),
        }
    }

    /// Evicts every peer that is marked bad, from both mappings, and clears
    /// the marks. The peers that stay keep their identifiers and addresses.
    pub fn remove_bad_clients(&mut self)
        requires
            old(self).wf(),
        ensures
            final(self).wf(),
            final(self).peers() == retain_good(old(self).peers(), old(self).bad()),
            forall|id: UserNetId| #[trigger]
                has_id(final(self).peers(), id) <==> has_id(old(self).peers(), id) && !old(self).bad().contains(id),
            final(self).bad().len() == 0,
    {
        proof {
            lemma_retain_distinct_handles(self.peers(), self.bad());
        }
        self.clients.sweep(&self.bad_clients);
        self.bad_clients.clear();
    }

    /// Takes in the datagrams that one drain of the socket received, in their
    /// order, and appends one message for each to `buffer`, under the
    /// identifier of its sender. Then the bad peers are evicted.
    ///
    /// A datagram whose sender cannot be given an identifier is not surfaced.
    /// An empty datagram is never delivered by a socket and must not be
    /// handed in.
    pub fn read(
        &mut self,
        ids: &mut NetIdGen,
        datagrams: Vec<Datagram>,
        buffer: &mut Vec<ClientMessage>,
    )
        requires
            old(self).wf(),
            old(ids).wf(),
            forall|i: int| 0 <= i < datagrams@.len() ==> (#[trigger] datagrams@[i]).data@.len() > 0,
        ensures
            final(self).wf(),
            final(ids).wf(),
            ({
                let end = read_all(
                    (old(self).peers(), old(ids).issued(), Seq::empty()),
                    datagrams@,
                );
                &&& final(self).peers() == retain_good(end.0, old(self).bad())
                &&& final(ids).issued() == end.1
                &&& messages(final(buffer)@) == messages(old(buffer)@) + end.2
            }),
            final(self).bad().len() == 0,
    {
        let ghost start = (self.peers(), ids.issued(), Seq::<(UserNetId, Seq<u8>)>::empty());
        let ghost all = datagrams@;
        proof {
            assert(all.take(0) =~= Seq::<Datagram>::empty());
            assert(messages(buffer@) + Seq::empty() =~= messages(buffer@));
        }
        for datagram in it: datagrams
            invariant
                it.seq() == all,
                self.wf(),
                ids.wf(),
                self.bad() == old(self).bad(),
                ({
                    let now = read_all(start, all.take(it.index() as int));
                    &&& self.peers() == now.0
                    &&& ids.issued() == now.1
                    &&& messages(buffer@) == messages(old(buffer)@) + now.2
                }),
        {
            let ghost upto = all.take(it.index() as int);
            let ghost before = buffer@;
            proof {
                assert(all.take(it.index() + 1) =~= upto.push(datagram));
                assert(upto.push(datagram).drop_last() =~= upto);
            }
            let Datagram { from, data } = datagram;
            match self.addr_to_net_id(ids, from) {
                Some(id) => {
                    buffer.push(ClientMessage::new(id, data));
                    proof {
                        let now = read_all(start, upto);
                        assert(messages(buffer@) =~= messages(before).push((id, data@)));
                        assert(messages(old(buffer)@) + now.2.push((id, data@)) =~= (messages(old(buffer)@) + now.2).push((id, data@)));
                    }
                },
                None => {},
            }
        }
        assert(all.take(all.len() as int) =~= all);
        self.remove_bad_clients();
    }

    /// Opens a write to the peer `id`: the first send goes to its address,
    /// from the start of the payload. A write to an unknown
    /// identifier is over at once, and has failed.
    pub fn write(&self, id: &UserNetId) -> (step: WriteStep)
        requires
            self.wf(),
        ensures
            step == match addr_of(self.peers(), *id) {
                Some(to) => WriteStep::Send { to, from: 0 },
                None => WriteStep::Done(false),
            },
    {
        match self.addr(id) {
            Some(to) => WriteStep::Send { to, from: 0 },
            None => WriteStep::Done(false),
        }
    }

    /// Takes in how the send of the bytes from offset `from` of a payload of
    /// `len` bytes to the peer `id` ended, and says how the write goes on.
    ///
    /// When the send took the rest of the payload the write has succeeded;
    /// when it took less, the rest is sent next. After a would-block condition
    /// the same send is made again. After any other fault the write has
    /// failed, and the peer is evicted with everything else that is marked
    /// bad.
    pub fn write_next(
        &mut self,
        id: &UserNetId,
        len: usize,
        from: usize,
        event: Result<usize, Fault>,
    ) -> (step: WriteStep)
        requires
            old(self).wf(),
        ensures
            final(self).wf(),
            match (addr_of(old(self).peers(), *id), event) {
                (None, _) => step == WriteStep::Done(false) && final(self).peers() == old(self).peers() && final(self).bad() == old(self).bad(),
                (Some(to), Ok(n)) => final(self).peers() == old(self).peers() && final(self).bad()
                    == old(self).bad() && step == if from + n >= len {
                    WriteStep::Done(true)
                } else {
                    WriteStep::Send { to, from: (from + n) as usize }
                },
                (Some(to), Err(fault)) => if fault.transient() {
                    step == (WriteStep::Send { to, from }) && final(self).peers() == old(self).peers() && final(self).bad() == old(self).bad()
                } else {
                    step == WriteStep::Done(false) && final(self).peers() == retain_good(
                        old(self).peers(),
                        old(self).bad().push(*id),
                    ) && final(self).bad().len() == 0
                },
            },
    {
        match self.addr(id) {
            None => WriteStep::Done(false),
            Some(to) => {
                match event {
                    Ok(n) => {
                        if from >= len || n >= len - from {
                            WriteStep::Done(true)
                        } else {
                            WriteStep::Send { to, from: from + n }
                        }
                    },
                    Err(fault) => {
                        if fault.is_transient() {
                            WriteStep::Send { to, from }
                        } else {
                            self.bad_clients.push(*id);
                            self.remove_bad_clients();
                            WriteStep::Done(false)
                        }
                    },
                }
            },
        }
    }

    /// Ends a tick: evicts the peers that are marked bad. A datagram socket
    /// holds no output back, so nothing else is left to do.
    pub fn flush(&mut self)
        requires
            old(self).wf(),
        ensures
            final(self).wf(),
            final(self).peers() == retain_good(old(self).peers(), old(self).bad()),
            forall|id: UserNetId| #[trigger]
                has_id(final(self).peers(), id) <==> has_id(old(self).peers(), id) && !old(self).bad().contains(id),
            final(self).bad().len() == 0,
    {
        self.remove_bad_clients();
    }
}

/// What a send on the socket came to: the number of bytes that it took, or
/// the fault that kept it from taking any.
pub fn send_event(res: Result<usize, std::io::Error>) -> (r: Result<usize, Fault>)
    ensures
        match res {
            Ok(n) => r == Ok::<usize, Fault>(n),
            Err(_) => r is Err && r != Err::<usize, Fault>(Fault::Protocol),
        },
{
    match res {
        Ok(n) => Ok(n),
        Err(err) => Err(io_fault(&err)),
    }
}

} // verus!
