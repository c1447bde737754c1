//! The framed-stream transport: connections that come to life through a
//! handshake, carry whole messages, and are evicted when they fail.
//!
//! The transport owns the connection handles but never touches a socket. The
//! caller polls each handle and reports the outcome; the transport decides
//! what is surfaced, who stays and who is evicted. `H` is the type of a live
//! connection's handle, `P` that of a handshake still in progress.

use vstd::prelude::*;
use crate::net::registry::{
    distinct_ids, drawn, has_id, ids_below, lemma_registered_below, registered, retain_good,
    Registry,
};
use crate::net::{io_fault, messages, ClientMessage, Fault, NetIdGen, UserNetId, ID_SPACE};

verus! {

/// `tungstenite::Message`, carried as it is: nothing inside it is visible.
#[verifier::external_type_specification]
#[verifier::external_body]
pub struct ExMessage(tungstenite::Message);

/// `tungstenite::Error`, carried as it is: nothing inside it is visible.
#[verifier::external_type_specification]
#[verifier::external_body]
pub struct ExError(tungstenite::Error);

/// Largest message that a connection accepts: 8 MiB.
pub const MAX_MESSAGE_SIZE: usize = 0x80_0000;

/// Largest frame that a connection accepts: 4 MiB.
pub const MAX_FRAME_SIZE: usize = 0x40_0000;

/// Number of frames that may wait to be sent on one connection.
pub const MAX_SEND_QUEUE: usize = 1;

/// The limits that every handshake fixes for its connection.
#[derive(Debug, Clone, Copy, PartialEq, Eq, Structural)]
pub struct Limits {
    pub max_send_queue: usize,
    pub max_message_size: usize,
    pub max_frame_size: usize,
    pub accept_unmasked_frames: bool,
}

/// The limits of this transport: a send queue of one frame, messages of at
/// most 8 MiB in frames of at most 4 MiB, and no unmasked frames.
pub fn limits() -> (l: Limits)
    ensures
        l == (Limits {
            max_send_queue: 1,
            max_message_size: 8_388_608,
            max_frame_size: 4_194_304,
            accept_unmasked_frames: false,
        }),
{
    Limits {
        max_send_queue: MAX_SEND_QUEUE,
        max_message_size: MAX_MESSAGE_SIZE,
        max_frame_size: MAX_FRAME_SIZE,
        accept_unmasked_frames: false,
    }
}

/// What one read on a connection delivered.
#[derive(Debug, Clone, PartialEq, Eq)]
pub enum Frame {
    Text(Vec<u8>),
    Binary(Vec<u8>),
    Ping,
    Pong,
    Close,
    Raw,
}

impl Frame {
    /// The payload that the frame hands to the application: that of a text
    /// or binary frame, byte for byte. Every other frame carries none.
    pub open spec fn payload_spec(self) -> Option<Seq<u8>> {
        match self {
            Frame::Text(d) => Some(d@),
            Frame::Binary(d) => Some(d@),
            _ => None,
        }
    }

    /// The payload that the frame hands to the application, if any.
    pub fn payload(self) -> (r: Option<Vec<u8>>)
        ensures
            match r {
                Some(d) => self.payload_spec() == Some(d@),
                None => self.payload_spec() is None,
            },
    {
        match self {
            Frame::Text(d) => Some(d),
            Frame::Binary(d) => Some(d),
            _ => None,
        }
    }
}

/// Outcome of one read on a connection.
pub type ReadEvent = Result<Frame, Fault>;

/// Tells the variants of `tungstenite::Message` apart. The bytes of a text or
/// binary message are those of `Message::into_data`. Nothing is claimed
/// about which frame comes back.
#[verifier::external_body]
fn message_frame(msg: tungstenite::Message) -> (f: Frame) {
    match msg {
        m @ tungstenite::Message::Text(_) => Frame::Text(m.into_data()),
        m @ tungstenite::Message::Binary(_) => Frame::Binary(m.into_data()),
        tungstenite::Message::Ping(_) => Frame::Ping,
        tungstenite::Message::Pong(_) => Frame::Pong,
        tungstenite::Message::Close(_) => Frame::Close,
        tungstenite::Message::Frame(_) => Frame::Raw,
    }
}

/// The I/O error inside a `tungstenite::Error`, if it is the `Io` variant.
/// Nothing is claimed about the answer.
#[verifier::external_body]
fn io_error_of(err: &tungstenite::Error) -> (r: Option<&std::io::Error>) {
    match err {
        tungstenite::Error::Io(e) => Some(e),
        _ => None,
    }
}

/// The fault that an error of the protocol layer stands for: that of its I/O
/// error if it holds one, a protocol fault otherwise.
fn error_fault(err: &tungstenite::Error) -> (f: Fault) {
    match io_error_of(err) {
        Some(e) => io_fault(e),
        None => Fault::classify(None),
    }
}

/// What a read on a connection came to: the frame it delivered, or the fault
/// that kept it from delivering one.
pub fn read_event(res: Result<tungstenite::Message, tungstenite::Error>) -> (r: ReadEvent)
    ensures
        res is Ok <==> r is Ok,
{
    match res {
        Ok(msg) => Ok(message_frame(msg)),
        Err(err) => Err(error_fault(&err)),
    }
}

/// What a write or a flush on a connection came to.
pub fn write_event(res: Result<(), tungstenite::Error>) -> (r: Result<(), Fault>)
    ensures
        res is Ok <==> r is Ok,
{
    match res {
        Ok(_) => Ok(()),
        Err(err) => Err(error_fault(&err)),
    }
}

/// Whether a connection still has output to flush after one attempt.
///
/// A would-block condition is no failure: the connection leaves this tick's
/// retry set as if it had drained, and the data goes out in a later tick. So
/// no attempt ever asks for another one in the same tick.
pub fn write_pending(event: Result<(), Fault>) -> (r: Result<bool, Fault>)
    ensures
        r == match event {
            Ok(_) => Ok::<bool, Fault>(false),
            Err(Fault::WouldBlock) => Ok(false),
            Err(f) => Err(f),
        },
        r != Ok::<bool, Fault>(true),
{
    match event {
        Ok(_) => Ok(false),
        Err(Fault::WouldBlock) => Ok(false),
        Err(f) => Err(f),
    }
}

/// How one handshake attempt ended.
pub enum Handshake<H, P> {
    /// The handshake is complete: `H` is the connection.
    Live(H),
    /// The handshake would block partway through: `P` has to be polled again.
    Pending(P),
    /// The handshake failed for good.
    Failed,
}

/// The transport after one handshake outcome, as live connections, pending
/// handshakes and the generator's count: a completed handshake asks to join
/// the live connections, an interrupted one queues up behind the pending
/// ones, a failed one leaves no trace.
pub open spec fn accept_one<H, P>(
    state: (Seq<(UserNetId, H)>, Seq<P>, nat),
    outcome: Handshake<H, P>,
) -> (Seq<(UserNetId, H)>, Seq<P>, nat) {
    match outcome {
        Handshake::Live(h) => (registered(state.0, state.2, h), state.1, drawn(state.2)),
        Handshake::Pending(p) => (state.0, state.1.push(p), state.2),
        Handshake::Failed => state,
    }
}

/// The transport after a batch of handshake outcomes, taken in order.
pub open spec fn accept_all<H, P>(
    state: (Seq<(UserNetId, H)>, Seq<P>, nat),
    outcomes: Seq<Handshake<H, P>>,
) -> (Seq<(UserNetId, H)>, Seq<P>, nat)
    decreases outcomes.len(),
{
    if outcomes.len() == 0 {
        state
    } else {
        accept_one(accept_all(state, outcomes.drop_last()), outcomes.last())
    }
}

/// Picks the handshakes that completed.
pub open spec fn is_live_fn<H, P>() -> spec_fn(Handshake<H, P>) -> bool {
    |outcome: Handshake<H, P>| outcome is Live
}

/// Picks the handshakes that were interrupted.
pub open spec fn is_pending_fn<H, P>() -> spec_fn(Handshake<H, P>) -> bool {
    |outcome: Handshake<H, P>| outcome is Pending
}

/// The handshake that an interrupted attempt left behind.
pub open spec fn pending_of_fn<H, P>() -> spec_fn(Handshake<H, P>) -> P {
    |outcome: Handshake<H, P>| outcome->Pending_0
}

/// No pending handshake is dropped: after a batch of outcomes the pending
/// handshakes are those that were pending before and, behind them, every
/// interrupted handshake of the batch, in order.
pub proof fn lemma_accept_all_pending<H, P>(
    state: (Seq<(UserNetId, H)>, Seq<P>, nat),
    outcomes: Seq<Handshake<H, P>>,
)
    ensures
        accept_all(state, outcomes).1 == state.1 + outcomes.filter(is_pending_fn()).map_values(
            pending_of_fn(),
        ),
    decreases outcomes.len(),
{
    reveal(Seq::filter);
    if outcomes.len() == 0 {
        assert(state.1 + outcomes.filter(is_pending_fn()).map_values(pending_of_fn::<H, P>())
            =~= state.1);
    } else {
        let front = outcomes.drop_last();
        lemma_accept_all_pending(state, front);
        assert(accept_all(state, outcomes).1 =~= state.1 + outcomes.filter(
            is_pending_fn(),
        ).map_values(pending_of_fn::<H, P>()));
    }
}

/// Accepting evicts nobody: the connections that were live stay live, with
/// their identifiers and handles, ahead of the new ones. The generator only
/// moves forward.
pub proof fn lemma_accept_all_keeps_live<H, P>(
    state: (Seq<(UserNetId, H)>, Seq<P>, nat),
    outcomes: Seq<Handshake<H, P>>,
)
    ensures
        state.0.is_prefix_of(accept_all(state, outcomes).0),
        state.2 <= accept_all(state, outcomes).2,
    decreases outcomes.len(),
{
    if outcomes.len() > 0 {
        lemma_accept_all_keeps_live(state, outcomes.drop_last());
    }
}

/// While identifiers last, every completed handshake becomes a live
/// connection: as many connections come to life as handshakes completed,
/// and each identifier still comes from the generator.
pub proof fn lemma_accept_all_live<H, P>(
    state: (Seq<(UserNetId, H)>, Seq<P>, nat),
    outcomes: Seq<Handshake<H, P>>,
)
    requires
        ids_below(state.0, state.2),
        state.2 + outcomes.len() <= ID_SPACE,
    ensures
        ids_below(accept_all(state, outcomes).0, accept_all(state, outcomes).2),
        accept_all(state, outcomes).0.len() == state.0.len() + outcomes.filter(
            is_live_fn(),
        ).len(),
        accept_all(state, outcomes).2 == state.2 + outcomes.filter(is_live_fn()).len(),
    decreases outcomes.len(),
{
    reveal(Seq::filter);
    if outcomes.len() > 0 {
        let front = outcomes.drop_last();
        lemma_accept_all_live(state, front);
        front.lemma_filter_len(is_live_fn());
        let before = accept_all(state, front);
        if let Handshake::Live(h) = outcomes.last() {
            lemma_registered_below(before.0, before.2, h);
        }
    }
}

/// A flush attempt that never reports output as still waiting ends the
/// flush in one round.
pub proof fn lemma_flush_ends<H>(live: Seq<(UserNetId, H)>, polled: Seq<FlushPoll>)
    requires
        forall|k: int| 0 <= k < polled.len() ==> (#[trigger] polled[k]).1 != Ok::<bool, Fault>(true),
    ensures
        flush_retry(live, polled).len() == 0,
    decreases polled.len(),
{
    reveal(Seq::filter);
    if polled.len() > 0 {
        let front = polled.drop_last();
        assert forall|k: int| 0 <= k < front.len() implies (#[trigger] front[k]).1 != Ok::<
            bool,
            Fault,
        >(true) by {
            assert(front[k] == polled[k]);
        }
        lemma_flush_ends(live, front);
        assert(polled[polled.len() - 1] == polled.last());
    }
}

/// Outcome of one read, with the position of the connection that was read.
pub type ReadPoll = (usize, ReadEvent);

/// Outcome of one flush attempt, with the position of the connection:
/// `Ok(true)` if output is still waiting, `Ok(false)` if none is.
pub type FlushPoll = (usize, Result<bool, Fault>);

/// The read names a live connection and delivered a payload.
pub open spec fn surfaces<H>(live: Seq<(UserNetId, H)>, poll: ReadPoll) -> bool {
    &&& poll.0 < live.len()
    &&& poll.1 is Ok
    &&& poll.1->Ok_0.payload_spec() is Some
}

/// The message that such a read hands to the application.
pub open spec fn surfaced_message<H>(live: Seq<(UserNetId, H)>, poll: ReadPoll) -> (
    UserNetId,
    Seq<u8>,
) {
    (live[poll.0 as int].0, poll.1->Ok_0.payload_spec()->Some_0)
}

/// The read names a live connection and ended in a fault that is not
/// transient.
pub open spec fn read_fails<H>(live: Seq<(UserNetId, H)>, poll: ReadPoll) -> bool {
    &&& poll.0 < live.len()
    &&& poll.1 is Err
    &&& !poll.1->Err_0.transient()
}

/// `surfaces`, as a predicate on the reads of a round.
pub open spec fn surfaces_fn<H>(live: Seq<(UserNetId, H)>) -> spec_fn(ReadPoll) -> bool {
    |poll: ReadPoll| surfaces(live, poll)
}

/// `surfaced_message`, as a function on the reads of a round.
pub open spec fn surfaced_message_fn<H>(live: Seq<(UserNetId, H)>) -> spec_fn(ReadPoll) -> (
    UserNetId,
    Seq<u8>,
) {
    |poll: ReadPoll| surfaced_message(live, poll)
}

/// `read_fails`, as a predicate on the reads of a round.
pub open spec fn read_fails_fn<H>(live: Seq<(UserNetId, H)>) -> spec_fn(ReadPoll) -> bool {
    |poll: ReadPoll| read_fails(live, poll)
}

/// The identifier of the connection that a read names.
pub open spec fn read_id_fn<H>(live: Seq<(UserNetId, H)>) -> spec_fn(ReadPoll) -> UserNetId {
    |poll: ReadPoll| live[poll.0 as int].0
}

/// The messages that a round of reads hands to the application, in the
/// order of the reads.
pub open spec fn surfaced<H>(live: Seq<(UserNetId, H)>, polled: Seq<ReadPoll>) -> Seq<
    (UserNetId, Seq<u8>),
> {
    polled.filter(surfaces_fn(live)).map_values(surfaced_message_fn(live))
}

/// The connections that a round of reads found broken, in the order of the
/// reads.
pub open spec fn read_failures<H>(live: Seq<(UserNetId, H)>, polled: Seq<ReadPoll>) -> Seq<
    UserNetId,
> {
    polled.filter(read_fails_fn(live)).map_values(read_id_fn(live))
}

/// The flush attempt names a live connection that still has output waiting.
pub open spec fn flush_waits<H>(live: Seq<(UserNetId, H)>, poll: FlushPoll) -> bool {
    poll.0 < live.len() && poll.1 == Ok::<bool, Fault>(true)
}

/// The flush attempt names a live connection and failed.
pub open spec fn flush_fails<H>(live: Seq<(UserNetId, H)>, poll: FlushPoll) -> bool {
    poll.0 < live.len() && poll.1 is Err
}

/// `flush_waits`, as a predicate on the attempts of a round.
pub open spec fn flush_waits_fn<H>(live: Seq<(UserNetId, H)>) -> spec_fn(FlushPoll) -> bool {
    |poll: FlushPoll| flush_waits(live, poll)
}

/// `flush_fails`, as a predicate on the attempts of a round.
pub open spec fn flush_fails_fn<H>(live: Seq<(UserNetId, H)>) -> spec_fn(FlushPoll) -> bool {
    |poll: FlushPoll| flush_fails(live, poll)
}

/// The position that a flush attempt names.
pub open spec fn flush_position_fn() -> spec_fn(FlushPoll) -> usize {
    |poll: FlushPoll| poll.0
}

/// The identifier of the connection that a flush attempt names.
pub open spec fn flush_id_fn<H>(live: Seq<(UserNetId, H)>) -> spec_fn(FlushPoll) -> UserNetId {
    |poll: FlushPoll| live[poll.0 as int].0
}

/// The positions that have to be flushed once more, in the order of the
/// attempts.
pub open spec fn flush_retry<H>(live: Seq<(UserNetId, H)>, polled: Seq<FlushPoll>) -> Seq<usize> {
    polled.filter(flush_waits_fn(live)).map_values(flush_position_fn())
}

/// The connections that a round of flush attempts found broken.
pub open spec fn flush_failures<H>(live: Seq<(UserNetId, H)>, polled: Seq<FlushPoll>) -> Seq<
    UserNetId,
> {
    polled.filter(flush_fails_fn(live)).map_values(flush_id_fn(live))
}

/// The write got the frame onto the connection: it was sent, or it was
/// queued and waits for the next flush.
pub open spec fn write_holds(event: Result<(), Fault>) -> bool {
    match event {
        Ok(_) => true,
        Err(f) => f.transient(),
    }
}

/// The framed-stream transport.
pub struct WsNetServer<H, P> {
    clients: Registry<H>,
    bad_clients: Vec<UserNetId>,
    pending_handshake: Vec<P>,
}

impl<H, P> WsNetServer<H, P> {
    /// The live connections, oldest first, each with its handle.
    pub closed spec fn live(&self) -> Seq<(UserNetId, H)> {
        self.clients@
    }

    /// The handshakes that have to be polled again, oldest first.
    pub closed spec fn pending(&self) -> Seq<P> {
        self.pending_handshake@
    }

    /// The connections marked for eviction at the next sweep.
    pub closed spec fn bad(&self) -> Seq<UserNetId> {
        self.bad_clients@
    }

    /// No identifier belongs to two live connections.
    pub open spec fn wf(&self) -> bool {
        distinct_ids(self.live())
    }

    /// A transport without connections.
    pub fn new() -> (r: Self)
        ensures
            r.wf(),
            r.live().len() == 0,
            r.pending().len() == 0,
            r.bad().len() == 0,
    {
        WsNetServer {
            clients: Registry::new(),
            bad_clients: Vec::new(),
            pending_handshake: Vec::new(),
        }
    }

    /// Hands out every pending handshake, oldest first, and keeps none: each
    /// of them is due for exactly one poll this tick.
    pub fn take_pending(&mut self) -> (r: Vec<P>)
        ensures
            r@ == old(self).pending(),
            final(self).pending().len() == 0,
            final(self).live() == old(self).live(),
            final(self).bad() == old(self).bad(),
    {
        let mut due: Vec<P> = Vec::new();
        std::mem::swap(&mut self.pending_handshake, &mut due);
        due
    }

    /// Takes in the outcomes of this tick's handshake attempts, those of the
    /// pending handshakes first and those of new streams after them.
    ///
    /// Each completed handshake becomes a live connection under a new
    /// identifier, each interrupted one waits for the next tick, each failed
    /// one is dropped. Returns how many connections came to life.
    pub fn accept_new_incoming(&mut self, ids: &mut NetIdGen, outcomes: Vec<Handshake<H, P>>) -> (n:
        usize)
        requires
            old(self).wf(),
            old(ids).wf(),
        ensures
            final(self).wf(),
            final(ids).wf(),
            (final(self).live(), final(self).pending(), final(ids).issued()) == accept_all(
                (old(self).live(), old(self).pending(), old(ids).issued()),
                outcomes@,
            ),
            final(self).bad() == old(self).bad(),
            n == final(self).live().len() - old(self).live().len(),
    {
        let ghost start = (self.live(), self.pending(), ids.issued());
        let ghost all = outcomes@;
        let before = self.clients.len();
        assert(all.take(0) =~= Seq::<Handshake<H, P>>::empty());
        for outcome in it: outcomes
            invariant
                it.seq() == all,
                self.wf(),
                ids.wf(),
                (self.live(), self.pending(), ids.issued()) == accept_all(
                    start,
                    all.take(it.index() as int),
                ),
                self.bad() == old(self).bad(),
                before <= self.live().len(),
        {
            proof {
                let upto = all.take(it.index() as int);
                assert(all.take(it.index() + 1) =~= upto.push(outcome));
                assert(upto.push(outcome).drop_last() =~= upto);
            }
            match outcome {
                Handshake::Live(h) => {
                    let _ = self.clients.register(ids, h);
                },
                Handshake::Pending(p) => {
                    self.pending_handshake.push(p);
                },
                Handshake::Failed => {},
            }
        }
        assert(all.take(all.len() as int) =~= all);
        self.clients.len() - before
    }

    /// Number of live connections.
    pub fn len(&self) -> (n: usize)
        ensures
            n == self.live().len(),
    {
        self.clients.len()
    }

    /// Identifier of the live connection at position `i`.
    pub fn id_at(&self, i: usize) -> (id: UserNetId)
        requires
            i < self.live().len(),
        ensures
            id == self.live()[i as int].0,
    {
        self.clients.id_at(i)
    }

    /// Position of the live connection that carries `id`.
    pub fn position(&self, id: &UserNetId) -> (r: Option<usize>)
        ensures
            match r {
                Some(i) => i < self.live().len() && self.live()[i as int].0 == *id,
                None => !has_id(self.live(), *id),
            },
    {
        self.clients.position(*id)
    }

    /// The handle of the live connection at position `i`, for the caller to
    /// read from and write to. Nothing else changes.
    pub fn socket_mut(&mut self, i: usize) -> (h: &mut H)
        requires
            i < old(self).live().len(),
        ensures
            *h == old(self).live()[i as int].1,
            final(self).live() == old(self).live().update(
                i as int,
                (old(self).live()[i as int].0, *final(h)),
            ),
            final(self).pending() == old(self).pending(),
            final(self).bad() == old(self).bad(),
    {
        self.clients.handle_mut(i)
    }

    /// Evicts every connection that is marked bad, and clears the marks. The
    /// connections that stay keep their order and their handles.
    pub fn remove_bad_clients(&mut self)
        requires
            old(self).wf(),
        ensures
            final(self).wf(),
            final(self).live() == retain_good(old(self).live(), old(self).bad()),
            forall|id: UserNetId| #[trigger]
                has_id(final(self).live(), id) <==> has_id(old(self).live(), id) && !old(self).bad().contains(id),
            final(self).bad().len() == 0,
            final(self).pending() == old(self).pending(),
    {
        self.clients.sweep(&self.bad_clients);
        self.bad_clients.clear();
    }

    /// Takes in one round of reads, at most one per live connection.
    ///
    /// Every payload of a text or binary frame is appended to `buffer` as a
    /// message of its connection; other frames and would-block conditions
    /// leave no trace; a connection whose read failed otherwise is marked bad.
    /// Then the bad connections are evicted.
    pub fn read(&mut self, polled: Vec<ReadPoll>, buffer: &mut Vec<ClientMessage>)
        requires
            old(self).wf(),
        ensures
            final(self).wf(),
            messages(final(buffer)@) == messages(old(buffer)@) + surfaced(
                old(self).live(),
                polled@,
            ),
            final(self).live() == retain_good(
                old(self).live(),
                old(self).bad() + read_failures(old(self).live(), polled@),
            ),
            final(self).bad().len() == 0,
            final(self).pending() == old(self).pending(),
    {
        let ghost live = self.live();
        let ghost all = polled@;
        proof {
            assert(all.take(0) =~= Seq::<ReadPoll>::empty());
            reveal(Seq::filter);
            assert(surfaced(live, all.take(0)) =~= Seq::empty());
            assert(read_failures(live, all.take(0)) =~= Seq::empty());
            assert(messages(buffer@) + Seq::empty() =~= messages(buffer@));
            assert(self.bad() + Seq::empty() =~= self.bad());
        }
        for poll in it: polled
            invariant
                it.seq() == all,
                self.live() == live,
                self.pending() == old(self).pending(),
                messages(buffer@) == messages(old(buffer)@) + surfaced(
                    live,
                    all.take(it.index() as int),
                ),
                self.bad() == old(self).bad() + read_failures(live, all.take(it.index() as int)),
        {
            let ghost upto = all.take(it.index() as int);
            let ghost before = buffer@;
            let ghost marked = self.bad();
            proof {
                assert(all.take(it.index() + 1) =~= upto.push(poll));
                upto.lemma_filter_push(poll, surfaces_fn(live));
                upto.lemma_filter_push(poll, read_fails_fn(live));
            }
            let (i, event) = poll;
            if i < self.clients.len() {
                match event {
                    Ok(frame) => {
                        match frame.payload() {
                            Some(data) => {
                                buffer.push(ClientMessage::new(self.clients.id_at(i), data));
                                proof {
                                    assert(surfaces(live, poll));
                                    assert(messages(buffer@) =~= messages(before).push(
                                        surfaced_message(live, poll),
                                    ));
                                    assert(surfaced(live, upto.push(poll)) =~= surfaced(
                                        live,
                                        upto,
                                    ).push(surfaced_message(live, poll)));
                                }
                            },
                            None => {},
                        }
                    },
                    Err(fault) => {
                        if !fault.is_transient() {
                            self.bad_clients.push(self.clients.id_at(i));
                            proof {
                                assert(read_fails(live, poll));
                                assert(read_failures(live, upto.push(poll)) =~= read_failures(
                                    live,
                                    upto,
                                ).push(live[i as int].0));
                            }
                        }
                    },
                }
            }
        }
        assert(all.take(all.len() as int) =~= all);
        self.remove_bad_clients();
    }

    /// Takes in the outcome of one write to the connection `id`.
    ///
    /// Returns whether the frame is on its way: sent, or queued behind a
    /// would-block condition until the next flush. A write to an unknown
    /// connection never is. A connection whose write failed is evicted at
    /// once, with everything else that is marked bad.
    pub fn write(&mut self, id: &UserNetId, event: Result<(), Fault>) -> (sent: bool)
        requires
            old(self).wf(),
        ensures
            final(self).wf(),
            sent == (has_id(old(self).live(), *id) && write_holds(event)),
            final(self).pending() == old(self).pending(),
            has_id(old(self).live(), *id) && !write_holds(event) ==> final(self).live()
                == retain_good(old(self).live(), old(self).bad().push(*id)) && final(self).bad().len() == 0,
            !has_id(old(self).live(), *id) || write_holds(event) ==> final(self).live() == old(self).live() && final(self).bad() == old(self).bad(),
    {
        match self.clients.position(*id) {
            None => false,
            Some(i) => {
                assert(self.live()[i as int].0 == *id);
                match event {
                    Ok(_) => true,
                    Err(fault) => {
                        if fault.is_transient() {
                            true
                        } else {
                            self.bad_clients.push(*id);
                            self.remove_bad_clients();
                            false
                        }
                    },
                }
            },
        }
    }

    /// The identifiers of the live connections, oldest first.
    pub fn ids(&self) -> (r: Vec<UserNetId>)
        ensures
            r@.len() == self.live().len(),
            forall|i: int| 0 <= i < r@.len() ==> r@[i] == (#[trigger] self.live()[i]).0,
    {
        let mut out: Vec<UserNetId> = Vec::new();
        let mut i: usize = 0;
        while i < self.clients.len()
            invariant
                i <= self.live().len(),
                out@.len() == i,
                forall|k: int| 0 <= k < i ==> out@[k] == (#[trigger] self.live()[k]).0,
            decreases self.live().len() - i,
        {
            out.push(self.clients.id_at(i));
            i = i + 1;
        }
        out
    }

    /// Takes in one round of flush attempts and returns the positions that
    /// need another one, in the order of the attempts.
    ///
    /// A connection whose attempt failed is marked bad. Once no connection
    /// needs another attempt the flush is over, and the bad connections are
    /// evicted; until then nobody is, so that the positions stay good.
    pub fn flush(&mut self, polled: Vec<FlushPoll>) -> (retry: Vec<usize>)
        requires
            old(self).wf(),
        ensures
            final(self).wf(),
            retry@ == flush_retry(old(self).live(), polled@),
            final(self).pending() == old(self).pending(),
            retry@.len() > 0 ==> final(self).live() == old(self).live() && final(self).bad() == old(self).bad() + flush_failures(old(self).live(), polled@),
            retry@.len() == 0 ==> final(self).live() == retain_good(
                old(self).live(),
                old(self).bad() + flush_failures(old(self).live(), polled@),
            ) && final(self).bad().len() == 0,
    {
        let ghost live = self.live();
        let ghost all = polled@;
        let mut retry: Vec<usize> = Vec::new();
        proof {
            assert(all.take(0) =~= Seq::<FlushPoll>::empty());
            reveal(Seq::filter);
            assert(flush_retry(live, all.take(0)) =~= Seq::empty());
            assert(flush_failures(live, all.take(0)) =~= Seq::empty());
            assert(self.bad() + Seq::empty() =~= self.bad());
        }
        for poll in it: polled
            invariant
                it.seq() == all,
                self.live() == live,
                self.pending() == old(self).pending(),
                retry@ == flush_retry(live, all.take(it.index() as int)),
                self.bad() == old(self).bad() + flush_failures(live, all.take(it.index() as int)),
        {
            let ghost upto = all.take(it.index() as int);
            proof {
                assert(all.take(it.index() + 1) =~= upto.push(poll));
                upto.lemma_filter_push(poll, flush_waits_fn(live));
                upto.lemma_filter_push(poll, flush_fails_fn(live));
            }
            let (i, verdict) = poll;
            if i < self.clients.len() {
                match verdict {
                    Ok(waiting) => {
                        if waiting {
                            retry.push(i);
                            proof {
                                assert(flush_waits(live, poll));
                                assert(flush_retry(live, upto.push(poll)) =~= flush_retry(
                                    live,
                                    upto,
                                ).push(i));
                            }
                        }
                    },
                    Err(_) => {
                        self.bad_clients.push(self.clients.id_at(i));
                        proof {
                            assert(flush_fails(live, poll));
                            assert(flush_failures(live, upto.push(poll)) =~= flush_failures(
                                live,
                                upto,
                            ).push(live[i as int].0));
                        }
                    },
                }
            }
        }
        assert(all.take(all.len() as int) =~= all);
        if retry.len() == 0 {
            self.remove_bad_clients();
        }
        retry
    }
}

} // verus!
