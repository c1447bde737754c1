//! Connection identifiers and inbound messages, shared by every transport.

use vstd::prelude::*;

pub mod registry;
pub mod udp;
pub mod ws;

verus! {

/// Number of identifiers that exist: every value of a `u32`.
pub const ID_SPACE: u64 = 0x1_0000_0000;

/// Stable handle of one client, unique for as long as its generator lives.
#[derive(Debug, Clone, Copy, PartialEq, Eq, Structural, PartialOrd, Ord, Hash)]
pub struct UserNetId(pub u32);

impl View for UserNetId {
    type V = u32;

    open spec fn view(&self) -> u32 {
        self.0
    }
}

/// The counter that issues identifiers, shared by all transports.
///
/// It only ever moves forward, so an identifier is never handed out twice,
/// whichever transport asks for it.
#[derive(Debug)]
pub struct NetIdGen {
    issued: u64,
}

impl NetIdGen {
    /// How many identifiers have been issued so far.
    pub closed spec fn issued(&self) -> nat {
        self.issued as nat
    }

    /// The counter never runs past the identifier space.
    pub open spec fn wf(&self) -> bool {
        self.issued() <= ID_SPACE
    }

    /// No identifier is left to issue.
    pub open spec fn exhausted(&self) -> bool {
        self.issued() >= ID_SPACE
    }

    /// A generator that has issued nothing yet.
    pub fn new() -> (r: Self)
        ensures
            r.wf(),
            r.issued() == 0,
    {
        NetIdGen { issued: 0 }
    }

    /// A generator whose first identifier is `first`, as if the identifiers
    /// below it had been issued already.
    pub fn starting_at(first: u32) -> (r: Self)
        ensures
            r.wf(),
            r.issued() == first,
    {
        NetIdGen { issued: first as u64 }
    }

    /// Number of identifiers issued so far.
    pub fn count(&self) -> (r: u64)
        ensures
            r == self.issued(),
    {
        self.issued
    }
}

impl UserNetId {
    /// Issues the next identifier: the number of identifiers issued before.
    ///
    /// Returns `None`, and leaves the generator as it is, once every 32-bit
    /// value has been handed out.
    pub fn next(ids: &mut NetIdGen) -> (r: Option<UserNetId>)
        requires
            old(ids).wf(),
        ensures
            final(ids).wf(),
            old(ids).exhausted() ==> r is None && final(ids).issued() == old(ids).issued(),
            !old(ids).exhausted() ==> r == Some(UserNetId(old(ids).issued() as u32))
                && final(ids).issued() == old(ids).issued() + 1,
    {
        if ids.issued >= ID_SPACE {
            None
        } else {
            let id = UserNetId(ids.issued as u32);
            ids.issued = ids.issued + 1;
            Some(id)
        }
    }
}

/// One inbound message: who sent it and what it holds.
#[derive(Debug)]
pub struct ClientMessage {
    net_id: UserNetId,
    data: Vec<u8>,
}

impl View for ClientMessage {
    type V = (UserNetId, Seq<u8>);

    closed spec fn view(&self) -> (UserNetId, Seq<u8>) {
        (self.net_id, self.data@)
    }
}

impl ClientMessage {
    /// A message that `net_id` sent, with `data` as its payload.
    pub fn new(net_id: UserNetId, data: Vec<u8>) -> (m: Self)
        ensures
            m@ == (net_id, data@),
    {
        ClientMessage { net_id, data }
    }

    /// The connection that sent the message.
    pub fn net_id(&self) -> (id: UserNetId)
        ensures
            id == self@.0,
    {
        self.net_id
    }

    /// The payload, as it came off the wire.
    pub fn data(&self) -> (d: &Vec<u8>)
        ensures
            d@ == self@.1,
    {
        &self.data
    }
}

/// The messages of a buffer, each as sender and payload.
pub open spec fn messages(buffer: Seq<ClientMessage>) -> Seq<(UserNetId, Seq<u8>)> {
    Seq::new(buffer.len(), |i: int| buffer[i]@)
}

/// Why a non-blocking call on a connection did not succeed.
#[derive(Debug, Clone, Copy, PartialEq, Eq, Structural)]
pub enum Fault {
    /// Nothing could be done right now; the connection is sound.
    WouldBlock,
    /// The underlying socket failed.
    Io,
    /// The peer or the caller broke the protocol, or the connection is closed.
    Protocol,
}

impl Fault {
    /// The connection can still be used after this fault.
    pub open spec fn transient(self) -> bool {
        self == Fault::WouldBlock
    }

    /// The connection can still be used after this fault.
    pub fn is_transient(self) -> (r: bool)
        ensures
            r == self.transient(),
    {
        self == Fault::WouldBlock
    }
}

/// `std::io::Error`, carried as it is: nothing inside it is visible.
#[verifier::external_type_specification]
#[verifier::external_body]
pub struct ExIoError(std::io::Error);

/// `std::io::Error::kind`, compared with `ErrorKind::WouldBlock`: whether the
/// error only says that the operation has to be tried again later. Nothing is
/// claimed about the answer.
#[verifier::external_body]
fn io_would_block(err: &std::io::Error) -> (r: bool) {
    err.kind() == std::io::ErrorKind::WouldBlock
}

/// The fault that an I/O error stands for: transient if it is a would-block
/// condition, a socket failure otherwise.
pub fn io_fault(err: &std::io::Error) -> (f: Fault)
    ensures
        f != Fault::Protocol,
{
    Fault::classify(Some(io_would_block(err)))
}

/// The fault that a failed call stands for, told from what is known of its
/// error: `Some` if it is an I/O error, with whether that is a would-block
/// condition, and `None` if it is any other error.
///
/// A would-block condition is transient, any other I/O error a failure of
/// the socket, and an error that is no I/O error a fault of the protocol.
pub open spec fn fault_for(io: Option<bool>) -> Fault {
    match io {
        Some(would_block) => if would_block {
            Fault::WouldBlock
        } else {
            Fault::Io
        },
        None => Fault::Protocol,
    }
}

impl Fault {
    /// The fault that a failed call stands for, told from what is known of
    /// its error: `Some` if it is an I/O error, with whether that is a
    /// would-block condition, and `None` if it is any other error.
    pub fn classify(io: Option<bool>) -> (f: Fault)
        ensures
            f == fault_for(io),
    {
        match io {
            Some(true) => Fault::WouldBlock,
            Some(false) => Fault::Io,
            None => Fault::Protocol,
        }
    }
}

} // verus!
