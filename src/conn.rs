use vstd::prelude::*;

use crate::protocol::{AttachStatus, ConnectHeader};

verus! {

/// Where a client socket stands in its one exchange with the daemon.
#[derive(Clone, Copy, Debug, PartialEq, Eq, Structural)]
pub enum ConnState {
    /// Nothing has been sent yet.
    Fresh,
    /// An attach header went out; its reply decides whether the relay begins.
    HeaderSent,
    /// Any other header went out; the one reply that it calls for ends the
    /// exchange.
    AwaitingReply,
    /// The attach relay runs on this socket.
    Relaying,
    /// The socket is done with.
    Closed,
}

/// What happened on a client socket.
#[derive(Clone, Copy, Debug, PartialEq, Eq, Structural)]
pub enum ConnEvent {
    /// The connect header was written; `attach` tells whether it was an attach.
    HeaderWritten { attach: bool },
    /// The reply to the request was read; `relay` tells whether it lets the
    /// attach relay begin.
    ReplyRead { relay: bool },
    /// One of the relay's pumps exited.
    RelayEnded,
}

/// An event that the state of the socket does not allow.
#[derive(Clone, Copy, Debug, PartialEq, Eq, Structural)]
pub struct ProtocolViolation {
    pub state: ConnState,
    pub event: ConnEvent,
}

/// The state that `e` leads to from `s`, if `e` is allowed there.
pub open spec fn next_state(s: ConnState, e: ConnEvent) -> Option<ConnState> {
    match (s, e) {
        (ConnState::Fresh, ConnEvent::HeaderWritten { attach }) => if attach {
            Some(ConnState::HeaderSent)
        } else {
            Some(ConnState::AwaitingReply)
        },
        (ConnState::HeaderSent, ConnEvent::ReplyRead { relay }) => if relay {
            Some(ConnState::Relaying)
        } else {
            Some(ConnState::Closed)
        },
        (ConnState::AwaitingReply, ConnEvent::ReplyRead { relay }) => if relay {
            None
        } else {
            Some(ConnState::Closed)
        },
        (ConnState::Relaying, ConnEvent::RelayEnded) => Some(ConnState::Closed),
        _ => None,
    }
}

impl ConnState {
    /// Moves a socket's state on by one event; an event out of place is a
    /// protocol violation.
    pub fn step(self, e: ConnEvent) -> (r: Result<ConnState, ProtocolViolation>)
        ensures
            r == match next_state(self, e) {
                Some(s) => Ok(s),
                None => Err(ProtocolViolation { state: self, event: e }),
            },
    {
        match (self, e) {
            (ConnState::Fresh, ConnEvent::HeaderWritten { attach }) => {
                if attach {
                    Ok(ConnState::HeaderSent)
                } else {
                    Ok(ConnState::AwaitingReply)
                }
            },
            (ConnState::HeaderSent, ConnEvent::ReplyRead { relay }) => {
                if relay {
                    Ok(ConnState::Relaying)
                } else {
                    Ok(ConnState::Closed)
                }
            },
            (ConnState::AwaitingReply, ConnEvent::ReplyRead { relay }) => {
                if relay {
                    Err(ProtocolViolation { state: self, event: e })
                } else {
                    Ok(ConnState::Closed)
                }
            },
            (ConnState::Relaying, ConnEvent::RelayEnded) => Ok(ConnState::Closed),
            _ => Err(ProtocolViolation { state: self, event: e }),
        }
    }
}

impl ConnectHeader {
    pub open spec fn spec_is_attach(&self) -> bool {
        self is Attach
    }

    /// Whether this header asks to attach, and so may lead to the relay.
    pub fn is_attach(&self) -> (r: bool)
        ensures
            r == self.spec_is_attach(),
    {
        match self {
            ConnectHeader::Attach(_) => true,
            _ => false,
        }
    }
}

impl AttachStatus {
    pub open spec fn spec_enters_relay(&self) -> bool {
        self is Attached || self is Created
    }

    /// Whether the client goes on to the relay: only after `Attached` or
    /// `Created`. The other statuses are the daemon's refusal.
    pub fn enters_relay(&self) -> (r: bool)
        ensures
            r == self.spec_enters_relay(),
    {
        match self {
            AttachStatus::Attached => true,
            AttachStatus::Created => true,
            _ => false,
        }
    }
}

/// A connect header on the wire: its encoded length as a little-endian
/// `u32`, then the encoding.
pub open spec fn connect_frame(encoded: Seq<u8>) -> Seq<u8> {
    vstd::bytes::spec_u32_to_le_bytes(encoded.len() as u32) + encoded
}

/// Prefixes an encoded connect header with its length, so that the daemon
/// can bound its read before decoding; `None` where the length does not fit
/// the prefix.
pub fn frame_connect_header(encoded: &[u8]) -> (r: Option<Vec<u8>>)
    ensures
        encoded@.len() <= u32::MAX <==> r is Some,
        r matches Some(v) ==> v@ == connect_frame(encoded@),
{
    if encoded.len() > 0xffff_ffff {
        return None;
    }
    let mut out = vstd::bytes::u32_to_le_bytes(encoded.len() as u32);
    let mut i: usize = 0;
    while i < encoded.len()
        invariant
            0 <= i <= encoded@.len(),
            encoded@.len() <= u32::MAX,
            out@ == vstd::bytes::spec_u32_to_le_bytes(encoded@.len() as u32) + encoded@.subrange(
                0,
                i as int,
            ),
        decreases encoded@.len() - i,
    {
        out.push(encoded[i]);
        i += 1;
        assert(encoded@.subrange(0, i as int) == encoded@.subrange(0, i - 1) + seq![encoded@[i - 1]]);
    }
    assert(encoded@.subrange(0, i as int) == encoded@);
    Some(out)
}

/// The length that the prefix of a framed connect header states, and the
/// bytes after it, give back the encoding that was framed.
pub proof fn lemma_connect_frame_round_trip(encoded: Seq<u8>)
    requires
        encoded.len() <= u32::MAX,
    ensures
        vstd::bytes::spec_u32_from_le_bytes(connect_frame(encoded).subrange(0, 4)) == encoded.len(),
        connect_frame(encoded).subrange(4, connect_frame(encoded).len() as int) == encoded,
{
    vstd::bytes::lemma_auto_spec_u32_to_from_le_bytes();
    let f = connect_frame(encoded);
    assert(f.subrange(0, 4) == vstd::bytes::spec_u32_to_le_bytes(encoded.len() as u32));
    assert(f.subrange(4, f.len() as int) == encoded);
}

} // verus!
