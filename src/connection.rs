//! The decisions of one connection: the join handshake, then forwarding
//! each message until the stream fails or the connection is evicted.
use vstd::prelude::*;

use crate::engine::utf8_text;
use crate::envelope::ServerPacket;
use crate::opcode::Opcode;
use crate::packet::{Packet, ProtocolError};
use vstd::utf8::{decode_utf8, encode_utf8_decode_utf8, valid_utf8};

verus! {

/// The username that a handshake message gives: a `Join` whose payload is
/// UTF-8 text.
pub open spec fn join_name(p: Packet) -> Option<Seq<char>> {
    if p.op == Opcode::Join && valid_utf8(p.payload@) {
        Some(decode_utf8(p.payload@))
    } else {
        None
    }
}

/// Why a handshake failed; the connection is then dropped without a reply.
#[derive(Clone, Copy, Debug, PartialEq, Eq, Structural)]
pub enum HandshakeError {
    /// The first message was not a `Join` with a UTF-8 username.
    InvalidJoin,
    /// No whole message came before the stream failed.
    NoJoin,
}

#[derive(Clone, Debug)]
pub enum ConnState {
    AwaitingJoin,
    Active(String),
    Terminated,
}

/// What happened on a connection.
#[derive(Clone, Debug)]
pub enum ConnEvent {
    /// A whole message was read.
    Received(Packet),
    /// The stream failed or closed before a whole message.
    ReadFailed,
    /// The liveness sweep evicted the connection.
    Killed,
}

/// What the connection does next.
#[derive(Clone, Debug)]
pub enum ConnAction {
    Nothing,
    /// Hand this message to the processor.
    Forward(ServerPacket),
    /// Close the stream and stop.
    Close,
}

/// One connection: its id and where it stands.
#[derive(Clone, Debug)]
pub struct Connection {
    pub id: i32,
    pub addr: String,
    pub state: ConnState,
}

impl Connection {
    pub fn new(id: i32, addr: String) -> (r: Connection)
        ensures
            r.id == id,
            r.addr@ == addr@,
            r.state is AwaitingJoin,
    {
        Connection { id, addr, state: ConnState::AwaitingJoin }
    }

    /// The handshake: the first read must give a `Join` with a username.
    pub fn join(first: Result<Packet, ProtocolError>) -> (r: Result<String, HandshakeError>)
        ensures
            match first {
                Ok(p) => match join_name(p) {
                    Some(name) => r matches Ok(s) && s@ == name,
                    None => r == Err::<String, HandshakeError>(HandshakeError::InvalidJoin),
                },
                Err(_) => r == Err::<String, HandshakeError>(HandshakeError::NoJoin),
            },
    {
        match first {
            Ok(p) => {
                if !matches!(p.op, Opcode::Join) {
                    return Err(HandshakeError::InvalidJoin);
                }
                match utf8_text(p.payload.as_slice()) {
                    Some(name) => {
                        proof {
                            encode_utf8_decode_utf8(name@);
                        }
                        Ok(name)
                    },
                    None => Err(HandshakeError::InvalidJoin),
                }
            },
            Err(_) => Err(HandshakeError::NoJoin),
        }
    }

    /// Moves the connection on by one event. Waiting for the handshake, a
    /// good `Join` makes it active and anything else ends it; once active,
    /// each message is forwarded with the connection's routing data, and a
    /// failed read or an eviction ends it; an ended connection stays ended.
    pub fn step(&mut self, ev: ConnEvent) -> (r: ConnAction)
        ensures
            final(self).id == old(self).id,
            final(self).addr == old(self).addr,
            match old(self).state {
                ConnState::AwaitingJoin => match ev {
                    ConnEvent::Received(p) => match join_name(p) {
                        Some(name) => final(self).state matches ConnState::Active(u) && u@ == name
                            && r is Nothing,
                        None => final(self).state is Terminated && r is Close,
                    },
                    _ => final(self).state is Terminated && r is Close,
                },
                ConnState::Active(u) => match ev {
                    ConnEvent::Received(p) => (r matches ConnAction::Forward(sp) && sp.packet == p
                        && sp.user@ == u@ && sp.id == old(self).id && sp.addr@ == old(self).addr@)
                        && final(self).state == old(self).state,
                    _ => final(self).state is Terminated && r is Close,
                },
                ConnState::Terminated => final(self).state is Terminated && r is Nothing,
            },
    {
        match &self.state {
            ConnState::AwaitingJoin => match ev {
                ConnEvent::Received(p) => match Connection::join(Ok(p)) {
                    Ok(name) => {
                        self.state = ConnState::Active(name);
                        ConnAction::Nothing
                    },
                    Err(_) => {
                        self.state = ConnState::Terminated;
                        ConnAction::Close
                    },
                },
                _ => {
                    self.state = ConnState::Terminated;
                    ConnAction::Close
                },
            },
            ConnState::Active(u) => match ev {
                ConnEvent::Received(p) => {
                    let sp = ServerPacket::new(p, self.addr.clone(), self.id, u.clone());
                    ConnAction::Forward(sp)
                },
                _ => {
                    self.state = ConnState::Terminated;
                    ConnAction::Close
                },
            },
            ConnState::Terminated => ConnAction::Nothing,
        }
    }
}

} // verus!
