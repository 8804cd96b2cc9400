//! The client's side of a connection: the handshake, then the chat phase
//! that merges the heartbeat, the packets that the user interface wants
//! sent, and the packets that the server sends.
//!
//! Like the server's session this is a state machine; the owner of the
//! transport runs the loop.

use crate::client::{
    put_client_packet, ClientChatPacket, ClientChatView, ClientInitPacket, ClientPacket,
    ClientPacketView,
};
use crate::clock::{one_second_after, second_after};
use crate::compat::{compat_info, local_info, CompatibilityError};
use crate::server::{
    FailReasonView, ServerInitFailReason, ServerInitPacket, ServerInitView, ServerPacket,
    ServerPacketView,
};
use crate::wire::{bytes_contents, framed, FromPacketBytes, IntoPacketBytes};
use bytes::Bytes;
use vstd::prelude::*;
use vstd::string::StringExecFns;

verus! {

/// Why a client's session ended.
#[derive(Debug, Clone, PartialEq, Eq)]
pub enum SessionEnd {
    /// The server claimed success with a fingerprint that does not go with
    /// this client's.
    Incompatible(CompatibilityError),
    /// The server declined the handshake.
    Refused(ServerInitFailReason),
    /// The server answered the handshake with a packet that is no answer to
    /// it.
    InvalidState,
    /// The transport failed, or delivered what is no packet.
    Closed,
}

/// An ending as a value.
pub enum SessionEndView {
    Incompatible(CompatibilityError),
    Refused(FailReasonView),
    InvalidState,
    Closed,
}

impl View for SessionEnd {
    type V = SessionEndView;

    open spec fn view(&self) -> SessionEndView {
        match *self {
            SessionEnd::Incompatible(e) => SessionEndView::Incompatible(e),
            SessionEnd::Refused(r) => SessionEndView::Refused(r@),
            SessionEnd::InvalidState => SessionEndView::InvalidState,
            SessionEnd::Closed => SessionEndView::Closed,
        }
    }
}

impl SessionEnd {
    /// What the ending says to a person.
    pub open spec fn message(self) -> Seq<char> {
        match self {
            SessionEnd::Incompatible(e) => e.message(),
            SessionEnd::Refused(r) => r.message(),
            SessionEnd::InvalidState => "Invalid state"@,
            SessionEnd::Closed => "Closed"@,
        }
    }

    /// What the ending says to a person.
    pub fn to_text(&self) -> (text: String)
        ensures
            text@ == self.message(),
    {
        match self {
            SessionEnd::Incompatible(e) => e.to_text(),
            SessionEnd::Refused(r) => r.to_text(),
            SessionEnd::InvalidState => String::from_str("Invalid state"),
            SessionEnd::Closed => String::from_str("Closed"),
        }
    }
}

#[derive(Debug, Clone, Copy, PartialEq, Eq, Structural)]
pub enum ClientPhase {
    /// The fingerprint is sent; the server's answer is awaited.
    Handshaking,
    Chatting,
    /// The session is over. Whether to connect again is for others to say.
    Terminated,
}

/// The state of the client's connection.
#[derive(Debug, Clone, Copy)]
pub struct ClientSession {
    pub phase: ClientPhase,
    /// When the next heartbeat is due, on the session clock.
    pub heartbeat_due: u64,
}

/// What can happen to a client's session.
pub enum ClientEvent {
    /// The transport delivered a buffer from the server.
    Received(Bytes),
    /// Sending or receiving failed.
    TransportFailed,
    /// The heartbeat timer fired.
    Heartbeat,
    /// The user interface wants a packet sent.
    Outbound(ClientPacket),
}

/// An event as a value.
pub enum ClientEventView {
    Received(Seq<u8>),
    TransportFailed,
    Heartbeat,
    Outbound(ClientPacketView),
}

impl View for ClientEvent {
    type V = ClientEventView;

    open spec fn view(&self) -> ClientEventView {
        match *self {
            ClientEvent::Received(b) => ClientEventView::Received(bytes_contents(b)),
            ClientEvent::TransportFailed => ClientEventView::TransportFailed,
            ClientEvent::Heartbeat => ClientEventView::Heartbeat,
            ClientEvent::Outbound(p) => ClientEventView::Outbound(p@),
        }
    }
}

/// What the owner of the transport has to do after a step.
pub struct ClientActions {
    /// Bytes to send to the server, in order and reliably.
    pub send: Option<Bytes>,
    /// A packet of the server to hand to the local view.
    pub deliver: Option<ServerPacket>,
    /// Set when this step ended the session: the reason to report.
    pub ended: Option<SessionEnd>,
}

/// A step as a value.
pub struct ClientOutcome {
    pub next: ClientSession,
    pub send: Option<Seq<u8>>,
    pub deliver: Option<ServerPacketView>,
    pub ended: Option<SessionEndView>,
}

impl ClientActions {
    pub open spec fn sent(&self) -> Option<Seq<u8>> {
        match self.send {
            Some(b) => Some(bytes_contents(b)),
            None => None,
        }
    }

    pub open spec fn delivered(&self) -> Option<ServerPacketView> {
        match self.deliver {
            Some(p) => Some(p@),
            None => None,
        }
    }

    pub open spec fn ending(&self) -> Option<SessionEndView> {
        match self.ended {
            Some(e) => Some(e@),
            None => None,
        }
    }
}

/// The bytes that open the handshake: this client's fingerprint.
pub open spec fn hello() -> Seq<u8> {
    framed(put_client_packet(ClientPacketView::Init(ClientInitPacket::ClientInfo(local_info()))))
}

/// What the handshake makes of the server's answer. A success is tested
/// once more on this side, with the server's fingerprint in the server's
/// place: a server may be wrong about it.
pub open spec fn handshake_verdict(answer: ServerPacketView) -> Result<(), SessionEndView> {
    match answer {
        ServerPacketView::Init(ServerInitView::Success(info)) => match info.verdict(local_info()) {
            Ok(_) => Ok(()),
            Err(e) => Err(SessionEndView::Incompatible(e)),
        },
        ServerPacketView::Init(ServerInitView::Fail { reason }) => Err(
            SessionEndView::Refused(reason),
        ),
        _ => Err(SessionEndView::InvalidState),
    }
}

/// What a session does about an event at the time `now`.
///
/// Handshaking: the first buffer decides. One that holds no packet ends
/// the session as closed; a packet is judged, and either the chat phase
/// begins, with the first heartbeat due a second later, or the session ends
/// with the reason.
///
/// Chatting: a heartbeat that is due sends `KeepAlive` and is due again a
/// second later. A packet from the user interface is sent as it is. A
/// buffer from the server is decoded and handed on; one that holds no
/// packet ends the session.
///
/// A failure of the transport ends the session in any phase, and a session
/// that has ended does nothing more.
pub open spec fn client_step(s: ClientSession, now: u64, e: ClientEventView) -> ClientOutcome {
    let ended = ClientSession { phase: ClientPhase::Terminated, ..s };
    let idle = ClientOutcome { next: s, send: None, deliver: None, ended: None };
    let closed = ClientOutcome {
        next: ended,
        send: None,
        deliver: None,
        ended: Some(SessionEndView::Closed),
    };
    match s.phase {
        ClientPhase::Terminated => idle,
        ClientPhase::Handshaking => match e {
            ClientEventView::Received(buffer) => match ServerPacket::decoded(buffer) {
                None => closed,
                Some(answer) => match handshake_verdict(answer) {
                    Ok(_) => ClientOutcome {
                        next: ClientSession {
                            phase: ClientPhase::Chatting,
                            heartbeat_due: second_after(now),
                        },
                        send: None,
                        deliver: None,
                        ended: None,
                    },
                    Err(why) => ClientOutcome {
                        next: ended,
                        send: None,
                        deliver: None,
                        ended: Some(why),
                    },
                },
            },
            ClientEventView::TransportFailed => closed,
            _ => idle,
        },
        ClientPhase::Chatting => match e {
            ClientEventView::Heartbeat => if now >= s.heartbeat_due {
                ClientOutcome {
                    next: ClientSession { heartbeat_due: second_after(now), ..s },
                    send: Some(
                        framed(put_client_packet(ClientPacketView::Chat(ClientChatView::KeepAlive))),
                    ),
                    deliver: None,
                    ended: None,
                }
            } else {
                idle
            },
            ClientEventView::Outbound(packet) => ClientOutcome {
                next: s,
                send: Some(framed(put_client_packet(packet))),
                deliver: None,
                ended: None,
            },
            ClientEventView::Received(buffer) => match ServerPacket::decoded(buffer) {
                None => closed,
                Some(packet) => ClientOutcome {
                    next: s,
                    send: None,
                    deliver: Some(packet),
                    ended: None,
                },
            },
            ClientEventView::TransportFailed => closed,
        },
    }
}

/// Judges the server's answer to the handshake.
pub fn judge_answer(answer: ServerPacket) -> (r: Result<(), SessionEnd>)
    ensures
        match r {
            Ok(_) => handshake_verdict(answer@) is Ok,
            Err(why) => handshake_verdict(answer@) == Err::<(), SessionEndView>(why@),
        },
{
    match answer {
        ServerPacket::Init(ServerInitPacket::Success(info)) => {
            match info.compatible(compat_info()) {
                Ok(_) => Ok(()),
                Err(e) => Err(SessionEnd::Incompatible(e)),
            }
        },
        ServerPacket::Init(ServerInitPacket::Fail { reason }) => Err(SessionEnd::Refused(reason)),
        _ => Err(SessionEnd::InvalidState),
    }
}

impl ClientSession {
    /// A session on a fresh connection, and the bytes to send at once: the
    /// client's fingerprint.
    pub fn connect() -> (r: (ClientSession, Bytes))
        ensures
            r.0 == (ClientSession { phase: ClientPhase::Handshaking, heartbeat_due: 0 }),
            bytes_contents(r.1) == hello(),
    {
        let first = ClientInitPacket::ClientInfo(compat_info()).into_bytes();
        (ClientSession { phase: ClientPhase::Handshaking, heartbeat_due: 0 }, first)
    }

    /// Whether the session is over.
    pub fn is_terminated(&self) -> (b: bool)
        ensures
            b == (self.phase == ClientPhase::Terminated),
    {
        match self.phase {
            ClientPhase::Terminated => true,
            _ => false,
        }
    }

    /// Takes one event at the time `now` and says what is to be done.
    pub fn step(&mut self, now: u64, event: ClientEvent) -> (acts: ClientActions)
        ensures
            *final(self) == client_step(*old(self), now, event@).next,
            acts.sent() == client_step(*old(self), now, event@).send,
            acts.delivered() == client_step(*old(self), now, event@).deliver,
            acts.ending() == client_step(*old(self), now, event@).ended,
    {
        match self.phase {
            ClientPhase::Terminated => ClientActions { send: None, deliver: None, ended: None },
            ClientPhase::Handshaking => match event {
                ClientEvent::Received(buffer) => match ServerPacket::from_bytes(buffer) {
                    None => {
                        self.phase = ClientPhase::Terminated;
                        ClientActions { send: None, deliver: None, ended: Some(SessionEnd::Closed) }
                    },
                    Some(answer) => match judge_answer(answer) {
                        Ok(_) => {
                            self.phase = ClientPhase::Chatting;
                            self.heartbeat_due = one_second_after(now);
                            ClientActions { send: None, deliver: None, ended: None }
                        },
                        Err(why) => {
                            self.phase = ClientPhase::Terminated;
                            ClientActions { send: None, deliver: None, ended: Some(why) }
                        },
                    },
                },
                ClientEvent::TransportFailed => {
                    self.phase = ClientPhase::Terminated;
                    ClientActions { send: None, deliver: None, ended: Some(SessionEnd::Closed) }
                },
                _ => ClientActions { send: None, deliver: None, ended: None },
            },
            ClientPhase::Chatting => match event {
                ClientEvent::Heartbeat => {
                    if now >= self.heartbeat_due {
                        self.heartbeat_due = one_second_after(now);
                        ClientActions {
                            send: Some(ClientChatPacket::KeepAlive.into_bytes()),
                            deliver: None,
                            ended: None,
                        }
                    } else {
                        ClientActions { send: None, deliver: None, ended: None }
                    }
                },
                ClientEvent::Outbound(packet) => ClientActions {
                    send: Some(packet.into_bytes()),
                    deliver: None,
                    ended: None,
                },
                ClientEvent::Received(buffer) => match ServerPacket::from_bytes(buffer) {
                    None => {
                        self.phase = ClientPhase::Terminated;
                        ClientActions { send: None, deliver: None, ended: Some(SessionEnd::Closed) }
                    },
                    Some(packet) => ClientActions {
                        send: None,
                        deliver: Some(packet),
                        ended: None,
                    },
                },
                ClientEvent::TransportFailed => {
                    self.phase = ClientPhase::Terminated;
                    ClientActions { send: None, deliver: None, ended: Some(SessionEnd::Closed) }
                },
            },
        }
    }
}

/// A step reports an ending exactly when it ends the session.
pub proof fn ending_is_reported_once(s: ClientSession, now: u64, e: ClientEventView)
    ensures
        client_step(s, now, e).ended is Some <==> (s.phase != ClientPhase::Terminated
            && client_step(s, now, e).next.phase == ClientPhase::Terminated),
{
}

/// Nothing reaches the local view before the handshake has succeeded.
pub proof fn only_chatting_sessions_deliver(s: ClientSession, now: u64, e: ClientEventView)
    requires
        s.phase != ClientPhase::Chatting,
    ensures
        client_step(s, now, e).deliver is None,
{
}

} // verus!
