//! The server's side of one connection: the handshake, then the chat phase
//! with its heartbeat, its dispatch of client packets and its forwarding of
//! broadcast events.
//!
//! The session is a state machine. Whoever owns the transport runs the loop:
//! it waits for the next event, hands it to `step`, and does what comes
//! back.

use crate::client::{
    ClientChatPacket, ClientChatView, ClientInitPacket, ClientPacket, ClientPacketView,
};
use crate::clock::{one_second_after, second_after};
use crate::compat::{compat_info, local_info};
use crate::ident::{fresh_id, variant_of, version_of};
use crate::server::{
    put_server_packet, ServerChatPacket, ServerChatView, ServerInitFailReason, ServerInitPacket,
    ServerInitView, ServerPacket, ServerPacketView,
};
use crate::text::{is_blank, trim_str, trimmed, trimmed_is_empty_iff_blank};
use crate::wire::{bytes_contents, framed, FromPacketBytes, IntoPacketBytes};
use bytes::Bytes;
use vstd::prelude::*;

verus! {

/// What the handshake makes of a client's first packet: a fingerprint that
/// goes with the server's is fine, one that does not is refused for the
/// reason that the test gives, and any other packet is out of place.
pub open spec fn init_verdict(packet: ClientPacketView) -> Result<(), ServerInitFailReason> {
    match packet {
        ClientPacketView::Init(ClientInitPacket::ClientInfo(info)) => match local_info().verdict(
            info,
        ) {
            Ok(_) => Ok(()),
            Err(e) => Err(ServerInitFailReason::CompatibilityError(e)),
        },
        _ => Err(ServerInitFailReason::InvalidState),
    }
}

/// Judges the first packet of a connection.
pub fn init_state(packet: ClientPacket) -> (r: Result<(), ServerInitFailReason>)
    ensures
        r == init_verdict(packet@),
{
    let compat = match packet {
        ClientPacket::Init(ClientInitPacket::ClientInfo(i)) => i,
        _ => { return Err(ServerInitFailReason::InvalidState); },
    };
    match compat_info().compatible(compat) {
        Ok(_) => Ok(()),
        Err(e) => Err(ServerInitFailReason::CompatibilityError(e)),
    }
}

/// What the server does about one packet of the chat phase.
pub struct ChatDispatch {
    /// Sent to the client that the packet came from, and to nobody else.
    pub reply: Option<ServerPacket>,
    /// Published once to every session.
    pub publish: Option<ServerPacket>,
    /// The session ends after the reply.
    pub terminate: bool,
}

/// A dispatch as a value.
pub struct ChatDispatchView {
    pub reply: Option<ServerPacketView>,
    pub publish: Option<ServerPacketView>,
    pub terminate: bool,
}

impl View for ChatDispatch {
    type V = ChatDispatchView;

    open spec fn view(&self) -> ChatDispatchView {
        ChatDispatchView {
            reply: match self.reply {
                Some(p) => Some(p@),
                None => None,
            },
            publish: match self.publish {
                Some(p) => Some(p@),
                None => None,
            },
            terminate: self.terminate,
        }
    }
}

/// What a packet of the chat phase leads to, for the session of `client`.
///
/// A packet of the wrong envelope is answered with `InvalidState` and ends
/// the session. A message is trimmed; what is left of it is published as a
/// new message of this client, and a message of which nothing is left is
/// dropped without a word. A request for the client's own identity is
/// answered to the client alone. Every other request is accepted and does
/// nothing.
pub open spec fn chat_dispatch(packet: ClientPacketView, client: u128) -> ChatDispatchView {
    match packet {
        ClientPacketView::Chat(ClientChatView::SendMessage { message_id, message }) => {
            if trimmed(message).len() == 0 {
                ChatDispatchView { reply: None, publish: None, terminate: false }
            } else {
                ChatDispatchView {
                    reply: None,
                    publish: Some(
                        ServerPacketView::Chat(
                            ServerChatView::NewMessage {
                                sender_id: client,
                                message_id,
                                message: trimmed(message),
                            },
                        ),
                    ),
                    terminate: false,
                }
            }
        },
        ClientPacketView::Chat(ClientChatView::RequestSelfMember) => ChatDispatchView {
            reply: Some(ServerPacketView::Chat(ServerChatView::SelfMember { member_id: client })),
            publish: None,
            terminate: false,
        },
        ClientPacketView::Chat(_) => ChatDispatchView {
            reply: None,
            publish: None,
            terminate: false,
        },
        ClientPacketView::Init(_) => ChatDispatchView {
            reply: Some(ServerPacketView::Chat(ServerChatView::InvalidState)),
            publish: None,
            terminate: true,
        },
    }
}

/// Decides what to do about a packet that a client sent in the chat phase.
pub fn handle_chat_client_recv(packet: ClientPacket, client: u128) -> (d: ChatDispatch)
    ensures
        d@ == chat_dispatch(packet@, client),
{
    let packet = match packet {
        ClientPacket::Chat(p) => p,
        _ => {
            return ChatDispatch {
                reply: Some(ServerPacket::Chat(ServerChatPacket::InvalidState)),
                publish: None,
                terminate: true,
            };
        },
    };
    match packet {
        ClientChatPacket::SendMessage { message_id, message } => {
            let body = trim_str(message.as_str());
            if body.is_empty() {
                ChatDispatch { reply: None, publish: None, terminate: false }
            } else {
                ChatDispatch {
                    reply: None,
                    publish: Some(
                        ServerPacket::Chat(
                            ServerChatPacket::NewMessage {
                                sender_id: client,
                                message_id,
                                message: body.to_owned(),
                            },
                        ),
                    ),
                    terminate: false,
                }
            }
        },
        ClientChatPacket::RequestSelfMember => ChatDispatch {
            reply: Some(ServerPacket::Chat(ServerChatPacket::SelfMember { member_id: client })),
            publish: None,
            terminate: false,
        },
        _ => ChatDispatch { reply: None, publish: None, terminate: false },
    }
}

/// A message of nothing but whitespace is never published.
pub proof fn blank_message_is_never_published(message_id: u128, message: Seq<char>, client: u128)
    requires
        is_blank(message),
    ensures
        chat_dispatch(
            ClientPacketView::Chat(ClientChatView::SendMessage { message_id, message }),
            client,
        ).publish is None,
{
    trimmed_is_empty_iff_blank(message);
}

/// What is published carries the identity of the session that published it.
pub proof fn published_message_names_its_sender(packet: ClientPacketView, client: u128)
    ensures
        chat_dispatch(packet, client).publish matches Some(p) ==> p matches ServerPacketView::Chat(
            ServerChatView::NewMessage { sender_id, .. },
        ) && sender_id == client,
{
}

/// The bytes that forward a broadcast event to a client: the event as it
/// is, encoded.
pub fn handle_chat_broadcast(packet: &ServerPacket) -> (bytes: Bytes)
    ensures
        bytes_contents(bytes) == framed(put_server_packet(packet@)),
{
    packet.to_bytes()
}

// ---------------------------------------------------------------------------
// The session
// ---------------------------------------------------------------------------

#[derive(Debug, Clone, Copy, PartialEq, Eq, Structural)]
pub enum ServerPhase {
    /// Waiting for the client's fingerprint.
    Handshaking,
    /// The handshake succeeded.
    Chatting,
    /// The session is over; the loop ends and the peer is released.
    Terminated,
}

/// The state of one connection on the server.
#[derive(Debug, Clone, Copy)]
pub struct ServerSession {
    /// The identity of this session, under which its messages go out.
    pub client: u128,
    pub phase: ServerPhase,
    /// When the next heartbeat is due, on the session clock.
    pub heartbeat_due: u64,
}

/// What can happen to a session.
pub enum ServerEvent {
    /// The transport delivered a buffer from the client.
    Received(Bytes),
    /// Sending or receiving failed.
    TransportFailed,
    /// The heartbeat timer fired.
    Heartbeat,
    /// The bus delivered an event.
    Broadcast(ServerPacket),
}

/// An event as a value.
pub enum ServerEventView {
    Received(Seq<u8>),
    TransportFailed,
    Heartbeat,
    Broadcast(ServerPacketView),
}

impl View for ServerEvent {
    type V = ServerEventView;

    open spec fn view(&self) -> ServerEventView {
        match *self {
            ServerEvent::Received(b) => ServerEventView::Received(bytes_contents(b)),
            ServerEvent::TransportFailed => ServerEventView::TransportFailed,
            ServerEvent::Heartbeat => ServerEventView::Heartbeat,
            ServerEvent::Broadcast(p) => ServerEventView::Broadcast(p@),
        }
    }
}

/// What the owner of the transport has to do after a step.
pub struct ServerActions {
    /// Bytes to send to this session's client, in order and reliably.
    pub send: Option<Bytes>,
    /// An event to publish on the bus.
    pub publish: Option<ServerPacket>,
}

/// A step as a value: the session afterwards and what is to be done.
pub struct ServerOutcome {
    pub next: ServerSession,
    pub send: Option<Seq<u8>>,
    pub publish: Option<ServerPacketView>,
}

impl ServerActions {
    pub open spec fn sent(&self) -> Option<Seq<u8>> {
        match self.send {
            Some(b) => Some(bytes_contents(b)),
            None => None,
        }
    }

    pub open spec fn published(&self) -> Option<ServerPacketView> {
        match self.publish {
            Some(p) => Some(p@),
            None => None,
        }
    }
}

/// The bytes that carry a packet to a client.
pub open spec fn sent_packet(p: ServerPacketView) -> Option<Seq<u8>> {
    Some(framed(put_server_packet(p)))
}

/// What a session does about an event at the time `now`.
///
/// Handshaking: a buffer that holds no packet ends the session without an
/// answer. A packet is judged: on success the server answers with its own
/// fingerprint, the chat phase begins and the first heartbeat is due a
/// second later; on failure it answers with the reason and the session
/// ends.
///
/// Chatting: a heartbeat that is due sends `KeepAlive` and is due again a
/// second later. A buffer that holds no packet ends the session; a packet
/// is dispatched. A broadcast event is forwarded as it is.
///
/// A failure of the transport ends the session in any phase, and a session
/// that has ended does nothing more.
pub open spec fn server_step(s: ServerSession, now: u64, e: ServerEventView) -> ServerOutcome {
    let ended = ServerSession { phase: ServerPhase::Terminated, ..s };
    let idle = ServerOutcome { next: s, send: None, publish: None };
    match s.phase {
        ServerPhase::Terminated => idle,
        ServerPhase::Handshaking => match e {
            ServerEventView::Received(buffer) => match ClientPacket::decoded(buffer) {
                None => ServerOutcome { next: ended, send: None, publish: None },
                Some(packet) => match init_verdict(packet) {
                    Ok(_) => ServerOutcome {
                        next: ServerSession {
                            phase: ServerPhase::Chatting,
                            heartbeat_due: second_after(now),
                            ..s
                        },
                        send: sent_packet(
                            ServerPacketView::Init(ServerInitView::Success(local_info())),
                        ),
                        publish: None,
                    },
                    Err(reason) => ServerOutcome {
                        next: ended,
                        send: sent_packet(
                            ServerPacketView::Init(ServerInitView::Fail { reason: reason@ }),
                        ),
                        publish: None,
                    },
                },
            },
            ServerEventView::TransportFailed => ServerOutcome {
                next: ended,
                send: None,
                publish: None,
            },
            _ => idle,
        },
        ServerPhase::Chatting => match e {
            ServerEventView::Heartbeat => if now >= s.heartbeat_due {
                ServerOutcome {
                    next: ServerSession { heartbeat_due: second_after(now), ..s },
                    send: sent_packet(ServerPacketView::Chat(ServerChatView::KeepAlive)),
                    publish: None,
                }
            } else {
                idle
            },
            ServerEventView::Received(buffer) => match ClientPacket::decoded(buffer) {
                None => ServerOutcome { next: ended, send: None, publish: None },
                Some(packet) => {
                    let d = chat_dispatch(packet, s.client);
                    ServerOutcome {
                        next: if d.terminate {
                            ended
                        } else {
                            s
                        },
                        send: match d.reply {
                            Some(p) => sent_packet(p),
                            None => None,
                        },
                        publish: d.publish,
                    }
                },
            },
            ServerEventView::Broadcast(packet) => ServerOutcome {
                next: s,
                send: sent_packet(packet),
                publish: None,
            },
            ServerEventView::TransportFailed => ServerOutcome {
                next: ended,
                send: None,
                publish: None,
            },
        },
    }
}

impl ServerSession {
    /// A session at the start of its handshake, with the identity that it
    /// will have in the chat phase.
    pub fn with_identity(client: u128) -> (s: ServerSession)
        ensures
            s == (ServerSession { client, phase: ServerPhase::Handshaking, heartbeat_due: 0 }),
    {
        ServerSession { client, phase: ServerPhase::Handshaking, heartbeat_due: 0 }
    }

    /// A session at the start of its handshake, under an identity drawn at
    /// random.
    pub fn open() -> (s: ServerSession)
        ensures
            s.phase == ServerPhase::Handshaking,
            s.heartbeat_due == 0,
            version_of(s.client) == 4,
            variant_of(s.client) == 2,
    {
        ServerSession::with_identity(fresh_id())
    }

    /// Whether the session is over.
    pub fn is_terminated(&self) -> (b: bool)
        ensures
            b == (self.phase == ServerPhase::Terminated),
    {
        match self.phase {
            ServerPhase::Terminated => true,
            _ => false,
        }
    }

    /// Takes one event at the time `now` and says what is to be done.
    pub fn step(&mut self, now: u64, event: ServerEvent) -> (acts: ServerActions)
        ensures
            *final(self) == server_step(*old(self), now, event@).next,
            acts.sent() == server_step(*old(self), now, event@).send,
            acts.published() == server_step(*old(self), now, event@).publish,
    {
        match self.phase {
            ServerPhase::Terminated => ServerActions { send: None, publish: None },
            ServerPhase::Handshaking => match event {
                ServerEvent::Received(buffer) => match ClientPacket::from_bytes(buffer) {
                    None => {
                        self.phase = ServerPhase::Terminated;
                        ServerActions { send: None, publish: None }
                    },
                    Some(packet) => match init_state(packet) {
                        Ok(_) => {
                            self.phase = ServerPhase::Chatting;
                            self.heartbeat_due = one_second_after(now);
                            let answer = ServerInitPacket::Success(compat_info());
                            ServerActions { send: Some(answer.into_bytes()), publish: None }
                        },
                        Err(reason) => {
                            self.phase = ServerPhase::Terminated;
                            let answer = ServerInitPacket::Fail { reason };
                            ServerActions { send: Some(answer.into_bytes()), publish: None }
                        },
                    },
                },
                ServerEvent::TransportFailed => {
                    self.phase = ServerPhase::Terminated;
                    ServerActions { send: None, publish: None }
                },
                _ => ServerActions { send: None, publish: None },
            },
            ServerPhase::Chatting => match event {
                ServerEvent::Heartbeat => {
                    if now >= self.heartbeat_due {
                        self.heartbeat_due = one_second_after(now);
                        ServerActions {
                            send: Some(ServerChatPacket::KeepAlive.into_bytes()),
                            publish: None,
                        }
                    } else {
                        ServerActions { send: None, publish: None }
                    }
                },
                ServerEvent::Received(buffer) => match ClientPacket::from_bytes(buffer) {
                    None => {
                        self.phase = ServerPhase::Terminated;
                        ServerActions { send: None, publish: None }
                    },
                    Some(packet) => {
                        let d = handle_chat_client_recv(packet, self.client);
                        if d.terminate {
                            self.phase = ServerPhase::Terminated;
                        }
                        let send = match d.reply {
                            Some(p) => Some(p.into_bytes()),
                            None => None,
                        };
                        ServerActions { send, publish: d.publish }
                    },
                },
                ServerEvent::Broadcast(packet) => ServerActions {
                    send: Some(handle_chat_broadcast(&packet)),
                    publish: None,
                },
                ServerEvent::TransportFailed => {
                    self.phase = ServerPhase::Terminated;
                    ServerActions { send: None, publish: None }
                },
            },
        }
    }
}

/// A session that has ended stays ended and asks for nothing.
pub proof fn terminated_session_is_silent(s: ServerSession, now: u64, e: ServerEventView)
    requires
        s.phase == ServerPhase::Terminated,
    ensures
        server_step(s, now, e).next == s,
        server_step(s, now, e).send is None,
        server_step(s, now, e).publish is None,
{
}

/// Nothing is published, and no chat packet is answered, before the
/// handshake has succeeded: a session that is not chatting never publishes.
pub proof fn only_chatting_sessions_publish(s: ServerSession, now: u64, e: ServerEventView)
    requires
        s.phase != ServerPhase::Chatting,
    ensures
        server_step(s, now, e).publish is None,
{
}

/// The identity of a session never changes.
pub proof fn session_identity_is_stable(s: ServerSession, now: u64, e: ServerEventView)
    ensures
        server_step(s, now, e).next.client == s.client,
{
}

} // verus!
