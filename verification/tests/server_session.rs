use bytes::Bytes;
use dashmap::DashSet;
use tui_chat_app::client::{ClientChatPacket, ClientInitPacket, ClientPacket};
use tui_chat_app::compat::{
    compat_info, CompatibilityError, CompatibilityInfo, MagicBytes, Version, PROTOCOL_MAGIC,
};
use tui_chat_app::registry::{admission, register, release, Admission, PeerKey};
use tui_chat_app::server::{
    ServerChatPacket, ServerInitFailReason, ServerInitPacket, ServerPacket,
};
use tui_chat_app::server_handler::{
    handle_chat_broadcast, handle_chat_client_recv, init_state, ServerEvent, ServerPhase,
    ServerSession,
};
use tui_chat_app::{FromPacketBytes, IntoPacketBytes};

const ME: u128 = 0x11111111222233334444555555555555;
const MSG: u128 = 0xaaaaaaaabbbbccccddddeeeeeeeeeeee;

fn hello(version: [u16; 3]) -> Bytes {
    ClientInitPacket::ClientInfo(CompatibilityInfo {
        magic_bytes: MagicBytes(PROTOCOL_MAGIC),
        version: Version(version),
    })
    .into_bytes()
}

fn chatting() -> ServerSession {
    let mut s = ServerSession::with_identity(ME);
    let acts = s.step(5_000, ServerEvent::Received(hello([0, 1, 0])));
    assert!(acts.send.is_some());
    assert_eq!(s.phase, ServerPhase::Chatting);
    s
}

fn decode(bytes: Option<Bytes>) -> ServerPacket {
    ServerPacket::from_bytes(bytes.expect("something is sent")).expect("a packet is sent")
}

#[test]
fn init_state_judges_the_first_packet() {
    assert_eq!(init_state(ClientPacket::Init(ClientInitPacket::ClientInfo(compat_info()))), Ok(()));
    assert_eq!(
        init_state(ClientPacket::Chat(ClientChatPacket::KeepAlive)),
        Err(ServerInitFailReason::InvalidState)
    );
    assert_eq!(
        init_state(ClientPacket::Chat(ClientChatPacket::RequestSelfMember)),
        Err(ServerInitFailReason::InvalidState)
    );
    assert_eq!(
        init_state(ClientPacket::Init(ClientInitPacket::ClientInfo(CompatibilityInfo {
            magic_bytes: MagicBytes(1),
            version: Version([0, 1, 0]),
        }))),
        Err(ServerInitFailReason::CompatibilityError(CompatibilityError::InvalidClient))
    );
}

#[test]
fn same_major_client_is_answered_with_success() {
    for version in [[0, 1, 0], [0, 2, 9], [0, 0, 0]] {
        let mut s = ServerSession::with_identity(ME);
        assert_eq!(s.phase, ServerPhase::Handshaking);
        let acts = s.step(250, ServerEvent::Received(hello(version)));
        assert_eq!(decode(acts.send), ServerPacket::Init(ServerInitPacket::Success(compat_info())));
        assert!(acts.publish.is_none());
        assert_eq!(s.phase, ServerPhase::Chatting);
        assert_eq!(s.client, ME);
        assert_eq!(s.heartbeat_due, 1250);
        assert!(!s.is_terminated());
    }
}

#[test]
fn other_major_client_is_answered_with_version_mismatch_and_the_session_ends() {
    let mut s = ServerSession::with_identity(ME);
    let acts = s.step(0, ServerEvent::Received(hello([1, 0, 0])));
    assert_eq!(
        decode(acts.send),
        ServerPacket::Init(ServerInitPacket::Fail {
            reason: ServerInitFailReason::CompatibilityError(
                CompatibilityError::VersionMismatch {
                    server: Version([0, 1, 0]),
                    client: Version([1, 0, 0]),
                }
            ),
        })
    );
    assert!(acts.publish.is_none());
    assert!(s.is_terminated());
}

#[test]
fn a_chat_packet_in_the_handshake_is_answered_with_invalid_state() {
    let mut s = ServerSession::with_identity(ME);
    let acts = s.step(0, ServerEvent::Received(ClientChatPacket::RequestSelfMember.into_bytes()));
    assert_eq!(
        decode(acts.send),
        ServerPacket::Init(ServerInitPacket::Fail { reason: ServerInitFailReason::InvalidState })
    );
    assert!(s.is_terminated());
}

#[test]
fn an_undecodable_first_buffer_ends_the_session_without_an_answer() {
    let mut s = ServerSession::with_identity(ME);
    let acts = s.step(0, ServerEvent::Received(Bytes::from(vec![9u8, 9, 9])));
    assert!(acts.send.is_none());
    assert!(acts.publish.is_none());
    assert!(s.is_terminated());

    let mut s = ServerSession::with_identity(ME);
    let acts = s.step(0, ServerEvent::TransportFailed);
    assert!(acts.send.is_none());
    assert!(s.is_terminated());
}

#[test]
fn timer_and_bus_are_ignored_during_the_handshake() {
    let mut s = ServerSession::with_identity(ME);
    let acts = s.step(10_000, ServerEvent::Heartbeat);
    assert!(acts.send.is_none());
    let acts = s.step(10_000, ServerEvent::Broadcast(ServerPacket::Chat(ServerChatPacket::KeepAlive)));
    assert!(acts.send.is_none());
    assert!(acts.publish.is_none());
    assert_eq!(s.phase, ServerPhase::Handshaking);
}

#[test]
fn a_message_is_trimmed_and_published_under_the_session_identity() {
    let mut s = chatting();
    let acts = s.step(
        5_100,
        ServerEvent::Received(
            ClientChatPacket::SendMessage { message_id: MSG, message: "  hello there \n".to_string() }
                .into_bytes(),
        ),
    );
    assert!(acts.send.is_none());
    assert_eq!(
        acts.publish,
        Some(ServerPacket::Chat(ServerChatPacket::NewMessage {
            sender_id: ME,
            message_id: MSG,
            message: "hello there".to_string(),
        }))
    );
    assert_eq!(s.phase, ServerPhase::Chatting);
}

#[test]
fn a_whitespace_only_message_is_never_published() {
    for body in ["   ", "", "\t\n", "\u{a0} \u{3000}"] {
        let mut s = chatting();
        let acts = s.step(
            5_100,
            ServerEvent::Received(
                ClientChatPacket::SendMessage { message_id: MSG, message: body.to_string() }
                    .into_bytes(),
            ),
        );
        assert!(acts.publish.is_none());
        assert!(acts.send.is_none());
        assert_eq!(s.phase, ServerPhase::Chatting);
        let d = handle_chat_client_recv(
            ClientPacket::Chat(ClientChatPacket::SendMessage {
                message_id: MSG,
                message: body.to_string(),
            }),
            ME,
        );
        assert!(d.publish.is_none() && d.reply.is_none() && !d.terminate);
    }
}

#[test]
fn a_request_for_the_own_identity_is_answered_to_the_client_alone() {
    let mut s = chatting();
    let acts = s.step(5_100, ServerEvent::Received(ClientChatPacket::RequestSelfMember.into_bytes()));
    assert_eq!(
        decode(acts.send),
        ServerPacket::Chat(ServerChatPacket::SelfMember { member_id: ME })
    );
    assert!(acts.publish.is_none());
}

#[test]
fn requests_that_are_not_implemented_are_accepted_and_ignored() {
    for p in [
        ClientChatPacket::RequestMembers,
        ClientChatPacket::EditMessage { message_id: MSG, message: "x".to_string() },
        ClientChatPacket::RemoveMessage { message_id: MSG },
        ClientChatPacket::KeepAlive,
    ] {
        let mut s = chatting();
        let acts = s.step(5_100, ServerEvent::Received(p.into_bytes()));
        assert!(acts.send.is_none());
        assert!(acts.publish.is_none());
        assert_eq!(s.phase, ServerPhase::Chatting);
    }
}

#[test]
fn an_init_packet_in_the_chat_phase_is_answered_with_invalid_state_and_ends_the_session() {
    let mut s = chatting();
    let acts = s.step(5_100, ServerEvent::Received(hello([0, 1, 0])));
    assert_eq!(decode(acts.send), ServerPacket::Chat(ServerChatPacket::InvalidState));
    assert!(acts.publish.is_none());
    assert!(s.is_terminated());
}

#[test]
fn an_undecodable_buffer_or_a_transport_failure_ends_the_chat() {
    let mut s = chatting();
    let acts = s.step(5_100, ServerEvent::Received(Bytes::new()));
    assert!(acts.send.is_none() && acts.publish.is_none());
    assert!(s.is_terminated());

    let mut s = chatting();
    let acts = s.step(5_100, ServerEvent::TransportFailed);
    assert!(acts.send.is_none() && acts.publish.is_none());
    assert!(s.is_terminated());
}

#[test]
fn the_heartbeat_sends_keep_alive_and_is_due_again_a_second_later() {
    let mut s = chatting();
    assert_eq!(s.heartbeat_due, 6_000);
    let acts = s.step(5_999, ServerEvent::Heartbeat);
    assert!(acts.send.is_none());
    assert_eq!(s.heartbeat_due, 6_000);
    let acts = s.step(6_003, ServerEvent::Heartbeat);
    assert_eq!(decode(acts.send), ServerPacket::Chat(ServerChatPacket::KeepAlive));
    assert_eq!(s.heartbeat_due, 7_003);
    // other traffic does not move the heartbeat
    let _ = s.step(6_500, ServerEvent::Received(ClientChatPacket::KeepAlive.into_bytes()));
    assert_eq!(s.heartbeat_due, 7_003);
}

#[test]
fn a_broadcast_event_is_forwarded_as_it_is() {
    let event = ServerPacket::Chat(ServerChatPacket::NewMessage {
        sender_id: 77,
        message_id: MSG,
        message: "from somebody".to_string(),
    });
    let mut s = chatting();
    let acts = s.step(5_100, ServerEvent::Broadcast(event.clone()));
    assert_eq!(decode(acts.send), event);
    assert!(acts.publish.is_none());
    assert_eq!(handle_chat_broadcast(&event), event.clone().into_bytes());
    // the publisher's own events are forwarded too
    let own = ServerPacket::Chat(ServerChatPacket::NewMessage {
        sender_id: ME,
        message_id: MSG,
        message: "mine".to_string(),
    });
    let acts = s.step(5_200, ServerEvent::Broadcast(own.clone()));
    assert_eq!(decode(acts.send), own);
}

#[test]
fn a_terminated_session_does_nothing() {
    let mut s = chatting();
    let _ = s.step(5_100, ServerEvent::TransportFailed);
    assert!(s.is_terminated());
    for event in [
        ServerEvent::Heartbeat,
        ServerEvent::Received(ClientChatPacket::RequestSelfMember.into_bytes()),
        ServerEvent::Broadcast(ServerPacket::Chat(ServerChatPacket::KeepAlive)),
        ServerEvent::TransportFailed,
    ] {
        let acts = s.step(99_000, event);
        assert!(acts.send.is_none() && acts.publish.is_none());
        assert!(s.is_terminated());
    }
}

#[test]
fn sessions_open_under_different_identities() {
    let a = ServerSession::open();
    let b = ServerSession::open();
    assert_eq!(a.phase, ServerPhase::Handshaking);
    assert_eq!(a.heartbeat_due, 0);
    assert_ne!(a.client, b.client);
    for s in [a, b] {
        // the identity is marked as a random one
        assert_eq!((s.client >> 76) & 0xf, 4);
        assert_eq!((s.client >> 62) & 0x3, 2);
    }
}

#[test]
fn a_second_connection_from_one_address_is_rejected_where_duplicates_are() {
    let registry: DashSet<PeerKey> = DashSet::new();
    let peer: PeerKey = (4, 0x7f00_0001);
    assert_eq!(register(&registry, peer, true), Admission::Admitted);
    assert!(registry.contains(&peer));
    assert_eq!(
        register(&registry, peer, true),
        Admission::Rejected(ServerInitFailReason::AlreadyConnected)
    );
    // the rejected connection is told so before anything else happens
    let told = ServerInitPacket::Fail { reason: ServerInitFailReason::AlreadyConnected };
    assert_eq!(
        ServerPacket::from_bytes(told.clone().into_bytes()),
        Some(ServerPacket::Init(told))
    );
    // another address is not affected, nor the same bits in the other family
    assert_eq!(register(&registry, (4, 0x7f00_0002), true), Admission::Admitted);
    assert_eq!(register(&registry, (6, 0x7f00_0001), true), Admission::Admitted);
    assert_eq!(register(&registry, (6, 0xffff_7f00_0001), true), Admission::Admitted);
    // once the first connection is released the address is free again
    release(&registry, peer);
    assert!(!registry.contains(&peer));
    assert!(registry.contains(&(6, 0x7f00_0001)));
    assert_eq!(register(&registry, peer, true), Admission::Admitted);
    // releasing what is not there is fine
    release(&registry, (4, 12345));
    release(&registry, (4, 12345));
}

#[test]
fn where_duplicates_are_allowed_every_connection_is_admitted() {
    let registry: DashSet<PeerKey> = DashSet::new();
    assert_eq!(register(&registry, (6, 1), false), Admission::Admitted);
    assert_eq!(register(&registry, (6, 1), false), Admission::Admitted);
    assert!(registry.contains(&(6, 1)));
    assert_eq!(admission(false, false), Admission::Admitted);
    assert_eq!(admission(false, true), Admission::Admitted);
    assert_eq!(admission(true, true), Admission::Admitted);
    assert_eq!(
        admission(true, false),
        Admission::Rejected(ServerInitFailReason::AlreadyConnected)
    );
}
