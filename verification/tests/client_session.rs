use bytes::Bytes;
use tui_chat_app::client::{ClientChatPacket, ClientInitPacket, ClientPacket};
use tui_chat_app::client_handler::{
    judge_answer, ClientEvent, ClientPhase, ClientSession, SessionEnd,
};
use tui_chat_app::compat::{
    compat_info, CompatibilityError, CompatibilityInfo, MagicBytes, Version, PROTOCOL_MAGIC,
};
use tui_chat_app::server::{
    ServerChatPacket, ServerInitFailReason, ServerInitPacket, ServerPacket,
};
use tui_chat_app::server_handler::{ServerEvent, ServerPhase, ServerSession};
use tui_chat_app::{FromPacketBytes, IntoPacketBytes};

fn chatting() -> ClientSession {
    let (mut s, _) = ClientSession::connect();
    let acts =
        s.step(2_000, ClientEvent::Received(ServerInitPacket::Success(compat_info()).into_bytes()));
    assert!(acts.ended.is_none());
    assert_eq!(s.phase, ClientPhase::Chatting);
    s
}

#[test]
fn the_client_opens_with_its_fingerprint() {
    let (s, first) = ClientSession::connect();
    assert_eq!(s.phase, ClientPhase::Handshaking);
    assert_eq!(
        ClientPacket::from_bytes(first),
        Some(ClientPacket::Init(ClientInitPacket::ClientInfo(compat_info())))
    );
}

#[test]
fn success_with_a_compatible_fingerprint_starts_the_chat() {
    let (mut s, _) = ClientSession::connect();
    let answer = ServerInitPacket::Success(CompatibilityInfo {
        magic_bytes: MagicBytes(PROTOCOL_MAGIC),
        version: Version([0, 44, 3]),
    });
    let acts = s.step(700, ClientEvent::Received(answer.into_bytes()));
    assert!(acts.send.is_none() && acts.deliver.is_none() && acts.ended.is_none());
    assert_eq!(s.phase, ClientPhase::Chatting);
    assert_eq!(s.heartbeat_due, 1_700);
}

#[test]
fn success_with_an_incompatible_fingerprint_is_not_believed() {
    let (mut s, _) = ClientSession::connect();
    let answer = ServerInitPacket::Success(CompatibilityInfo {
        magic_bytes: MagicBytes(PROTOCOL_MAGIC),
        version: Version([2, 0, 0]),
    });
    let acts = s.step(0, ClientEvent::Received(answer.into_bytes()));
    assert_eq!(
        acts.ended,
        Some(SessionEnd::Incompatible(CompatibilityError::VersionMismatch {
            server: Version([2, 0, 0]),
            client: Version([0, 1, 0]),
        }))
    );
    assert!(s.is_terminated());

    let (mut s, _) = ClientSession::connect();
    let answer = ServerInitPacket::Success(CompatibilityInfo {
        magic_bytes: MagicBytes(5),
        version: Version([0, 1, 0]),
    });
    let acts = s.step(0, ClientEvent::Received(answer.into_bytes()));
    assert_eq!(acts.ended, Some(SessionEnd::Incompatible(CompatibilityError::InvalidClient)));
    assert!(s.is_terminated());
}

#[test]
fn a_refusal_ends_the_session_with_the_servers_reason() {
    for reason in [
        ServerInitFailReason::AlreadyConnected,
        ServerInitFailReason::InvalidState,
        ServerInitFailReason::Custom("full".to_string()),
    ] {
        let (mut s, _) = ClientSession::connect();
        let answer = ServerInitPacket::Fail { reason: reason.clone() };
        let acts = s.step(0, ClientEvent::Received(answer.into_bytes()));
        assert_eq!(acts.ended, Some(SessionEnd::Refused(reason)));
        assert!(acts.send.is_none() && acts.deliver.is_none());
        assert!(s.is_terminated());
    }
}

#[test]
fn any_other_answer_to_the_handshake_is_a_violation() {
    let (mut s, _) = ClientSession::connect();
    let acts = s.step(0, ClientEvent::Received(ServerChatPacket::KeepAlive.into_bytes()));
    assert_eq!(acts.ended, Some(SessionEnd::InvalidState));
    assert!(acts.deliver.is_none());
    assert!(s.is_terminated());

    let (mut s, _) = ClientSession::connect();
    let acts = s.step(0, ClientEvent::Received(Bytes::from(vec![1u8, 2, 3])));
    assert_eq!(acts.ended, Some(SessionEnd::Closed));
    assert!(s.is_terminated());

    let (mut s, _) = ClientSession::connect();
    let acts = s.step(0, ClientEvent::TransportFailed);
    assert_eq!(acts.ended, Some(SessionEnd::Closed));
    assert!(s.is_terminated());
}

#[test]
fn nothing_is_sent_for_the_user_before_the_chat_has_begun() {
    let (mut s, _) = ClientSession::connect();
    let acts = s.step(0, ClientEvent::Outbound(ClientPacket::Chat(ClientChatPacket::KeepAlive)));
    assert!(acts.send.is_none());
    let acts = s.step(9_000, ClientEvent::Heartbeat);
    assert!(acts.send.is_none());
    assert_eq!(s.phase, ClientPhase::Handshaking);
}

#[test]
fn the_clients_heartbeat_sends_keep_alive_every_second() {
    let mut s = chatting();
    assert_eq!(s.heartbeat_due, 3_000);
    assert!(s.step(2_999, ClientEvent::Heartbeat).send.is_none());
    let acts = s.step(3_000, ClientEvent::Heartbeat);
    assert_eq!(
        ClientPacket::from_bytes(acts.send.unwrap()),
        Some(ClientPacket::Chat(ClientChatPacket::KeepAlive))
    );
    assert_eq!(s.heartbeat_due, 4_000);
}

#[test]
fn outbound_packets_are_sent_as_they_are() {
    let mut s = chatting();
    let p = ClientPacket::Chat(ClientChatPacket::SendMessage {
        message_id: 42,
        message: "  spaces stay on this side  ".to_string(),
    });
    let acts = s.step(2_100, ClientEvent::Outbound(p.clone()));
    assert_eq!(acts.send, Some(p.clone().into_bytes()));
    assert_eq!(ClientPacket::from_bytes(acts.send.unwrap()), Some(p));
    assert!(acts.deliver.is_none() && acts.ended.is_none());
}

#[test]
fn inbound_packets_are_handed_to_the_local_view() {
    let mut s = chatting();
    let p = ServerPacket::Chat(ServerChatPacket::NewMessage {
        sender_id: 1,
        message_id: 2,
        message: "hi".to_string(),
    });
    let acts = s.step(2_100, ClientEvent::Received(p.clone().into_bytes()));
    assert_eq!(acts.deliver, Some(p));
    assert!(acts.send.is_none() && acts.ended.is_none());
    assert_eq!(s.phase, ClientPhase::Chatting);
}

#[test]
fn an_undecodable_buffer_or_a_transport_failure_closes_the_clients_chat() {
    let mut s = chatting();
    let acts = s.step(2_100, ClientEvent::Received(ClientChatPacket::KeepAlive.into_bytes()));
    // the client's own keep-alive is no server packet
    assert_eq!(acts.ended, Some(SessionEnd::Closed));
    assert!(acts.deliver.is_none());
    assert!(s.is_terminated());

    let mut s = chatting();
    let acts = s.step(2_100, ClientEvent::TransportFailed);
    assert_eq!(acts.ended, Some(SessionEnd::Closed));
    assert!(s.is_terminated());
    let acts = s.step(2_200, ClientEvent::Heartbeat);
    assert!(acts.send.is_none() && acts.ended.is_none());
}

#[test]
fn judge_answer_gives_each_answer_its_ending() {
    assert_eq!(judge_answer(ServerPacket::Init(ServerInitPacket::Success(compat_info()))), Ok(()));
    assert_eq!(
        judge_answer(ServerPacket::Chat(ServerChatPacket::InvalidState)),
        Err(SessionEnd::InvalidState)
    );
    assert_eq!(
        judge_answer(ServerPacket::Init(ServerInitPacket::Fail {
            reason: ServerInitFailReason::InvalidPacket
        })),
        Err(SessionEnd::Refused(ServerInitFailReason::InvalidPacket))
    );
}

#[test]
fn endings_say_what_happened() {
    assert_eq!(SessionEnd::Closed.to_text(), "Closed");
    assert_eq!(SessionEnd::InvalidState.to_text(), "Invalid state");
    assert_eq!(
        SessionEnd::Refused(ServerInitFailReason::AlreadyConnected).to_text(),
        "Already connected"
    );
    assert_eq!(
        SessionEnd::Incompatible(CompatibilityError::InvalidClient).to_text(),
        "Client is invalid (Invalid magic bytes)"
    );
}

#[test]
fn client_and_server_complete_a_handshake_together() {
    let (mut client, first) = ClientSession::connect();
    let mut server = ServerSession::with_identity(9);
    let answer = server.step(0, ServerEvent::Received(first)).send.unwrap();
    assert_eq!(server.phase, ServerPhase::Chatting);
    let acts = client.step(0, ClientEvent::Received(answer));
    assert!(acts.ended.is_none());
    assert_eq!(client.phase, ClientPhase::Chatting);
    // the client asks who it is and is told
    let ask = client
        .step(1, ClientEvent::Outbound(ClientPacket::Chat(ClientChatPacket::RequestSelfMember)))
        .send
        .unwrap();
    let told = server.step(1, ServerEvent::Received(ask)).send.unwrap();
    let acts = client.step(2, ClientEvent::Received(told));
    assert_eq!(
        acts.deliver,
        Some(ServerPacket::Chat(ServerChatPacket::SelfMember { member_id: 9 }))
    );
}
