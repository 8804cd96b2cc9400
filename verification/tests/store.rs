use tui_chat_app::app::App;
use tui_chat_app::client::{ClientChatPacket, ClientPacket};
use tui_chat_app::clock::Timestamp;
use tui_chat_app::input::{Focus, KeyCode, KeyEvent};
use tui_chat_app::server::{ServerChatPacket, ServerPacket};
use tui_chat_app::store::{HistoryLine, Message, SelfUuid, Store};

const ALICE: u128 = 0xa11ce000000000000000000000000001;
const BOB: u128 = 0xb0b00000000000000000000000000002;

fn at(seconds: i64) -> Timestamp {
    Timestamp { unix_seconds: seconds, offset_seconds: 0 }
}

fn new_message(sender_id: u128, message_id: u128, text: &str) -> ServerPacket {
    ServerPacket::Chat(ServerChatPacket::NewMessage {
        sender_id,
        message_id,
        message: text.to_string(),
    })
}

fn self_member(member_id: u128) -> ServerPacket {
    ServerPacket::Chat(ServerChatPacket::SelfMember { member_id })
}

fn key(code: KeyCode) -> KeyEvent {
    KeyEvent { code, control: false }
}

#[test]
fn a_new_store_has_seen_nothing() {
    let s = Store::new();
    assert_eq!(s.self_id(), SelfUuid::Unknown);
    assert!(s.messages().is_empty());
    assert_eq!(s.message(ALICE, 1), None);
    assert!(s.history_lines().is_empty());
}

#[test]
fn a_new_message_is_filed_and_listed() {
    let mut s = Store::new();
    s.apply(new_message(ALICE, 1, "hello"), at(10));
    s.apply(new_message(BOB, 1, "hi"), at(11));
    s.apply(new_message(ALICE, 2, "again"), at(12));
    assert_eq!(s.message(ALICE, 1).map(|t| t.as_str()), Some("hello"));
    assert_eq!(s.message(BOB, 1).map(|t| t.as_str()), Some("hi"));
    assert_eq!(s.message(ALICE, 2).map(|t| t.as_str()), Some("again"));
    assert_eq!(s.message(BOB, 2), None);
    assert_eq!(
        s.messages(),
        &vec![
            Message { sender_id: ALICE, message_id: 1, timestamp: at(10) },
            Message { sender_id: BOB, message_id: 1, timestamp: at(11) },
            Message { sender_id: ALICE, message_id: 2, timestamp: at(12) },
        ]
    );
    assert_eq!(s.self_id(), SelfUuid::Unknown);
}

#[test]
fn the_same_new_message_twice_is_filed_once_and_listed_twice() {
    let mut once = Store::new();
    once.apply(new_message(ALICE, 1, "hello"), at(10));
    let mut twice = Store::new();
    twice.apply(new_message(ALICE, 1, "hello"), at(10));
    twice.apply(new_message(ALICE, 1, "hello"), at(20));
    assert_eq!(twice.message(ALICE, 1), once.message(ALICE, 1));
    assert_eq!(twice.message(ALICE, 1).map(|t| t.as_str()), Some("hello"));
    assert_eq!(twice.messages().len(), 2);
    assert_eq!(twice.messages()[1], Message { sender_id: ALICE, message_id: 1, timestamp: at(20) });
    // a message that comes again under the same key with another text replaces the text
    twice.apply(new_message(ALICE, 1, "changed"), at(30));
    assert_eq!(twice.message(ALICE, 1).map(|t| t.as_str()), Some("changed"));
    assert_eq!(twice.messages().len(), 3);
}

#[test]
fn the_servers_word_resolves_the_identity_and_the_last_word_wins() {
    let mut s = Store::new();
    s.apply(self_member(ALICE), at(0));
    assert_eq!(s.self_id(), SelfUuid::Resolved(ALICE));
    s.apply(self_member(ALICE), at(1));
    assert_eq!(s.self_id(), SelfUuid::Resolved(ALICE));
    s.apply(self_member(BOB), at(2));
    assert_eq!(s.self_id(), SelfUuid::Resolved(BOB));
    assert!(s.messages().is_empty());
}

#[test]
fn other_packets_leave_the_store_alone() {
    let mut s = Store::new();
    s.apply(new_message(ALICE, 1, "hello"), at(10));
    for p in [
        ServerChatPacket::KeepAlive,
        ServerChatPacket::InvalidState,
        ServerChatPacket::EditMessage { sender_id: ALICE, message_id: 1, message: "x".to_string() },
        ServerChatPacket::RemoveMessage { sender_id: ALICE, message_id: 1 },
        ServerChatPacket::Members { member_ids: vec![ALICE] },
        ServerChatPacket::ServerInfo { name: "n".to_string() },
    ] {
        s.apply(ServerPacket::Chat(p), at(11));
    }
    assert_eq!(s.message(ALICE, 1).map(|t| t.as_str()), Some("hello"));
    assert_eq!(s.messages().len(), 1);
    assert_eq!(s.self_id(), SelfUuid::Unknown);
}

#[test]
fn the_identity_is_asked_for_at_once_and_again_after_a_second() {
    let mut s = Store::new();
    assert!(s.drive(100));
    assert_eq!(s.self_id(), SelfUuid::Pending(100));
    assert!(!s.drive(100));
    assert!(!s.drive(600));
    assert!(!s.drive(1_099));
    assert_eq!(s.self_id(), SelfUuid::Pending(100));
    assert!(s.drive(1_100));
    assert_eq!(s.self_id(), SelfUuid::Pending(1_100));
    assert!(!s.drive(2_099));
    // a clock that reads earlier than the request does not count as waiting
    assert!(!s.drive(5));
    assert_eq!(s.self_id(), SelfUuid::Pending(1_100));
    s.apply(self_member(ALICE), at(0));
    assert!(!s.drive(9_000_000));
    assert_eq!(s.self_id(), SelfUuid::Resolved(ALICE));
}

#[test]
fn a_client_whose_requests_are_answered_is_resolved_within_two_seconds() {
    // ticks every 100 ms; the first request is lost, the retry is answered
    let mut s = Store::new();
    let mut requests = 0;
    let mut resolved_at = None;
    let mut answer_due: Option<u64> = None;
    for now in (0..=2_000u64).step_by(100) {
        let incoming = match answer_due {
            Some(due) if due <= now => {
                answer_due = None;
                Some(self_member(ALICE))
            }
            _ => None,
        };
        let out = s.tick_at(incoming, now, at(0));
        if out.request.is_some() {
            requests += 1;
            assert_eq!(out.request, Some(ClientPacket::Chat(ClientChatPacket::RequestSelfMember)));
            if requests == 2 {
                answer_due = Some(now + 100);
            }
        }
        if resolved_at.is_none() && s.self_id() == SelfUuid::Resolved(ALICE) {
            resolved_at = Some(now);
        }
    }
    assert_eq!(requests, 2);
    assert_eq!(resolved_at, Some(1_100));
}

#[test]
fn a_tick_takes_in_the_packet_and_then_looks_after_the_identity() {
    let mut s = Store::new();
    let out = s.tick_at(Some(new_message(ALICE, 1, "hello")), 0, at(5));
    assert_eq!(out.request, Some(ClientPacket::Chat(ClientChatPacket::RequestSelfMember)));
    let n = out.notify.unwrap();
    assert_eq!(n.summary, "Message");
    assert_eq!(n.body, "a11ce000-0000-0000-0000-000000000001:\nhello");
    assert_eq!(s.self_id(), SelfUuid::Pending(0));
    assert_eq!(s.messages().len(), 1);

    // the answer arrives with the tick: nothing more is asked
    let out = s.tick_at(Some(self_member(ALICE)), 3_000, at(6));
    assert!(out.request.is_none());
    assert!(out.notify.is_none());
    assert_eq!(s.self_id(), SelfUuid::Resolved(ALICE));

    // own messages are not announced, those of others are
    let out = s.tick_at(Some(new_message(ALICE, 2, "mine")), 3_100, at(7));
    assert!(out.notify.is_none() && out.request.is_none());
    let out = s.tick_at(Some(new_message(BOB, 1, "two\nlines")), 3_200, at(8));
    assert_eq!(out.notify.unwrap().body, "b0b00000-0000-0000-0000-000000000002:\ntwo\nlines");
    let out = s.tick_at(None, 3_300, at(9));
    assert!(out.notify.is_none() && out.request.is_none());
    assert_eq!(s.messages().len(), 3);
}

#[test]
fn the_history_is_shown_newest_first_in_groups_by_sender() {
    let mut s = Store::new();
    s.apply(new_message(ALICE, 1, "a1"), at(1));
    s.apply(new_message(ALICE, 2, "a2"), at(2));
    s.apply(new_message(BOB, 1, "b1"), at(3));
    s.apply(new_message(ALICE, 3, "a3"), at(4));
    let body = |t: &str| HistoryLine::Body(t.to_string());
    assert_eq!(
        s.history_lines(),
        vec![
            HistoryLine::Blank,
            HistoryLine::Header { sender_id: ALICE, timestamp: at(4) },
            body("a3"),
            HistoryLine::Blank,
            HistoryLine::Header { sender_id: BOB, timestamp: at(3) },
            body("b1"),
            HistoryLine::Blank,
            HistoryLine::Header { sender_id: ALICE, timestamp: at(2) },
            body("a2"),
            body("a1"),
        ]
    );
}

#[test]
fn a_message_listed_twice_is_shown_twice_with_its_latest_text() {
    let mut s = Store::new();
    s.apply(new_message(ALICE, 1, "first"), at(1));
    s.apply(new_message(ALICE, 1, "second"), at(2));
    assert_eq!(
        s.history_lines(),
        vec![
            HistoryLine::Blank,
            HistoryLine::Header { sender_id: ALICE, timestamp: at(2) },
            HistoryLine::Body("second".to_string()),
            HistoryLine::Body("second".to_string()),
        ]
    );
}

#[test]
fn the_title_names_the_identity() {
    let mut s = Store::new();
    assert_eq!(s.title(), "Server name - name none");
    assert_eq!(s.self_id().to_text(), "name none");
    s.drive(0);
    assert_eq!(s.title(), "Server name - name pending");
    s.apply(self_member(ALICE), at(0));
    assert_eq!(s.title(), "Server name - a11ce000-0000-0000-0000-000000000001");
}

#[test]
fn a_new_app_has_an_empty_line_with_the_keyboard() {
    let app = App::new(true);
    assert!(app.no_unicode());
    assert!(!app.should_close());
    assert_eq!(app.focus(), Focus::Input { idx: 0 });
    assert!(app.input().is_empty());
    assert_eq!(app.store().self_id(), SelfUuid::Unknown);
    assert!(!App::new(false).no_unicode());
}

#[test]
fn typing_and_enter_send_the_line_as_a_message() {
    let mut app = App::new(false);
    for c in "hi there ".chars() {
        assert_eq!(app.key_event_with(key(KeyCode::Char(c)), 1), None);
    }
    assert_eq!(app.focus(), Focus::Input { idx: 9 });
    let sent = app.key_event_with(key(KeyCode::Enter), 77);
    assert_eq!(
        sent,
        Some(ClientPacket::Chat(ClientChatPacket::SendMessage {
            message_id: 77,
            message: "hi there ".to_string(),
        }))
    );
    assert!(app.input().is_empty());
    assert_eq!(app.focus(), Focus::Input { idx: 0 });
}

#[test]
fn enter_on_a_blank_line_sends_nothing_and_keeps_the_line() {
    let mut app = App::new(false);
    assert_eq!(app.key_event_with(key(KeyCode::Enter), 1), None);
    for c in "  \t".chars() {
        app.key_event_with(key(KeyCode::Char(c)), 1);
    }
    assert_eq!(app.key_event_with(key(KeyCode::Enter), 1), None);
    assert_eq!(app.press_with(key(KeyCode::Enter), 1), None);
    assert_eq!(app.input(), &vec![' ', ' ', '\t']);
    assert_eq!(app.focus(), Focus::Input { idx: 3 });
}

#[test]
fn escape_and_control_c_close_the_app() {
    let mut app = App::new(false);
    assert_eq!(app.press_with(key(KeyCode::Char('c')), 1), None);
    assert!(!app.should_close());
    assert_eq!(app.input(), &vec!['c']);
    assert_eq!(app.press_with(KeyEvent { code: KeyCode::Char('c'), control: true }, 1), None);
    assert!(app.should_close());
    assert_eq!(app.input(), &vec!['c']);

    let mut app = App::new(false);
    assert_eq!(app.press_with(key(KeyCode::Esc), 1), None);
    assert!(app.should_close());
    // the input line itself does not know the escape key
    let mut app = App::new(false);
    assert_eq!(app.key_event_with(key(KeyCode::Esc), 1), None);
    assert!(!app.should_close());
}

#[test]
fn messages_sent_from_the_keyboard_get_fresh_identifiers() {
    let mut app = App::new(false);
    app.key_event(key(KeyCode::Char('a')));
    let first = app.key_event(key(KeyCode::Enter));
    app.press(key(KeyCode::Char('a')));
    let second = app.press(key(KeyCode::Enter));
    match (first, second) {
        (
            Some(ClientPacket::Chat(ClientChatPacket::SendMessage { message_id: a, message: ma })),
            Some(ClientPacket::Chat(ClientChatPacket::SendMessage { message_id: b, message: mb })),
        ) => {
            assert_ne!(a, b);
            assert_eq!(ma, "a");
            assert_eq!(mb, "a");
        }
        other => panic!("two messages were expected, not {:?}", other),
    }
}

#[test]
fn the_apps_tick_asks_for_the_identity_and_files_what_arrives() {
    let mut app = App::new(false);
    let out = app.tick(Some(new_message(BOB, 1, "hello")));
    assert_eq!(out.request, Some(ClientPacket::Chat(ClientChatPacket::RequestSelfMember)));
    assert_eq!(out.notify.unwrap().summary, "Message");
    assert_eq!(app.store().message(BOB, 1).map(|t| t.as_str()), Some("hello"));
    assert!(matches!(app.store().self_id(), SelfUuid::Pending(_)));
    let out = app.tick(None);
    assert!(out.request.is_none());
    let out = app.tick_at(Some(self_member(BOB)), 0, at(0));
    assert!(out.request.is_none());
    assert_eq!(app.store().self_id(), SelfUuid::Resolved(BOB));
    assert_eq!(app.store().messages().len(), 1);
}

#[test]
fn a_terminal_under_fifty_by_fourteen_is_too_small() {
    assert!(!tui_chat_app::app::too_small(50, 14));
    assert!(!tui_chat_app::app::too_small(200, 60));
    assert!(tui_chat_app::app::too_small(49, 14));
    assert!(tui_chat_app::app::too_small(50, 13));
    assert!(tui_chat_app::app::too_small(0, 0));
}

/// Runs ticks at a fixed period against a server that answers every request
/// in time for the next tick, and says when the identity was resolved and
/// how many requests were made.
fn resolve_with_period(period: u64, first_is_lost: bool) -> (u64, u32) {
    let mut s = Store::new();
    let mut requests = 0;
    let mut answer_waiting = false;
    let mut now = 0;
    loop {
        let incoming = if answer_waiting { Some(self_member(ALICE)) } else { None };
        answer_waiting = false;
        let out = s.tick_at(incoming, now, at(0));
        if out.request.is_some() {
            requests += 1;
            answer_waiting = !(first_is_lost && requests == 1);
        }
        if s.self_id() == SelfUuid::Resolved(ALICE) {
            // from here on nothing changes and nothing is asked
            for later in 1..5 {
                let out = s.tick_at(None, now + later * period + 5_000, at(0));
                assert!(out.request.is_none());
                assert_eq!(s.self_id(), SelfUuid::Resolved(ALICE));
            }
            return (now, requests);
        }
        assert!(now < 10_000);
        now += period;
    }
}

#[test]
fn with_ticks_at_most_half_a_second_apart_the_identity_is_resolved_within_two_seconds() {
    for period in [1, 7, 100, 250, 333, 499, 500] {
        let (when, requests) = resolve_with_period(period, false);
        assert_eq!((when, requests), (period, 1));
        let (when, requests) = resolve_with_period(period, true);
        assert_eq!(requests, 2);
        assert!(when < 2_000);
        assert!(when < 1_000 + 2 * period);
    }
    assert_eq!(resolve_with_period(100, true), (1_100, 2));
    assert_eq!(resolve_with_period(500, true), (1_500, 2));
}

#[test]
fn with_ticks_further_apart_a_lost_request_can_cost_more_than_two_seconds() {
    assert_eq!(resolve_with_period(1_000, true), (2_000, 2));
    assert_eq!(resolve_with_period(999, true), (2_997, 2));
    assert_eq!(resolve_with_period(700, true), (2_100, 2));
}
