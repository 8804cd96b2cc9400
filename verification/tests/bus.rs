use tui_chat_app::bus::Bus;
use tui_chat_app::server::{ServerChatPacket, ServerPacket};

fn message(sender_id: u128, n: u128) -> ServerPacket {
    ServerPacket::Chat(ServerChatPacket::NewMessage {
        sender_id,
        message_id: n,
        message: format!("message {n}"),
    })
}

fn drain<T: Clone>(bus: &mut Bus<T>, handle: u64) -> Vec<T> {
    let mut seen = Vec::new();
    loop {
        let next = bus.peek(handle).cloned();
        match next {
            Some(e) => {
                seen.push(e);
                assert!(bus.advance(handle));
            }
            None => break,
        }
    }
    assert!(!bus.advance(handle));
    seen
}

#[test]
fn every_subscriber_sees_every_event_in_publish_order() {
    let mut bus: Bus<ServerPacket> = Bus::new(256);
    let a = bus.subscribe().unwrap();
    let b = bus.subscribe().unwrap();
    let c = bus.subscribe().unwrap();
    assert!(a != b && b != c && a != c);
    let events: Vec<ServerPacket> = (0..10).map(|n| message(1, n)).collect();
    for e in &events {
        bus.publish(e.clone());
    }
    // the publisher's own subscription is served like the others
    assert_eq!(drain(&mut bus, a), events);
    assert_eq!(bus.backlog(b), 10);
    assert_eq!(drain(&mut bus, b), events);
    assert_eq!(drain(&mut bus, c), events);
    assert_eq!(bus.backlog(c), 0);
    assert!(drain(&mut bus, a).is_empty());
}

#[test]
fn events_of_two_publishers_keep_the_order_of_each() {
    let mut bus: Bus<ServerPacket> = Bus::new(16);
    let reader = bus.subscribe().unwrap();
    bus.publish(message(1, 0));
    bus.publish(message(2, 0));
    bus.publish(message(1, 1));
    bus.publish(message(2, 1));
    bus.publish(message(1, 2));
    let seen = drain(&mut bus, reader);
    let of = |who: u128| -> Vec<ServerPacket> {
        seen.iter()
            .filter(|p| matches!(p, ServerPacket::Chat(ServerChatPacket::NewMessage { sender_id, .. }) if *sender_id == who))
            .cloned()
            .collect()
    };
    assert_eq!(of(1), vec![message(1, 0), message(1, 1), message(1, 2)]);
    assert_eq!(of(2), vec![message(2, 0), message(2, 1)]);
}

#[test]
fn a_subscriber_sees_only_what_is_published_after_it_subscribed() {
    let mut bus: Bus<u32> = Bus::new(8);
    let early = bus.subscribe().unwrap();
    bus.publish(1);
    let late = bus.subscribe().unwrap();
    assert_eq!(bus.peek(late), None);
    bus.publish(2);
    assert_eq!(drain(&mut bus, early), vec![1, 2]);
    assert_eq!(drain(&mut bus, late), vec![2]);
}

#[test]
fn readers_go_at_their_own_pace() {
    let mut bus: Bus<u32> = Bus::new(8);
    let fast = bus.subscribe().unwrap();
    let slow = bus.subscribe().unwrap();
    bus.publish(1);
    assert_eq!(bus.peek(fast), Some(&1));
    assert_eq!(bus.peek(fast), Some(&1));
    assert!(bus.advance(fast));
    bus.publish(2);
    bus.publish(3);
    assert_eq!(drain(&mut bus, fast), vec![2, 3]);
    assert_eq!(bus.backlog(slow), 3);
    assert_eq!(drain(&mut bus, slow), vec![1, 2, 3]);
}

#[test]
fn a_slow_subscriber_loses_the_oldest_events_and_holds_up_nobody() {
    let mut bus: Bus<u32> = Bus::new(3);
    let slow = bus.subscribe().unwrap();
    let fast = bus.subscribe().unwrap();
    for n in 0..10 {
        bus.publish(n);
        assert_eq!(drain(&mut bus, fast), vec![n]);
    }
    assert_eq!(bus.backlog(slow), 3);
    assert_eq!(drain(&mut bus, slow), vec![7, 8, 9]);
    bus.publish(10);
    assert_eq!(drain(&mut bus, slow), vec![10]);
}

#[test]
fn a_reader_that_is_partly_behind_loses_nothing_it_still_has_room_for() {
    let mut bus: Bus<u32> = Bus::new(3);
    let h = bus.subscribe().unwrap();
    bus.publish(1);
    bus.publish(2);
    bus.publish(3);
    assert!(bus.advance(h));
    assert!(bus.advance(h));
    bus.publish(4);
    bus.publish(5);
    assert_eq!(drain(&mut bus, h), vec![3, 4, 5]);
}

#[test]
fn unsubscribing_ends_one_subscription_only() {
    let mut bus: Bus<u32> = Bus::new(4);
    let a = bus.subscribe().unwrap();
    let b = bus.subscribe().unwrap();
    let c = bus.subscribe().unwrap();
    bus.publish(1);
    assert!(bus.unsubscribe(b));
    assert!(!bus.unsubscribe(b));
    assert!(!bus.unsubscribe(9999));
    assert_eq!(bus.peek(b), None);
    assert_eq!(bus.backlog(b), 0);
    assert!(!bus.advance(b));
    bus.publish(2);
    assert_eq!(drain(&mut bus, a), vec![1, 2]);
    assert_eq!(drain(&mut bus, c), vec![1, 2]);
    let d = bus.subscribe().unwrap();
    assert!(d != a && d != b && d != c);
}

#[test]
fn publishing_without_subscribers_is_fine_and_a_capacity_of_zero_counts_as_one() {
    let mut bus: Bus<u32> = Bus::new(0);
    bus.publish(1);
    let h = bus.subscribe().unwrap();
    assert_eq!(bus.peek(h), None);
    bus.publish(2);
    bus.publish(3);
    assert_eq!(drain(&mut bus, h), vec![3]);
}
