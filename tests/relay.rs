use chat_relay::broadcast::{Broadcaster, RecvResult};
use chat_relay::message::{Message, ValidationError};
use chat_relay::relay::{events, post, rocket};
use chat_relay::stream::StreamItem;

fn msg(room: &str, username: &str, message: &str) -> Message {
    Message::new(room.to_string(), username.to_string(), message.to_string()).unwrap()
}

fn text_of(item: StreamItem) -> (String, String, String) {
    match item {
        StreamItem::Event(m) => (m.room().to_string(), m.username().to_string(), m.message().to_string()),
        StreamItem::Pending => panic!("expected an event, got Pending"),
        StreamItem::End => panic!("expected an event, got End"),
    }
}

fn triple(room: &str, username: &str, message: &str) -> (String, String, String) {
    (room.to_string(), username.to_string(), message.to_string())
}

#[test]
fn room_of_thirty_accepted_thirty_one_rejected() {
    let r30 = "a".repeat(30);
    let r31 = "a".repeat(31);
    assert!(Message::new(r30, "bob".to_string(), "x".to_string()).is_ok());
    assert_eq!(
        Message::new(r31, "bob".to_string(), "x".to_string()).err(),
        Some(ValidationError::RoomTooLong)
    );
}

#[test]
fn username_of_twenty_accepted_twenty_one_rejected() {
    let u20 = "u".repeat(20);
    let u21 = "u".repeat(21);
    assert!(Message::new("general".to_string(), u20, "x".to_string()).is_ok());
    assert_eq!(
        Message::new("general".to_string(), u21, "x".to_string()).err(),
        Some(ValidationError::UsernameTooLong)
    );
}

#[test]
fn room_checked_before_username() {
    let r = Message::new("r".repeat(31), "u".repeat(21), String::new());
    assert_eq!(r.err(), Some(ValidationError::RoomTooLong));
}

#[test]
fn body_is_unbounded() {
    let m = Message::new("general".to_string(), "alice".to_string(), "z".repeat(10000)).unwrap();
    assert_eq!(m.message().len(), 10000);
}

#[test]
fn bounds_count_bytes() {
    assert!(Message::new("é".repeat(15), "bob".to_string(), String::new()).is_ok());
    assert_eq!(
        Message::new("é".repeat(16), "bob".to_string(), String::new()).err(),
        Some(ValidationError::RoomTooLong)
    );
    assert_eq!(
        Message::new("é".repeat(30), "bob".to_string(), String::new()).err(),
        Some(ValidationError::RoomTooLong)
    );
    assert!(Message::new("general".to_string(), "é".repeat(10), String::new()).is_ok());
    assert_eq!(
        Message::new("general".to_string(), "é".repeat(11), String::new()).err(),
        Some(ValidationError::UsernameTooLong)
    );
}

#[test]
fn duplicate_keeps_every_field() {
    let m = msg("general", "alice", "hi");
    let d = m.duplicate();
    assert_eq!(d.room(), "general");
    assert_eq!(d.username(), "alice");
    assert_eq!(d.message(), "hi");
}

#[test]
fn subscriber_receives_published_triple() {
    let mut queue = rocket();
    let mut s = events(&mut queue);
    post(msg("general", "alice", "hi"), &mut queue);
    assert_eq!(text_of(s.poll(&queue, false)), triple("general", "alice", "hi"));
    assert!(matches!(s.poll(&queue, false), StreamItem::Pending));
}

#[test]
fn publish_without_subscribers_is_dropped() {
    let mut queue = rocket();
    post(msg("general", "alice", "hi"), &mut queue);
    assert_eq!(queue.published(), 0);
    let mut s = events(&mut queue);
    assert!(matches!(s.poll(&queue, false), StreamItem::Pending));
    post(msg("general", "bob", "later"), &mut queue);
    assert_eq!(text_of(s.poll(&queue, false)), triple("general", "bob", "later"));
}

#[test]
fn publish_reports_receiver_count() {
    let mut b = Broadcaster::new(4);
    assert_eq!(b.publish(msg("r", "u", "none")), 0);
    let _a = b.subscribe();
    let _c = b.subscribe();
    assert_eq!(b.receiver_count(), 2);
    assert_eq!(b.publish(msg("r", "u", "two")), 2);
    assert_eq!(b.published(), 1);
}

#[test]
fn every_subscriber_sees_every_message_in_order() {
    let mut queue = rocket();
    let mut s1 = events(&mut queue);
    let mut s2 = events(&mut queue);
    for i in 0..5 {
        post(msg("general", "alice", &i.to_string()), &mut queue);
    }
    for i in 0..5 {
        assert_eq!(text_of(s1.poll(&queue, false)).2, i.to_string());
    }
    for i in 0..5 {
        assert_eq!(text_of(s2.poll(&queue, false)).2, i.to_string());
    }
    assert!(matches!(s1.poll(&queue, false), StreamItem::Pending));
    assert!(matches!(s2.poll(&queue, false), StreamItem::Pending));
}

#[test]
fn late_subscriber_misses_earlier_messages() {
    let mut queue = rocket();
    let mut s1 = events(&mut queue);
    post(msg("general", "alice", "first"), &mut queue);
    let mut s2 = events(&mut queue);
    post(msg("general", "alice", "second"), &mut queue);
    assert_eq!(text_of(s1.poll(&queue, false)).2, "first");
    assert_eq!(text_of(s1.poll(&queue, false)).2, "second");
    assert_eq!(text_of(s2.poll(&queue, false)).2, "second");
    assert!(matches!(s2.poll(&queue, false), StreamItem::Pending));
}

#[test]
fn lagged_receiver_skips_to_oldest_retained() {
    let mut b = Broadcaster::new(2);
    let mut r = b.subscribe();
    for i in 0..5 {
        b.publish(msg("r", "u", &i.to_string()));
    }
    assert!(matches!(b.recv(&mut r), RecvResult::Lagged(3)));
    match b.recv(&mut r) {
        RecvResult::Message(m) => assert_eq!(m.message(), "3"),
        _ => panic!("expected a message"),
    }
    match b.recv(&mut r) {
        RecvResult::Message(m) => assert_eq!(m.message(), "4"),
        _ => panic!("expected a message"),
    }
    assert!(matches!(b.recv(&mut r), RecvResult::Empty));
}

#[test]
fn lagged_stream_continues_silently() {
    let mut b = Broadcaster::new(2);
    let mut s = events(&mut b);
    for i in 0..5 {
        post(msg("r", "u", &i.to_string()), &mut b);
    }
    assert_eq!(text_of(s.poll(&b, false)).2, "3");
    assert_eq!(text_of(s.poll(&b, false)).2, "4");
    assert!(matches!(s.poll(&b, false), StreamItem::Pending));
    post(msg("r", "u", "after"), &mut b);
    assert_eq!(text_of(s.poll(&b, false)).2, "after");
    assert!(!s.is_ended());
}

#[test]
fn default_capacity_is_1024() {
    let mut queue = rocket();
    let mut r = queue.subscribe();
    for i in 0..1025 {
        post(msg("r", "u", &i.to_string()), &mut queue);
    }
    assert!(matches!(queue.recv(&mut r), RecvResult::Lagged(1)));
    match queue.recv(&mut r) {
        RecvResult::Message(m) => assert_eq!(m.message(), "1"),
        _ => panic!("expected a message"),
    }
}

#[test]
fn closed_broadcaster_ends_every_stream() {
    let mut queue = rocket();
    let mut s1 = events(&mut queue);
    let mut s2 = events(&mut queue);
    post(msg("general", "alice", "pending"), &mut queue);
    queue.close();
    assert!(queue.is_closed());
    assert!(matches!(s1.poll(&queue, false), StreamItem::End));
    assert!(matches!(s2.poll(&queue, false), StreamItem::End));
    assert!(s1.is_ended());
    assert!(matches!(s1.poll(&queue, false), StreamItem::End));
    assert_eq!(queue.publish(msg("general", "alice", "late")), 0);
}

#[test]
fn shutdown_ends_stream_with_messages_pending() {
    let mut queue = rocket();
    let mut s = events(&mut queue);
    post(msg("general", "alice", "pending"), &mut queue);
    assert!(matches!(s.poll(&queue, true), StreamItem::End));
    assert!(s.is_ended());
    assert!(matches!(s.poll(&queue, false), StreamItem::End));
}

#[test]
fn finished_subscription_no_longer_counts() {
    let mut queue = rocket();
    let s = events(&mut queue);
    assert_eq!(queue.receiver_count(), 1);
    s.finish(&mut queue);
    assert_eq!(queue.receiver_count(), 0);
    post(msg("general", "alice", "nobody"), &mut queue);
    assert_eq!(queue.published(), 0);
}

#[test]
fn unsubscribe_returns_count_to_zero() {
    let mut b = Broadcaster::new(1);
    let r = b.subscribe();
    b.unsubscribe(r);
    let r2 = b.subscribe();
    b.unsubscribe(r2);
    assert_eq!(b.receiver_count(), 0);
}
