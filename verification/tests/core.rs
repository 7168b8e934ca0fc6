use fanout::actor::ConnectionActor;
use fanout::channel::{channel_id, channel_list, parse_subscription, Channel};
use fanout::frame::{envelope, frame};
use fanout::registry::{ConnectionRegistry, SubscriptionSet};
use fanout::snapshot::SnapshotRegister;

fn market_frame(data: &str) -> String {
    format!("{{\"channel\":\"market\",\"data\":{}}}", data)
}

fn heartbeat_frame(now: &str) -> String {
    format!("{{\"channel\":\"heartbeat\",\"data\":\"{}\"}}", now)
}

#[test]
fn snapshot_starts_empty() {
    let reg = SnapshotRegister::new();
    assert_eq!(reg.get(), "".to_string());
}

#[test]
fn snapshot_last_write_wins() {
    let mut reg = SnapshotRegister::new();
    reg.set("one".to_string());
    reg.set("two".to_string());
    reg.set("three".to_string());
    assert_eq!(reg.get(), "three".to_string());
}

#[test]
fn catalog_order_and_ids() {
    let order = channel_list();
    assert_eq!(order.len(), 2);
    assert_eq!(channel_id(order[0]), "market".to_string());
    assert_eq!(channel_id(order[1]), "heartbeat".to_string());
}

#[test]
fn subscription_rule_exact_match_only() {
    assert_eq!(parse_subscription(&"market".to_string()), Some(Channel::Market));
    assert_eq!(parse_subscription(&"heartbeat".to_string()), Some(Channel::Heartbeat));
    assert_eq!(parse_subscription(&"bogus".to_string()), None);
    assert_eq!(parse_subscription(&"Market".to_string()), None);
    assert_eq!(parse_subscription(&"market ".to_string()), None);
    assert_eq!(parse_subscription(&"".to_string()), None);
}

#[test]
fn envelope_exact_text() {
    let e = envelope(&"market".to_string(), &"{\"price\":100}".to_string());
    assert_eq!(e, "{\"channel\":\"market\",\"data\":{\"price\":100}}".to_string());
}

#[test]
fn frame_exact_texts() {
    let f = frame(Channel::Market, &"42".to_string(), &"unused".to_string());
    assert_eq!(f, market_frame("42"));
    let f = frame(Channel::Heartbeat, &"unused".to_string(), &"2021-01-01 00:00:00 UTC".to_string());
    assert_eq!(f, heartbeat_frame("2021-01-01 00:00:00 UTC"));
}

#[test]
fn unknown_channel_leaves_subscriptions_unchanged() {
    let mut reg = ConnectionRegistry::new();
    let actor = ConnectionActor::accept(&mut reg, 7).unwrap();
    actor.on_inbound(&mut reg, &"bogus".to_string());
    actor.on_inbound(&mut reg, &"market!".to_string());
    let subs = reg.subscriptions(7).unwrap();
    assert!(!subs.contains(Channel::Market));
    assert!(!subs.contains(Channel::Heartbeat));
}

#[test]
fn duplicate_register_is_a_noop() {
    let mut reg = ConnectionRegistry::new();
    assert!(reg.register(3));
    let actor = ConnectionActor::accept(&mut reg, 5).unwrap();
    actor.on_inbound(&mut reg, &"market".to_string());
    // a second registration under a live identity is refused and changes nothing
    assert!(!reg.register(5));
    assert!(ConnectionActor::accept(&mut reg, 5).is_none());
    let subs = reg.subscriptions(5).unwrap();
    assert!(subs.contains(Channel::Market));
    assert_eq!(reg.ids(), vec![3, 5]);
}

#[test]
fn unregister_is_idempotent() {
    let mut reg = ConnectionRegistry::new();
    reg.register(1);
    reg.unregister(1);
    reg.unregister(1);
    assert!(!reg.contains(1));
    assert!(reg.ids().is_empty());
}

#[test]
fn resubscribing_is_a_noop() {
    let mut reg = ConnectionRegistry::new();
    let actor = ConnectionActor::accept(&mut reg, 9).unwrap();
    actor.on_inbound(&mut reg, &"heartbeat".to_string());
    actor.on_inbound(&mut reg, &"heartbeat".to_string());
    let subs = reg.subscriptions(9).unwrap();
    assert!(subs.contains(Channel::Heartbeat));
    assert!(!subs.contains(Channel::Market));
}

#[test]
fn market_subscriber_gets_snapshot_on_next_tick() {
    let mut reg = ConnectionRegistry::new();
    let mut snap = SnapshotRegister::new();
    let actor = ConnectionActor::accept(&mut reg, 1).unwrap();
    actor.on_inbound(&mut reg, &"market".to_string());
    snap.set("{\"p\":\"431.1\"}".to_string());
    let subs = reg.subscriptions(1).unwrap();
    let frames = ConnectionActor::tick_frames(&subs, &snap.get(), &"now".to_string());
    assert_eq!(frames, vec![market_frame("{\"p\":\"431.1\"}")]);
}

#[test]
fn no_frames_cross_channels() {
    let mut heartbeat_only = SubscriptionSet::new();
    heartbeat_only.insert(Channel::Heartbeat);
    let frames =
        ConnectionActor::tick_frames(&heartbeat_only, &"snap".to_string(), &"now".to_string());
    assert_eq!(frames, vec![heartbeat_frame("now")]);

    let mut market_only = SubscriptionSet::new();
    market_only.insert(Channel::Market);
    let frames =
        ConnectionActor::tick_frames(&market_only, &"snap".to_string(), &"now".to_string());
    assert_eq!(frames, vec![market_frame("snap")]);

    let empty = SubscriptionSet::new();
    let frames = ConnectionActor::tick_frames(&empty, &"snap".to_string(), &"now".to_string());
    assert!(frames.is_empty());
}

#[test]
fn both_channels_in_catalog_order() {
    let mut subs = SubscriptionSet::new();
    subs.insert(Channel::Heartbeat);
    subs.insert(Channel::Market);
    let frames = ConnectionActor::tick_frames(&subs, &"1".to_string(), &"t".to_string());
    assert_eq!(frames, vec![market_frame("1"), heartbeat_frame("t")]);
}

#[test]
fn send_failure_removes_only_that_connection() {
    let mut reg = ConnectionRegistry::new();
    let mut failing = ConnectionActor::accept(&mut reg, 10).unwrap();
    let other = ConnectionActor::accept(&mut reg, 11).unwrap();
    other.on_inbound(&mut reg, &"market".to_string());
    failing.on_inbound(&mut reg, &"heartbeat".to_string());

    // a simulated send failure closes the failing actor and deregisters it
    failing.on_send_failure(&mut reg);
    assert!(!reg.contains(10));
    assert!(reg.subscriptions(10).is_none());

    // the other connection is unaffected
    let subs = reg.subscriptions(11).unwrap();
    assert!(subs.contains(Channel::Market));
    assert_eq!(reg.ids(), vec![11]);
}

#[test]
fn stream_close_removes_connection() {
    let mut reg = ConnectionRegistry::new();
    let mut actor = ConnectionActor::accept(&mut reg, 2).unwrap();
    actor.on_stream_closed(&mut reg);
    assert!(!reg.contains(2));
}

#[test]
fn end_to_end_market_subscription() {
    // client connects, sends "market", ingestion updates the register;
    // the next tick carries exactly the market envelope and nothing else
    let mut reg = ConnectionRegistry::new();
    let mut snap = SnapshotRegister::new();
    let actor = ConnectionActor::accept(&mut reg, 40).unwrap();
    actor.on_inbound(&mut reg, &"market".to_string());
    snap.set("{\"price\":100}".to_string());
    let subs = reg.subscriptions(40).unwrap();
    let frames = ConnectionActor::tick_frames(&subs, &snap.get(), &"tick-time".to_string());
    assert_eq!(frames.len(), 1);
    assert_eq!(frames[0], "{\"channel\":\"market\",\"data\":{\"price\":100}}".to_string());
    assert!(!frames[0].contains("heartbeat"));
}

#[test]
fn end_to_end_heartbeat_then_bogus() {
    // client sends "heartbeat", then "bogus": the subscription set is
    // exactly the heartbeat channel afterwards
    let mut reg = ConnectionRegistry::new();
    let actor = ConnectionActor::accept(&mut reg, 41).unwrap();
    actor.on_inbound(&mut reg, &"heartbeat".to_string());
    actor.on_inbound(&mut reg, &"bogus".to_string());
    let subs = reg.subscriptions(41).unwrap();
    assert!(subs.contains(Channel::Heartbeat));
    assert!(!subs.contains(Channel::Market));
}

#[test]
fn end_to_end_two_clients_three_ticks() {
    // two clients on different channels: over three ticks each receives
    // only its own channel's frames
    let mut reg = ConnectionRegistry::new();
    let mut snap = SnapshotRegister::new();
    let a = ConnectionActor::accept(&mut reg, 50).unwrap();
    let b = ConnectionActor::accept(&mut reg, 51).unwrap();
    a.on_inbound(&mut reg, &"market".to_string());
    b.on_inbound(&mut reg, &"heartbeat".to_string());

    let values = ["1", "2", "3"];
    for (tick, v) in values.iter().enumerate() {
        snap.set(v.to_string());
        let now = format!("t{}", tick);
        let subs_a = reg.subscriptions(50).unwrap();
        let frames_a = ConnectionActor::tick_frames(&subs_a, &snap.get(), &now);
        assert_eq!(frames_a, vec![market_frame(v)]);
        let subs_b = reg.subscriptions(51).unwrap();
        let frames_b = ConnectionActor::tick_frames(&subs_b, &snap.get(), &now);
        assert_eq!(frames_b, vec![heartbeat_frame(&now)]);
    }
}

#[test]
fn live_tick_uses_wall_clock() {
    let mut subs = SubscriptionSet::new();
    subs.insert(Channel::Heartbeat);
    let frames = ConnectionActor::tick_frames_now(&subs, &"snap".to_string());
    assert_eq!(frames.len(), 1);
    // the heartbeat payload is a fresh timestamp: a quoted, non-empty string
    assert!(frames[0].starts_with("{\"channel\":\"heartbeat\",\"data\":\""));
    assert!(frames[0].len() > "{\"channel\":\"heartbeat\",\"data\":\"\"}".len());
}
