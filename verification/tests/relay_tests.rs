use clipboard_sync::bus::{BroadcastBus, Relay};
use clipboard_sync::errors::HandshakeError;
use clipboard_sync::protocol::{RelayMessage, WireFrame};
use clipboard_sync::relay::{handshake, inbound_step, should_forward, InboundState};

fn msg(target: &str, data: &[u8]) -> RelayMessage {
    RelayMessage { target: target.to_string(), ciphertext: data.to_vec() }
}

#[test]
fn handshake_accepts_text_identity() {
    let r = handshake(Some(WireFrame::Text("aa11".to_string())));
    assert_eq!(r.expect("text frame"), "aa11".to_string());
}

#[test]
fn binary_first_frame_aborts_session() {
    // A connection that leads with a binary frame never yields a session,
    // so nothing of it can reach the bus.
    let r = handshake(Some(WireFrame::Binary(vec![1, 2, 3])));
    assert_eq!(r, Err(HandshakeError::NonTextFirstFrame));
}

#[test]
fn closing_before_identity_aborts_session() {
    assert_eq!(handshake(None), Err(HandshakeError::ClosedBeforeIdentity));
}

#[test]
fn inbound_pairs_target_with_payload() {
    let (st, out) = inbound_step(InboundState::AwaitingTarget, WireFrame::Text("bb".to_string()));
    assert!(out.is_none());
    let (st, out) = inbound_step(st, WireFrame::Binary(vec![9, 9]));
    assert!(matches!(st, InboundState::AwaitingTarget));
    let m = out.expect("a completed pair publishes");
    assert_eq!(m.target, "bb".to_string());
    assert_eq!(m.ciphertext, vec![9, 9]);
}

#[test]
fn inbound_drops_unpaired_frames() {
    // A binary frame with no preceding target is dropped.
    let (st, out) = inbound_step(InboundState::AwaitingTarget, WireFrame::Binary(vec![1]));
    assert!(out.is_none());
    // A target followed by another text frame is dropped with it.
    let (st, out) = inbound_step(st, WireFrame::Text("bb".to_string()));
    assert!(out.is_none());
    let (_, out) = inbound_step(st, WireFrame::Text("cc".to_string()));
    assert!(out.is_none());
}

#[test]
fn update_encodes_as_adjacent_pair() {
    let frames = clipboard_sync::protocol::encode_update(&msg("bb", b"ct"));
    assert_eq!(frames.len(), 2);
    assert!(matches!(&frames[0], WireFrame::Text(t) if *t == "bb".to_string()));
    assert!(matches!(&frames[1], WireFrame::Binary(b) if *b == b"ct".to_vec()));
}

#[test]
fn forwards_only_to_matching_identity() {
    let m = msg("bb", b"x");
    assert!(should_forward(&"bb".to_string(), &m));
    assert!(!should_forward(&"aa".to_string(), &m));
}

#[test]
fn unclaimed_identity_drops_silently() {
    // A message addressed to an identity nobody holds: publish succeeds,
    // and every session's outbound filter drops it.
    let mut relay = Relay::new(10);
    let s1 = relay.register("aa".to_string());
    let s2 = relay.register("bb".to_string());
    relay.publish(&msg("cc", b"nobody"));
    assert!(relay.outbound_step(s1).is_none());
    assert!(relay.outbound_step(s2).is_none());
}

#[test]
fn routed_message_reaches_only_its_target() {
    let mut relay = Relay::new(10);
    let s1 = relay.register("aa".to_string());
    let s2 = relay.register("bb".to_string());
    relay.publish(&msg("bb", b"payload"));
    assert!(relay.outbound_step(s1).is_none());
    let got = relay.outbound_step(s2).expect("addressed to bb");
    assert_eq!(got.target, "bb".to_string());
    assert_eq!(got.ciphertext, b"payload".to_vec());
}

#[test]
fn drain_forwards_the_filtered_backlog() {
    // The whole outbound loop: of a mixed backlog, exactly the messages
    // addressed to the session come out, in order and verbatim.
    let mut relay = Relay::new(10);
    let s = relay.register("aa".to_string());
    relay.publish(&msg("cc", b"one"));
    relay.publish(&msg("aa", b"two"));
    relay.publish(&msg("bb", b"three"));
    relay.publish(&msg("aa", b"four"));
    let forwarded = relay.drain_session(s);
    assert_eq!(forwarded.len(), 2);
    assert_eq!(forwarded[0].target, "aa".to_string());
    assert_eq!(forwarded[0].ciphertext, b"two".to_vec());
    assert_eq!(forwarded[1].ciphertext, b"four".to_vec());
    assert!(relay.outbound_step(s).is_none());
}

#[test]
fn subscribers_see_their_deliveries_in_order() {
    let mut bus = BroadcastBus::new(10);
    let s = bus.subscribe();
    bus.publish(&msg("aa", b"first"));
    bus.publish(&msg("aa", b"second"));
    assert_eq!(bus.poll(s).expect("first").ciphertext, b"first".to_vec());
    assert_eq!(bus.poll(s).expect("second").ciphertext, b"second".to_vec());
    assert!(bus.poll(s).is_none());
}

#[test]
fn slow_subscriber_loses_oldest() {
    let mut bus = BroadcastBus::new(2);
    let s = bus.subscribe();
    bus.publish(&msg("aa", b"one"));
    bus.publish(&msg("aa", b"two"));
    bus.publish(&msg("aa", b"three"));
    assert_eq!(bus.poll(s).expect("kept").ciphertext, b"two".to_vec());
    assert_eq!(bus.poll(s).expect("kept").ciphertext, b"three".to_vec());
    assert!(bus.poll(s).is_none());
}

#[test]
fn late_subscriber_misses_earlier_messages() {
    let mut bus = BroadcastBus::new(10);
    let early = bus.subscribe();
    bus.publish(&msg("aa", b"old"));
    let late = bus.subscribe();
    bus.publish(&msg("aa", b"new"));
    assert_eq!(bus.poll(early).expect("old").ciphertext, b"old".to_vec());
    assert_eq!(bus.poll(early).expect("new").ciphertext, b"new".to_vec());
    assert_eq!(bus.poll(late).expect("new only").ciphertext, b"new".to_vec());
    assert!(bus.poll(late).is_none());
}
