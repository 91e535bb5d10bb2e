use clipboard_sync::bus::Relay;
use clipboard_sync::client::ClientSession;
use clipboard_sync::fanout::KeyRegistry;
use clipboard_sync::keys::{PrivateKey, PublicKey};
use clipboard_sync::protocol::{encode_update, WireFrame};
use clipboard_sync::relay::{handshake, inbound_step, InboundState};
use clipboard_sync::sink::SinkAction;
use clipboard_sync::state::ClipboardState;

use rsa::pkcs8::{EncodePrivateKey, EncodePublicKey, LineEnding};

fn fresh_pair(bits: usize) -> (PrivateKey, PublicKey) {
    let sk = rsa::RsaPrivateKey::new(&mut rand::thread_rng(), bits).expect("key generation");
    let sk_pem = sk.to_pkcs8_pem(LineEnding::LF).expect("private pem").to_string();
    let pk_pem = rsa::RsaPublicKey::from(&sk).to_public_key_pem(LineEnding::LF).expect(
        "public pem",
    );
    (
        PrivateKey::from_pem(&sk_pem).expect("parse private"),
        PublicKey::from_pem(&pk_pem).expect("parse public"),
    )
}

fn active_session(id: String) -> ClientSession {
    let mut session = ClientSession::new(id);
    let hello = session.connect();
    assert!(matches!(hello, WireFrame::Text(_)));
    session.activate();
    session
}

#[test]
fn session_walks_its_phases() {
    let mut session = ClientSession::new("aa".to_string());
    let hello = session.connect();
    match hello {
        WireFrame::Text(t) => assert_eq!(t, "aa".to_string()),
        WireFrame::Binary(_) => panic!("the handshake frame is textual"),
    }
    session.activate();
    session.close();
}

#[test]
fn same_payload_twice_fans_out_once() {
    // Submitting "hello" and then "hello" again triggers exactly one
    // fan-out: the duplicate is suppressed before any crypto work.
    let (_, pk) = fresh_pair(512);
    let mut reg = KeyRegistry::new();
    reg.add(pk);
    let session = active_session("aa".to_string());
    let mut state = ClipboardState::new();

    let first = session.on_local_payload(&mut state, &reg, b"hello");
    assert_eq!(first.expect("a new payload fans out").len(), 1);
    let second = session.on_local_payload(&mut state, &reg, b"hello");
    assert!(second.is_none());
    let third = session.on_local_payload(&mut state, &reg, b"other");
    assert_eq!(third.expect("a changed payload fans out").len(), 1);
}

#[test]
fn state_is_not_rolled_back_when_every_recipient_fails() {
    // Fire-and-forget: the state update precedes encryption, so a
    // payload that no recipient's key can hold is still recorded and a
    // repeat of it stays suppressed.
    let (_, pk) = fresh_pair(512);
    let mut reg = KeyRegistry::new();
    reg.add(pk);
    let session = active_session("aa".to_string());
    let mut state = ClipboardState::new();

    let oversize = vec![0x11u8; 60];
    let first = session.on_local_payload(&mut state, &reg, &oversize);
    assert_eq!(first.expect("accepted despite failures").len(), 0);
    assert!(session.on_local_payload(&mut state, &reg, &oversize).is_none());
}

#[test]
fn update_travels_end_to_end() {
    // Two clients hold each other's public keys. A local change at the
    // first travels through its fan-out, the wire pairing, the relay's
    // routing, and the second client's decryption sink.
    let (_aa_sk, aa_pk) = fresh_pair(512);
    let (bb_sk, bb_pk) = fresh_pair(512);
    let aa_id = aa_pk.identity();
    let bb_id = bb_pk.identity();

    // Client aa holds bb's key and sees a new local payload.
    let mut aa_registry = KeyRegistry::new();
    aa_registry.add(bb_pk);
    let aa_session = active_session(aa_id.clone());
    let mut aa_state = ClipboardState::new();
    let frames = aa_session
        .on_local_payload(&mut aa_state, &aa_registry, b"hello")
        .expect("new payload");
    assert_eq!(frames.len(), 1);
    assert_eq!(frames[0].target, bb_id);

    // The relay accepts both clients' connections.
    let mut relay = Relay::new(10);
    let aa_claim = handshake(Some(WireFrame::Text(aa_id.clone()))).expect("aa handshake");
    let aa_sub = relay.register(aa_claim);
    let bb_claim = handshake(Some(WireFrame::Text(bb_id.clone()))).expect("bb handshake");
    let bb_sub = relay.register(bb_claim);

    // aa's update goes over the wire as a text/binary pair, which aa's
    // inbound loop at the relay reassembles and publishes.
    let mut inbound = InboundState::AwaitingTarget;
    for frame in encode_update(&frames[0]) {
        let (next, published) = inbound_step(inbound, frame);
        inbound = next;
        if let Some(m) = published {
            relay.publish(&m);
        }
    }

    // Only bb's session forwards it.
    assert!(relay.outbound_step(aa_sub).is_none());
    let delivered = relay.outbound_step(bb_sub).expect("addressed to bb");
    assert_eq!(delivered.target, bb_id);

    // bb decrypts and applies it.
    let bb_session = active_session(bb_id.clone());
    let mut bb_state = ClipboardState::new();
    let action = bb_session
        .on_inbound_frame(&mut bb_state, &bb_sk, WireFrame::Binary(delivered.ciphertext))
        .expect("binary frames reach the sink");
    match action {
        SinkAction::Apply(p) => assert_eq!(p, b"hello".to_vec()),
        _ => panic!("bb applies the new payload"),
    }
    assert_eq!(bb_state.last, b"hello".to_vec());
}

#[test]
fn empty_payload_matches_fresh_state() {
    // A fresh state holds the empty payload, so an empty read from the
    // local source changes nothing and triggers no fan-out.
    let (_, pk) = fresh_pair(512);
    let mut reg = KeyRegistry::new();
    reg.add(pk);
    let session = active_session("aa".to_string());
    let mut state = ClipboardState::new();
    assert!(session.on_local_payload(&mut state, &reg, b"").is_none());
}

#[test]
fn text_frames_are_ignored_inbound() {
    let (sk, _) = fresh_pair(512);
    let session = active_session("aa".to_string());
    let mut state = ClipboardState::new();
    let r = session.on_inbound_frame(&mut state, &sk, WireFrame::Text("noise".to_string()));
    assert!(r.is_none());
}
