use chat_application::codec::decode;
use chat_application::codec::Message;
use chat_application::engine::Engine;
use chat_application::engine::LocalEvent;

fn bv(s: &str) -> Vec<u8> {
    s.as_bytes().to_vec()
}

#[test]
fn scenario_join_handshake() {
    // Alice starts; her startup timer broadcasts her arrival.
    let mut alice = Engine::new(bv("A-ID"), bv("alice"));
    let mut bob = Engine::new(bv("B-ID"), bv("bob"));

    let startup = alice.handle_local(LocalEvent::Startup);
    assert!(!startup.terminate);
    assert_eq!(
        decode(&startup.broadcast),
        Some(Message::Presence { name: bv("alice"), joining: true })
    );

    // Bob receives it: he records alice and replies with an introduction
    // addressed to her.
    let eff = bob.handle_payload(&bv("A-ID"), &startup.broadcast);
    assert_eq!(bob.lookup(&bv("A-ID")), Some(&bv("alice")));
    assert_eq!(eff.line, Some(bv("alice has joined the chat")));
    let reply = eff.broadcast.expect("bob must reply with an introduction");
    assert_eq!(
        decode(&reply),
        Some(Message::Introduction { name: bv("bob"), receiver: bv("A-ID") })
    );

    // Alice receives the introduction addressed to her and records bob.
    let eff = alice.handle_payload(&bv("B-ID"), &reply);
    assert_eq!(alice.lookup(&bv("B-ID")), Some(&bv("bob")));
    assert_eq!(eff.line, Some(bv("bob is in chat room")));
    assert_eq!(eff.broadcast, None);
}

#[test]
fn scenario_chat_before_any_announcement() {
    // Before any announcement, bob has no entry for alice, so her chat
    // line shows as coming from an unknown peer.
    let alice = Engine::new(bv("A-ID"), bv("alice"));
    let mut bob = Engine::new(bv("B-ID"), bv("bob"));

    let chat = alice.handle_local(LocalEvent::Input { text: bv("hi") });
    assert!(!chat.terminate);
    let eff = bob.handle_payload(&bv("A-ID"), &chat.broadcast);
    assert_eq!(eff.line, Some(bv("Unknown: hi")));
    assert_eq!(eff.broadcast, None);
    assert_eq!(bob.lookup(&bv("A-ID")), None);
}

#[test]
fn scenario_chat_after_presence() {
    // After the join handshake, bob shows alice's chat under her name.
    let mut alice = Engine::new(bv("A-ID"), bv("alice"));
    let mut bob = Engine::new(bv("B-ID"), bv("bob"));
    let startup = alice.handle_local(LocalEvent::Startup);
    let eff = bob.handle_payload(&bv("A-ID"), &startup.broadcast);
    alice.handle_payload(&bv("B-ID"), &eff.broadcast.unwrap());

    let chat = alice.handle_local(LocalEvent::Input { text: bv("hello everyone") });
    let eff = bob.handle_payload(&bv("A-ID"), &chat.broadcast);
    assert_eq!(eff.line, Some(bv("alice: hello everyone")));
    assert_eq!(eff.broadcast, None);
}

#[test]
fn scenario_departure() {
    // After presence is established, alice's shutdown signal broadcasts
    // her departure; on receipt bob removes her entry.
    let mut alice = Engine::new(bv("A-ID"), bv("alice"));
    let mut bob = Engine::new(bv("B-ID"), bv("bob"));
    let startup = alice.handle_local(LocalEvent::Startup);
    let eff = bob.handle_payload(&bv("A-ID"), &startup.broadcast);
    alice.handle_payload(&bv("B-ID"), &eff.broadcast.unwrap());

    let shutdown = alice.handle_local(LocalEvent::Shutdown);
    assert!(shutdown.terminate);
    assert_eq!(
        decode(&shutdown.broadcast),
        Some(Message::Presence { name: bv("alice"), joining: false })
    );

    let eff = bob.handle_payload(&bv("A-ID"), &shutdown.broadcast);
    assert_eq!(eff.line, Some(bv("alice has left the chat")));
    assert_eq!(eff.broadcast, None);
    assert_eq!(bob.lookup(&bv("A-ID")), None);
}

#[test]
fn departure_of_unannounced_peer_is_idempotent() {
    // A departure announcement from a peer that never announced itself
    // still leaves no entry and produces the departure line.
    let alice = Engine::new(bv("A-ID"), bv("alice"));
    let mut bob = Engine::new(bv("B-ID"), bv("bob"));
    let shutdown = alice.handle_local(LocalEvent::Shutdown);
    let eff = bob.handle_payload(&bv("A-ID"), &shutdown.broadcast);
    assert_eq!(eff.line, Some(bv("alice has left the chat")));
    assert_eq!(bob.lookup(&bv("A-ID")), None);
}

#[test]
fn reannouncement_overwrites_the_name() {
    // A repeated arrival from the same peer overwrites its entry.
    let mut bob = Engine::new(bv("B-ID"), bv("bob"));
    let first = Engine::new(bv("A-ID"), bv("alice")).handle_local(LocalEvent::Startup);
    bob.handle_payload(&bv("A-ID"), &first.broadcast);
    let second = Engine::new(bv("A-ID"), bv("alicia")).handle_local(LocalEvent::Startup);
    bob.handle_payload(&bv("A-ID"), &second.broadcast);
    assert_eq!(bob.lookup(&bv("A-ID")), Some(&bv("alicia")));
}

#[test]
fn introduction_for_another_peer_is_ignored() {
    // An introduction addressed to a third peer mutates nothing and
    // produces no output and no reply.
    let mut bob = Engine::new(bv("B-ID"), bv("bob"));
    let mut carol = Engine::new(bv("C-ID"), bv("carol"));
    let startup = Engine::new(bv("A-ID"), bv("alice")).handle_local(LocalEvent::Startup);
    let reply = bob
        .handle_payload(&bv("A-ID"), &startup.broadcast)
        .broadcast
        .unwrap();

    // The reply is addressed to alice; carol overhears it on the
    // broadcast channel and discards it.
    let eff = carol.handle_payload(&bv("B-ID"), &reply);
    assert_eq!(eff.line, None);
    assert_eq!(eff.broadcast, None);
    assert_eq!(carol.lookup(&bv("B-ID")), None);
}

#[test]
fn unparseable_payload_is_ignored_silently() {
    // Foreign traffic on the channel has no engine-visible effect.
    let mut bob = Engine::new(bv("B-ID"), bv("bob"));
    let eff = bob.handle_payload(&bv("A-ID"), &bv("{\"something\":\"else\"}"));
    assert_eq!(eff.line, None);
    assert_eq!(eff.broadcast, None);
    assert_eq!(bob.lookup(&bv("A-ID")), None);
}
