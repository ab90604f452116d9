use chat_server::AuthOutcome;
use chat_server::CredentialStore;
use chat_server::Registry;
use chat_server::SessionEvent;
use chat_server::SessionState;
use chat_server::Step;
use chat_server::format_message;
use chat_server::is_blank;
use chat_server::new_session;
use chat_server::notice_line;
use chat_server::step;
use chat_server::str_eq;
use chat_server::trim;

// Drives one session over the handshake: opened, username line, password line,
// credential verdict. Returns the step that carries the verdict's reply.
fn handshake(store: &mut CredentialStore, username: &str, password: &str) -> Step {
    let s = new_session();
    let s = step(s, SessionEvent::Opened).next;
    let s = step(s, SessionEvent::Line(format!("{}\n", username))).next;
    let r = step(s, SessionEvent::Line(format!("{}\n", password)));
    let (u, p) = r.verify.expect("password line must ask for a credential check");
    let verdict = store.verify_or_register(&u, &p);
    step(r.next, SessionEvent::Verdict(verdict))
}

#[test]
fn concrete_scenario_two_handshakes_and_one_relay() {
    // The first client sends "hello" then "p1" as its two handshake lines
    // against an empty store and is registered under the username line
    // "hello"; bob follows with "bob"/"p2" and gets the same registration
    // notice; a payload "hi bob" then reaches bob alone, tagged with the
    // sender's username line.
    let mut store = CredentialStore::new();
    let mut reg = Registry::new();

    let first = handshake(&mut store, "hello", "p1");
    assert_eq!(first.reply.as_deref(), Some("New user registered successfully!\n"));
    assert_eq!(first.register.as_deref(), Some("hello"));
    reg.register(first.register.clone().unwrap(), 1);

    let bob = handshake(&mut store, "bob", "p2");
    assert_eq!(bob.reply.as_deref(), Some("New user registered successfully!\n"));
    reg.register(bob.register.clone().unwrap(), 2);

    let r = step(first.next, SessionEvent::Chunk(b"hi bob".to_vec()));
    let (sender, payload) = r.broadcast.expect("a non-blank chunk is broadcast");
    let deliveries = reg.broadcast(&sender, &payload);
    assert_eq!(deliveries.len(), 1);
    assert_eq!(deliveries[0].client, 2);
    assert_eq!(deliveries[0].message, "hello: hi bob\n");
}

#[test]
fn concrete_scenario_alice_message_reaches_bob_exactly() {
    // With "alice" as the username line, bob receives exactly
    // "alice: hi bob\n" and alice receives nothing.
    let mut store = CredentialStore::new();
    let mut reg = Registry::new();

    let alice = handshake(&mut store, "alice", "p1");
    reg.register(alice.register.clone().unwrap(), 1);
    let bob = handshake(&mut store, "bob", "p2");
    reg.register(bob.register.clone().unwrap(), 2);

    let r = step(alice.next, SessionEvent::Chunk(b"hi bob".to_vec()));
    let (sender, payload) = r.broadcast.unwrap();
    let deliveries = reg.broadcast(&sender, &payload);
    assert_eq!(deliveries.len(), 1);
    assert_eq!(deliveries[0].client, 2);
    assert_eq!(deliveries[0].message, "alice: hi bob\n");
}

#[test]
fn rejected_password_closes_connection() {
    let mut store = CredentialStore::new();
    handshake(&mut store, "alice", "p1");
    let r = handshake(&mut store, "alice", "bad");
    assert_eq!(r.reply.as_deref(), Some("Incorrect password.\n"));
    assert!(r.register.is_none());
    assert!(r.close);
    assert!(matches!(r.next, SessionState::Closed));
}

#[test]
fn returning_user_gets_login_notice() {
    let mut store = CredentialStore::new();
    handshake(&mut store, "alice", "p1");
    let r = handshake(&mut store, "alice", "p1");
    assert_eq!(r.reply.as_deref(), Some("Login successful!\n"));
    assert_eq!(r.register.as_deref(), Some("alice"));
    assert!(matches!(r.next, SessionState::Active { .. }));
}

#[test]
fn handshake_lines_are_trimmed() {
    let mut store = CredentialStore::new();
    let r = handshake(&mut store, "  alice  ", " p1 ");
    assert_eq!(r.register.as_deref(), Some("alice"));
    let mut again = CredentialStore::new();
    again.verify_or_register("alice", "p1");
    assert_eq!(again.lookup_secret("alice").unwrap(), "p1");
}

#[test]
fn blank_chunk_is_not_broadcast() {
    let mut store = CredentialStore::new();
    let alice = handshake(&mut store, "alice", "p1");
    let r = step(alice.next, SessionEvent::Chunk(b" \t\r\n ".to_vec()));
    assert!(r.broadcast.is_none());
    assert!(matches!(r.next, SessionState::Active { .. }));
}

#[test]
fn eof_deregisters_once_and_closes() {
    let mut store = CredentialStore::new();
    let alice = handshake(&mut store, "alice", "p1");
    let r = step(alice.next, SessionEvent::Eof);
    assert_eq!(r.deregister.as_deref(), Some("alice"));
    assert!(r.close);
    let r2 = step(r.next, SessionEvent::Eof);
    assert!(r2.deregister.is_none());
    assert!(matches!(r2.next, SessionState::Closed));
}

#[test]
fn read_error_during_handshake_abandons_silently() {
    let mut store = CredentialStore::new();
    let _ = &mut store;
    let s = new_session();
    let s = step(s, SessionEvent::Opened).next;
    let r = step(s, SessionEvent::ReadError);
    assert!(r.reply.is_none());
    assert!(r.deregister.is_none());
    assert!(matches!(r.next, SessionState::Closed));
}

#[test]
fn closed_session_after_disconnect_stops_broadcasting() {
    let mut store = CredentialStore::new();
    let mut reg = Registry::new();
    let alice = handshake(&mut store, "alice", "p1");
    reg.register(alice.register.clone().unwrap(), 1);
    let bob = handshake(&mut store, "bob", "p2");
    reg.register(bob.register.clone().unwrap(), 2);

    let gone = step(bob.next, SessionEvent::Eof);
    reg.deregister(&gone.deregister.unwrap());

    let r = step(alice.next, SessionEvent::Chunk(b"anyone?".to_vec()));
    let (sender, payload) = r.broadcast.unwrap();
    let deliveries = reg.broadcast(&sender, &payload);
    assert!(deliveries.is_empty());
}

#[test]
fn reconnect_after_close_must_use_original_password() {
    // Closing a connection removes the session but not the persisted
    // credential: a reconnecting client is no new user and must present the
    // password it registered with.
    let mut store = CredentialStore::new();
    let mut reg = Registry::new();
    let alice = handshake(&mut store, "alice", "p1");
    reg.register(alice.register.clone().unwrap(), 1);
    let gone = step(alice.next, SessionEvent::Eof);
    reg.deregister(&gone.deregister.unwrap());

    let wrong = handshake(&mut store, "alice", "other");
    assert_eq!(wrong.reply.as_deref(), Some("Incorrect password.\n"));
    let back = handshake(&mut store, "alice", "p1");
    assert_eq!(back.reply.as_deref(), Some("Login successful!\n"));
}

#[test]
fn notice_lines_are_exact() {
    assert_eq!(notice_line(AuthOutcome::NewUser), "New user registered successfully!\n");
    assert_eq!(notice_line(AuthOutcome::ReturningUser), "Login successful!\n");
    assert_eq!(notice_line(AuthOutcome::Rejected), "Incorrect password.\n");
}

#[test]
fn trim_strips_surrounding_whitespace() {
    assert_eq!(trim("  hi there \r\n"), "hi there");
    assert_eq!(trim("hi"), "hi");
    assert_eq!(trim("   "), "");
    assert_eq!(trim(""), "");
    assert_eq!(trim("\u{3000}wide\u{3000}"), "wide");
}

#[test]
fn blank_detection() {
    assert!(is_blank(""));
    assert!(is_blank(" \t\r\n"));
    assert!(!is_blank(" x "));
}

#[test]
fn message_framing_is_exact() {
    assert_eq!(format_message("alice", "hi bob"), "alice: hi bob\n");
    assert_eq!(format_message("a", ""), "a: \n");
}

#[test]
fn str_eq_compares_by_characters() {
    assert!(str_eq("abc", "abc"));
    assert!(!str_eq("abc", "abd"));
    assert!(!str_eq("abc", "ab"));
    assert!(str_eq("", ""));
}

#[test]
fn lossy_decoding_replaces_invalid_bytes() {
    // An invalid UTF-8 byte in a relayed chunk is replaced, not handed
    // through unchanged.
    let relayed = step(
        SessionState::Active { username: "alice".to_string() },
        SessionEvent::Chunk(vec![0xff, b'!']),
    );
    let (_, payload) = relayed.broadcast.unwrap();
    assert_eq!(payload, "\u{fffd}!");
    let valid = step(
        SessionState::Active { username: "alice".to_string() },
        SessionEvent::Chunk(b"hi".to_vec()),
    );
    let (_, payload) = valid.broadcast.unwrap();
    assert_eq!(payload, "hi");
}
