use chat_server::AuthOutcome;
use chat_server::CredentialRecord;
use chat_server::CredentialStore;
use chat_server::Registry;

#[test]
fn registration_unique_one_secret() {
    // Two registration attempts for the same new username with differing
    // passwords: exactly the first succeeds as a new user.
    let mut store = CredentialStore::new();
    assert_eq!(store.verify_or_register("alice", "p1"), AuthOutcome::NewUser);
    assert_eq!(store.verify_or_register("alice", "p2"), AuthOutcome::Rejected);
    assert_eq!(store.len(), 1);
    assert_eq!(store.lookup_secret("alice").unwrap(), "p1");
}

#[test]
fn auth_correctness_second_login() {
    let mut store = CredentialStore::new();
    assert_eq!(store.verify_or_register("alice", "p1"), AuthOutcome::NewUser);
    assert_eq!(store.verify_or_register("alice", "p1"), AuthOutcome::ReturningUser);
    assert_eq!(store.verify_or_register("alice", "wrong"), AuthOutcome::Rejected);
    // The secret is never overwritten.
    assert_eq!(store.lookup_secret("alice").unwrap(), "p1");
    assert_eq!(store.len(), 1);
}

#[test]
fn unknown_user_has_no_secret() {
    let store = CredentialStore::new();
    assert!(store.lookup_secret("nobody").is_none());
    assert_eq!(store.len(), 0);
}

#[test]
fn distinct_users_keep_distinct_secrets() {
    let mut store = CredentialStore::new();
    assert_eq!(store.verify_or_register("alice", "p1"), AuthOutcome::NewUser);
    assert_eq!(store.verify_or_register("bob", "p2"), AuthOutcome::NewUser);
    assert_eq!(store.lookup_secret("alice").unwrap(), "p1");
    assert_eq!(store.lookup_secret("bob").unwrap(), "p2");
    assert_eq!(store.len(), 2);
}

#[test]
fn broadcast_excludes_sender() {
    // A message sent by A is delivered to B and C but never echoed back to A.
    let mut reg = Registry::new();
    reg.register("alice".to_string(), 10);
    reg.register("bob".to_string(), 20);
    reg.register("carol".to_string(), 30);
    let deliveries = reg.broadcast("alice", "hi");
    let clients: Vec<u64> = deliveries.iter().map(|d| d.client).collect();
    assert_eq!(clients, vec![20, 30]);
    for d in &deliveries {
        assert_eq!(d.message, "alice: hi\n");
    }
}

#[test]
fn broadcast_to_empty_registry() {
    let reg = Registry::new();
    let deliveries = reg.broadcast("alice", "hi");
    assert!(deliveries.is_empty());
}

#[test]
fn deregistered_username_receives_nothing() {
    let mut reg = Registry::new();
    reg.register("alice".to_string(), 10);
    reg.register("bob".to_string(), 20);
    reg.deregister("bob");
    assert!(!reg.is_registered("bob"));
    let deliveries = reg.broadcast("alice", "hi");
    assert!(deliveries.is_empty());
    assert_eq!(reg.len(), 1);
}

#[test]
fn deregister_absent_is_noop() {
    let mut reg = Registry::new();
    reg.register("alice".to_string(), 10);
    reg.deregister("bob");
    assert_eq!(reg.len(), 1);
    assert!(reg.is_registered("alice"));
}

#[test]
fn register_replaces_in_place() {
    let mut reg = Registry::new();
    reg.register("alice".to_string(), 10);
    reg.register("bob".to_string(), 20);
    reg.register("alice".to_string(), 11);
    assert_eq!(reg.len(), 2);
    assert_eq!(reg.client_of("alice"), Some(11));
    // The replaced entry keeps its position in the fan-out order.
    let deliveries = reg.broadcast("carol", "x");
    let clients: Vec<u64> = deliveries.iter().map(|d| d.client).collect();
    assert_eq!(clients, vec![11, 20]);
}

#[test]
fn round_trip_through_serialized_records() {
    // Credentials written by one run are loadable and verify-correct in a
    // fresh store built from the same serialized data.
    let mut store = CredentialStore::new();
    store.verify_or_register("alice", "p1");
    store.verify_or_register("bob", "p2");
    let records = store.to_records();
    let mut map = std::collections::HashMap::new();
    for r in &records {
        map.insert(r.username.clone(), r.secret.clone());
    }
    let encoded = serde_json::to_string(&map).unwrap();

    let decoded: std::collections::HashMap<String, String> =
        serde_json::from_str(&encoded).unwrap();
    let mut loaded_records = Vec::new();
    for (username, secret) in decoded {
        loaded_records.push(CredentialRecord { username, secret });
    }
    let mut reloaded = CredentialStore::from_records(&loaded_records);
    assert_eq!(reloaded.len(), 2);
    assert_eq!(reloaded.verify_or_register("alice", "p1"), AuthOutcome::ReturningUser);
    assert_eq!(reloaded.verify_or_register("bob", "p2"), AuthOutcome::ReturningUser);
    assert_eq!(reloaded.verify_or_register("alice", "p2"), AuthOutcome::Rejected);
}

#[test]
fn from_records_first_record_wins() {
    let records = vec![
        CredentialRecord { username: "alice".to_string(), secret: "p1".to_string() },
        CredentialRecord { username: "alice".to_string(), secret: "p2".to_string() },
    ];
    let store = CredentialStore::from_records(&records);
    assert_eq!(store.len(), 1);
    assert_eq!(store.lookup_secret("alice").unwrap(), "p1");
}
