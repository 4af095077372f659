use niku::idgen::{ConfigError, IdGenerator};
use niku::object::{ObjectEntry, ObjectKind};
use niku::registry::{ObjectRegistry, PublishError, ServerError};

fn words(list: &[&str]) -> Vec<String> {
    let mut v = Vec::new();
    for w in list {
        v.push(String::from(*w));
    }
    v
}

fn test_generator() -> IdGenerator {
    IdGenerator::new(
        String::from("test"),
        words(&["quick", "calm", "bold"]),
        words(&["fox", "owl", "elk"]),
        words(&["runs", "naps", "digs"]),
    )
    .unwrap()
}

fn single_word_generator() -> IdGenerator {
    IdGenerator::new(
        String::from("test"),
        words(&["quick"]),
        words(&["fox"]),
        words(&["runs"]),
    )
    .unwrap()
}

fn sample_entry() -> ObjectEntry {
    ObjectEntry {
        node_address: String::from("node-addr-blob"),
        file_hash: String::from("content-hash-blob"),
        kind: ObjectKind::File { name: String::from("notes.txt") },
        size: 876,
    }
}

#[test]
fn test_empty_word_list_is_fatal() {
    let r = IdGenerator::new(
        String::from("test"),
        words(&[]),
        words(&["fox"]),
        words(&["runs"]),
    );
    assert!(matches!(r, Err(ConfigError::EmptyWordList)));
    let r = IdGenerator::new(
        String::from("test"),
        words(&["quick"]),
        words(&["fox"]),
        words(&[]),
    );
    assert!(matches!(r, Err(ConfigError::EmptyWordList)));
}

#[test]
fn test_generate_builds_prefixed_candidate() {
    // With single-word lists the one possible candidate is pinned exactly.
    let generator = single_word_generator();
    assert_eq!(generator.generate(), "test-quick-fox-runs");
}

#[test]
fn test_publish_then_lookup_returns_same_entry() {
    let mut registry = ObjectRegistry::new(test_generator());
    let receipt = registry.publish(sample_entry()).unwrap();

    let entry = registry.lookup(&receipt.registration.id).unwrap();
    assert_eq!(entry.node_address, "node-addr-blob");
    assert_eq!(entry.file_hash, "content-hash-blob");
    assert_eq!(entry.size, 876);
    match entry.kind {
        ObjectKind::File { name } => assert_eq!(name, "notes.txt"),
        ObjectKind::Folder { .. } => panic!("expected a file entry"),
    }
}

#[test]
fn test_publish_returns_distinct_identifiers() {
    let mut registry = ObjectRegistry::new(test_generator());
    let first = registry.publish(sample_entry()).unwrap();
    let second = registry.publish(sample_entry()).unwrap();
    assert_ne!(first.registration.id, second.registration.id);
    assert_ne!(
        first.registration.keep_alive_key,
        second.registration.keep_alive_key
    );
}

#[test]
fn test_publish_keep_alive_key_is_uuid_shaped() {
    let mut registry = ObjectRegistry::new(test_generator());
    let receipt = registry.publish(sample_entry()).unwrap();
    assert_eq!(receipt.registration.keep_alive_key.len(), 36);
}

#[test]
fn test_publish_exhaustion_on_saturated_word_space() {
    // One word per list leaves a single candidate; once it is taken, a
    // second publish must fail instead of looping forever.
    let mut registry = ObjectRegistry::new(single_word_generator());
    let first = registry.publish(sample_entry()).unwrap();
    assert_eq!(first.registration.id, "test-quick-fox-runs");
    let second = registry.publish(sample_entry());
    assert!(matches!(second, Err(PublishError::AttemptsExhausted)));
    // The failed publish left the registry untouched.
    assert_eq!(registry.object_count(), 1);
    assert_eq!(registry.lease_count(), 1);
}

#[test]
fn test_lookup_unknown_object_fails_every_time() {
    let registry = ObjectRegistry::new(test_generator());
    let id = String::from("does-not-exist");
    assert!(matches!(registry.lookup(&id), Err(ServerError::UnknownObject)));
    assert!(matches!(registry.lookup(&id), Err(ServerError::UnknownObject)));
    assert!(matches!(registry.lookup(&id), Err(ServerError::UnknownObject)));
}

#[test]
fn test_renew_unknown_key_fails_every_time() {
    let mut registry = ObjectRegistry::new(test_generator());
    let key = String::from("0f3b28de-9c41-4b7e-8d55-1a2b3c4d5e6f");
    assert!(matches!(
        registry.renew(&key),
        Err(ServerError::UnknownKeepAliveKey)
    ));
    assert!(matches!(
        registry.renew(&key),
        Err(ServerError::UnknownKeepAliveKey)
    ));
}

#[test]
fn test_expiry_removes_object_and_second_firing_is_noop() {
    let mut registry = ObjectRegistry::new(test_generator());
    let receipt = registry.publish(sample_entry()).unwrap();
    let key = receipt.registration.keep_alive_key.clone();

    assert!(registry.lookup(&receipt.registration.id).is_ok());
    assert!(registry.expire(&key, receipt.armed_timer));
    assert!(matches!(
        registry.lookup(&receipt.registration.id),
        Err(ServerError::UnknownObject)
    ));
    assert_eq!(registry.object_count(), 0);
    assert_eq!(registry.lease_count(), 0);

    // A stale timer that lost the race fires again: a no-op, never an error.
    assert!(!registry.expire(&key, receipt.armed_timer));
    assert_eq!(registry.object_count(), 0);
}

#[test]
fn test_renewal_extends_lifetime() {
    let mut registry = ObjectRegistry::new(test_generator());
    let receipt = registry.publish(sample_entry()).unwrap();
    let id = receipt.registration.id.clone();
    let key = receipt.registration.keep_alive_key.clone();

    // Renew before the first expiry fires.
    let renewal = registry.renew(&key).unwrap();
    assert_eq!(renewal.cancelled_timer, receipt.armed_timer);
    assert_ne!(renewal.armed_timer, receipt.armed_timer);

    // The cancelled expiry fires anyway: stale, so the object stays.
    assert!(!registry.expire(&key, receipt.armed_timer));
    assert!(registry.lookup(&id).is_ok());

    // Only the freshly armed expiry removes it.
    assert!(registry.expire(&key, renewal.armed_timer));
    assert!(matches!(registry.lookup(&id), Err(ServerError::UnknownObject)));
}

#[test]
fn test_live_identifiers_and_leases_stay_in_step() {
    let mut registry = ObjectRegistry::new(test_generator());
    assert_eq!(registry.object_count(), 0);
    assert_eq!(registry.lease_count(), 0);

    let first = registry.publish(sample_entry()).unwrap();
    let second = registry.publish(sample_entry()).unwrap();
    assert_eq!(registry.object_count(), 2);
    assert_eq!(registry.lease_count(), 2);

    assert!(registry.expire(&first.registration.keep_alive_key, first.armed_timer));
    assert_eq!(registry.object_count(), 1);
    assert_eq!(registry.lease_count(), 1);

    assert!(registry.expire(&second.registration.keep_alive_key, second.armed_timer));
    assert_eq!(registry.object_count(), 0);
    assert_eq!(registry.lease_count(), 0);
}

#[test]
fn test_identifier_may_be_reused_after_expiry() {
    // With a single-word generator the identifier space has one element, so
    // expiring the registration frees that identifier for a later one.
    let mut registry = ObjectRegistry::new(single_word_generator());
    let first = registry.publish(sample_entry()).unwrap();
    assert!(registry.expire(&first.registration.keep_alive_key, first.armed_timer));
    let second = registry.publish(sample_entry()).unwrap();
    assert_eq!(second.registration.id, first.registration.id);

    // A firing of the long-gone first expiry must not touch the new
    // registration, even when the identifier was reused.
    assert!(!registry.expire(&first.registration.keep_alive_key, first.armed_timer));
    assert!(registry.lookup(&second.registration.id).is_ok());
}

#[test]
fn test_error_responses_are_stable() {
    let unknown_object = ServerError::UnknownObject;
    assert_eq!(unknown_object.status_code(), 404);
    let body = unknown_object.error_response();
    assert_eq!(body.code, "0001@NKBE");
    assert_eq!(body.message, "The requested object is not available");
    assert_eq!(
        body.display_string(),
        "0001@NKBE: The requested object is not available"
    );

    let unknown_key = ServerError::UnknownKeepAliveKey;
    assert_eq!(unknown_key.status_code(), 404);
    let body = unknown_key.error_response();
    assert_eq!(body.code, "0002@NKBE");
    assert_eq!(
        body.message,
        "The given keep alive key doesn't match for any registered object"
    );
}

#[test]
fn test_first_publish_on_empty_registry_succeeds() {
    // With nothing live there is nothing to collide with, so the very
    // first publish cannot fail, whatever words were drawn.
    let mut registry = ObjectRegistry::new(single_word_generator());
    assert!(registry.publish(sample_entry()).is_ok());
}
