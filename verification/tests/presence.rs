//! The presence set's operations on concrete keys.

use keybswitch::device::PresenceKey;
use keybswitch::presence::PresenceSet;

fn key(vendor: &str, model: &str) -> PresenceKey {
    PresenceKey { vendor_id: vendor.to_string(), model_id: model.to_string() }
}

#[test]
fn new_set_is_empty() {
    let s = PresenceSet::new();
    assert!(s.is_empty());
    assert_eq!(s.len(), 0);
    assert!(!s.contains(&key("046d", "c31c")));
}

#[test]
fn mark_present_records_the_key() {
    let mut s = PresenceSet::new();
    s.mark_present(key("046d", "c31c"));
    assert!(s.contains(&key("046d", "c31c")));
    assert!(!s.contains(&key("046d", "0000")));
    assert!(!s.is_empty());
    assert_eq!(s.len(), 1);
}

#[test]
fn mark_present_twice_equals_once() {
    let mut once = PresenceSet::new();
    once.mark_present(key("046d", "c31c"));
    let mut twice = PresenceSet::new();
    twice.mark_present(key("046d", "c31c"));
    twice.mark_present(key("046d", "c31c"));
    assert_eq!(twice.len(), once.len());
    assert_eq!(twice.contains(&key("046d", "c31c")), once.contains(&key("046d", "c31c")));
    assert_eq!(twice.is_empty(), once.is_empty());
}

#[test]
fn remove_drops_only_the_key() {
    let mut s = PresenceSet::new();
    s.mark_present(key("046d", "c31c"));
    s.mark_present(key("04d9", "0024"));
    s.remove(&key("046d", "c31c"));
    assert!(!s.contains(&key("046d", "c31c")));
    assert!(s.contains(&key("04d9", "0024")));
    assert_eq!(s.len(), 1);
}

#[test]
fn remove_twice_equals_once() {
    let mut s = PresenceSet::new();
    s.mark_present(key("046d", "c31c"));
    s.remove(&key("046d", "c31c"));
    s.remove(&key("046d", "c31c"));
    assert!(s.is_empty());
}

#[test]
fn remove_of_absent_key_is_no_error() {
    let mut s = PresenceSet::new();
    s.remove(&key("046d", "c31c"));
    assert!(s.is_empty());
    s.mark_present(key("04d9", "0024"));
    s.remove(&key("046d", "c31c"));
    assert!(s.contains(&key("04d9", "0024")));
    assert_eq!(s.len(), 1);
}

#[test]
fn keys_differing_in_one_identifier_are_distinct() {
    let mut s = PresenceSet::new();
    s.mark_present(key("046d", "c31c"));
    s.mark_present(key("046d", "c52b"));
    assert_eq!(s.len(), 2);
    assert!(s.contains(&key("046d", "c31c")));
    assert!(s.contains(&key("046d", "c52b")));
}

#[test]
fn reconcile_replaces_the_contents() {
    let mut s = PresenceSet::new();
    s.mark_present(key("046d", "c31c"));
    s.mark_present(key("04d9", "0024"));
    let observed = vec![key("feed", "beef")];
    s.reconcile(&observed);
    assert!(!s.contains(&key("046d", "c31c")));
    assert!(!s.contains(&key("04d9", "0024")));
    assert!(s.contains(&key("feed", "beef")));
    assert_eq!(s.len(), 1);
}

#[test]
fn reconcile_to_empty_clears_the_set() {
    let mut s = PresenceSet::new();
    s.mark_present(key("046d", "c31c"));
    let observed: Vec<PresenceKey> = Vec::new();
    s.reconcile(&observed);
    assert!(s.is_empty());
}

#[test]
fn reconcile_collapses_duplicate_observations() {
    let mut s = PresenceSet::new();
    let observed = vec![key("046d", "c31c"), key("046d", "c31c")];
    s.reconcile(&observed);
    assert_eq!(s.len(), 1);
    assert!(s.contains(&key("046d", "c31c")));
}
