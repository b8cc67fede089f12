//! The device matcher and the event/presence-key plumbing on concrete values.

use keybswitch::catalog::Keyboard;
use keybswitch::device::{parse_action, DeviceAction, DeviceEvent, PresenceKey};

fn kb(name: &str, vendor: &str, model: &str) -> Keyboard {
    Keyboard {
        name: name.to_string(),
        vendor_id: vendor.to_string(),
        model_id: model.to_string(),
    }
}

fn some(s: &str) -> Option<String> {
    Some(s.to_string())
}

#[test]
fn matches_exact_pair() {
    let catalog = vec![kb("KB1", "046d", "c31c")];
    assert!(keybswitch::catalog::matches(&catalog, &some("046d"), &some("c31c")));
}

#[test]
fn matches_requires_both_fields_equal() {
    let catalog = vec![kb("KB1", "046d", "c31c"), kb("KB2", "04d9", "0024")];
    // vendor of one entry, model of another: no single entry matches
    assert!(!keybswitch::catalog::matches(&catalog, &some("046d"), &some("0024")));
    assert!(!keybswitch::catalog::matches(&catalog, &some("04d9"), &some("c31c")));
    assert!(keybswitch::catalog::matches(&catalog, &some("04d9"), &some("0024")));
}

#[test]
fn matches_absent_vendor_never_matches() {
    let catalog = vec![kb("KB1", "046d", "c31c")];
    assert!(!keybswitch::catalog::matches(&catalog, &None, &some("c31c")));
}

#[test]
fn matches_absent_model_never_matches() {
    let catalog = vec![kb("KB1", "046d", "c31c")];
    assert!(!keybswitch::catalog::matches(&catalog, &some("046d"), &None));
}

#[test]
fn matches_both_absent_never_matches() {
    let catalog = vec![kb("KB1", "046d", "c31c")];
    assert!(!keybswitch::catalog::matches(&catalog, &None, &None));
}

#[test]
fn matches_empty_catalog() {
    let catalog: Vec<Keyboard> = Vec::new();
    assert!(!keybswitch::catalog::matches(&catalog, &some("046d"), &some("c31c")));
}

#[test]
fn matches_is_case_sensitive() {
    let catalog = vec![kb("KB1", "046d", "c31c")];
    assert!(!keybswitch::catalog::matches(&catalog, &some("046D"), &some("c31c")));
    assert!(!keybswitch::catalog::matches(&catalog, &some("046d"), &some("C31C")));
}

#[test]
fn matches_duplicate_entries_are_harmless() {
    let catalog = vec![kb("KB1", "046d", "c31c"), kb("KB1 again", "046d", "c31c")];
    assert!(keybswitch::catalog::matches(&catalog, &some("046d"), &some("c31c")));
}

#[test]
fn parse_action_recognizes_add() {
    assert_eq!(parse_action("add"), DeviceAction::Add);
}

#[test]
fn parse_action_recognizes_remove() {
    assert_eq!(parse_action("remove"), DeviceAction::Remove);
}

#[test]
fn parse_action_maps_unrecognized_to_other() {
    assert_eq!(parse_action("bind"), DeviceAction::Other);
    assert_eq!(parse_action(""), DeviceAction::Other);
    assert_eq!(parse_action("Add"), DeviceAction::Other);
}

#[test]
fn presence_key_needs_both_identifiers() {
    let full = DeviceEvent {
        vendor_id: some("046d"),
        model_id: some("c31c"),
        action: DeviceAction::Add,
    };
    let key = full.presence_key().unwrap();
    assert_eq!(key.vendor_id, "046d");
    assert_eq!(key.model_id, "c31c");

    let no_vendor = DeviceEvent { vendor_id: None, model_id: some("c31c"), action: DeviceAction::Add };
    assert!(no_vendor.presence_key().is_none());
    let no_model = DeviceEvent { vendor_id: some("046d"), model_id: None, action: DeviceAction::Remove };
    assert!(no_model.presence_key().is_none());
}

#[test]
fn presence_key_ignores_action() {
    let add = DeviceEvent { vendor_id: some("046d"), model_id: some("c31c"), action: DeviceAction::Add };
    let rem = DeviceEvent {
        vendor_id: some("046d"),
        model_id: some("c31c"),
        action: DeviceAction::Remove,
    };
    let ka = add.presence_key().unwrap();
    let kr = rem.presence_key().unwrap();
    assert_eq!(ka.vendor_id, kr.vendor_id);
    assert_eq!(ka.model_id, kr.model_id);
}

#[test]
fn duplicate_copies_a_key() {
    let key = PresenceKey { vendor_id: "046d".to_string(), model_id: "c31c".to_string() };
    let copy = key.duplicate();
    assert_eq!(copy.vendor_id, "046d");
    assert_eq!(copy.model_id, "c31c");
}
