use json_patch::Patch;
use serde_json::Value;
use server_signal::ApplyOutcome;
use server_signal::Reconciler;
use server_signal::ServerSignalUpdate;
use server_signal::DecodeError;

fn doc(s: &str) -> Value {
    serde_json::from_str(s).unwrap()
}

fn wire(name: &str, patch: &Patch) -> String {
    format!(
        "{{\"name\":{},\"patch\":{}}}",
        serde_json::to_string(name).unwrap(),
        serde_json::to_string(patch).unwrap()
    )
}

fn update_message(name: &str, old: &Value, new: &Value) -> String {
    let u = ServerSignalUpdate::new_from_json(name, old, new);
    wire(&u.name, &u.patch)
}

#[test]
fn registered_first_applies_directly_and_never_buffers() {
    let mut rec = Reconciler::new();
    let name = "counter".to_string();
    let d0 = doc(r#"{"value": 0}"#);
    let d1 = doc(r#"{"value": 1}"#);
    let d2 = doc(r#"{"value": 2}"#);
    assert!(rec.register(&name, d0.clone()));
    assert_eq!(rec.pending_count(&name), 0);

    let out = rec.deliver(&update_message("counter", &d0, &d1)).unwrap();
    assert_eq!(out, ApplyOutcome::Applied { clean: true });
    assert_eq!(rec.pending_count(&name), 0);
    assert_eq!(rec.lookup(&name), Some(&d1));

    let out = rec.deliver(&update_message("counter", &d1, &d2)).unwrap();
    assert_eq!(out, ApplyOutcome::Applied { clean: true });
    assert_eq!(rec.pending_count(&name), 0);
    assert_eq!(rec.lookup(&name), Some(&d2));
}

#[test]
fn late_registration_drains_buffer_in_order() {
    let mut rec = Reconciler::new();
    let name = "items".to_string();
    let states = [
        doc("[]"),
        doc("[1]"),
        doc("[1, 2]"),
        doc("[1, 2, 3]"),
        doc("[1, 2, 3, 4]"),
    ];
    for i in 0..3 {
        let out = rec
            .deliver(&update_message("items", &states[i], &states[i + 1]))
            .unwrap();
        assert_eq!(out, ApplyOutcome::Queued);
        assert_eq!(rec.pending_count(&name), i + 1);
    }
    assert_eq!(rec.lookup(&name), None);

    // Registration drains: all three buffered patches applied in arrival order.
    assert!(rec.register(&name, states[0].clone()));
    assert_eq!(rec.pending_count(&name), 0);
    assert_eq!(rec.lookup(&name), Some(&states[3]));

    // One further patch is applied directly: all four applied, none twice.
    let out = rec
        .deliver(&update_message("items", &states[3], &states[4]))
        .unwrap();
    assert_eq!(out, ApplyOutcome::Applied { clean: true });
    assert_eq!(rec.lookup(&name), Some(&states[4]));
    assert_eq!(rec.pending_count(&name), 0);
}

#[test]
fn counter_scenario_buffered_then_live() {
    let mut rec = Reconciler::new();
    let name = "counter".to_string();
    let d0 = doc(r#"{"value": 0}"#);
    let d1 = doc(r#"{"value": 1}"#);
    let d2 = doc(r#"{"value": 2}"#);

    // The first mutation's message arrives before the client registers.
    let out = rec.deliver(&update_message("counter", &d0, &d1)).unwrap();
    assert_eq!(out, ApplyOutcome::Queued);

    // Registering applies the buffered patch.
    assert!(rec.register(&name, d0.clone()));
    assert_eq!(rec.lookup(&name), Some(&d1));

    // The next mutation is applied directly.
    let out = rec.deliver(&update_message("counter", &d1, &d2)).unwrap();
    assert_eq!(out, ApplyOutcome::Applied { clean: true });
    assert_eq!(rec.lookup(&name), Some(&d2));
}

#[test]
fn register_is_idempotent() {
    let mut rec = Reconciler::new();
    let name = "counter".to_string();
    let d0 = doc(r#"{"value": 0}"#);
    let d1 = doc(r#"{"value": 1}"#);
    assert!(rec.register(&name, d0.clone()));
    rec.deliver(&update_message("counter", &d0, &d1)).unwrap();
    // A second registration returns the existing replica rather than resetting it.
    assert!(rec.register(&name, d0.clone()));
    assert_eq!(rec.lookup(&name), Some(&d1));
}

#[test]
fn decode_error_does_not_affect_later_messages() {
    let mut rec = Reconciler::new();
    let x = "x".to_string();
    let y = "y".to_string();
    let d0 = doc(r#"{"n": 0}"#);
    let d1 = doc(r#"{"n": 1}"#);
    rec.register(&x, d0.clone());
    rec.register(&y, d0.clone());

    assert_eq!(rec.deliver("not json at all").unwrap_err(), DecodeError::Malformed);
    assert_eq!(rec.deliver(r#"{"name": "x"}"#).unwrap_err(), DecodeError::MissingPatch);

    // A valid message for the same name still applies…
    let out = rec.deliver(&update_message("x", &d0, &d1)).unwrap();
    assert_eq!(out, ApplyOutcome::Applied { clean: true });
    assert_eq!(rec.lookup(&x), Some(&d1));
    // …and so does one for a different name.
    let out = rec.deliver(&update_message("y", &d0, &d1)).unwrap();
    assert_eq!(out, ApplyOutcome::Applied { clean: true });
    assert_eq!(rec.lookup(&y), Some(&d1));
}

#[test]
fn inapplicable_patch_leaves_replica_stale_and_others_untouched() {
    let mut rec = Reconciler::new();
    let x = "x".to_string();
    let y = "y".to_string();
    let d0 = doc(r#"{"n": 0}"#);
    let d1 = doc(r#"{"n": 1}"#);
    rec.register(&x, d0.clone());
    rec.register(&y, d0.clone());

    // A patch addressing a path that does not exist in x's document.
    let bad: Patch =
        serde_json::from_value(doc(r#"[{"op":"replace","path":"/missing","value":1}]"#)).unwrap();
    let out = rec.deliver(&wire("x", &bad)).unwrap();
    assert_eq!(out, ApplyOutcome::Applied { clean: false });
    // x is left in its last-good state; y is unaffected and still live.
    assert_eq!(rec.lookup(&x), Some(&d0));
    assert_eq!(rec.lookup(&y), Some(&d0));
    let out = rec.deliver(&update_message("y", &d0, &d1)).unwrap();
    assert_eq!(out, ApplyOutcome::Applied { clean: true });
    assert_eq!(rec.lookup(&y), Some(&d1));
}

#[test]
fn patches_for_different_names_stay_separate() {
    let mut rec = Reconciler::new();
    let a = "a".to_string();
    let b = "b".to_string();
    let d0 = doc(r#"{"n": 0}"#);
    let d1 = doc(r#"{"n": 1}"#);
    rec.deliver(&update_message("a", &d0, &d1)).unwrap();
    assert_eq!(rec.pending_count(&a), 1);
    assert_eq!(rec.pending_count(&b), 0);
    rec.register(&b, d0.clone());
    // Registering b drains nothing of a's buffer.
    assert_eq!(rec.pending_count(&a), 1);
    assert_eq!(rec.lookup(&b), Some(&d0));
}

#[test]
fn emitted_patches_replay_to_final_state() {
    // The round-trip law on concrete values: a fresh document that replays
    // every emitted patch in order ends structurally equal to the server's
    // final state.
    let states = [
        doc(r#"{"players": {}, "round": 0}"#),
        doc(r#"{"players": {"ann": 3}, "round": 1}"#),
        doc(r#"{"players": {"ann": 3, "bob": 5}, "round": 2}"#),
        doc(r#"{"players": {"bob": 6}, "round": 3}"#),
    ];
    let mut rec = Reconciler::new();
    let name = "game".to_string();
    rec.register(&name, states[0].clone());
    for i in 0..states.len() - 1 {
        let out = rec
            .deliver(&update_message("game", &states[i], &states[i + 1]))
            .unwrap();
        assert_eq!(out, ApplyOutcome::Applied { clean: true });
    }
    assert_eq!(rec.lookup(&name), Some(&states[states.len() - 1]));
}

#[test]
fn server_value_lifecycle_drives_client() {
    let mut value = server_signal::NamedValue::new("counter".to_string(), doc(r#"{"value": 0}"#));
    let mut rec = Reconciler::new();
    let name = "counter".to_string();
    rec.register(&name, doc(r#"{"value": 0}"#));
    for i in 1..5 {
        let u = value.set(doc(&format!(r#"{{"value": {i}}}"#)));
        let out = rec.deliver(&wire(&u.name, &u.patch)).unwrap();
        assert_eq!(out, ApplyOutcome::Applied { clean: true });
    }
    assert_eq!(rec.lookup(&name), Some(&doc(r#"{"value": 4}"#)));
    assert_eq!(value.doc, doc(r#"{"value": 4}"#));
}

#[test]
fn empty_patch_applies_cleanly_and_changes_nothing() {
    let mut rec = Reconciler::new();
    let name = "x".to_string();
    let d0 = doc(r#"{"n": 0}"#);
    rec.register(&name, d0.clone());
    let out = rec.deliver(&wire("x", &Patch::default())).unwrap();
    assert_eq!(out, ApplyOutcome::Applied { clean: true });
    assert_eq!(rec.lookup(&name), Some(&d0));
}

#[test]
fn failing_move_leaves_replica_unchanged() {
    // A move is internally remove-then-add; when the add half fails, the
    // replica must still be left in its last-good state.
    let mut rec = Reconciler::new();
    let name = "xs".to_string();
    let d0 = doc("[1]");
    rec.register(&name, d0.clone());
    let p: Patch =
        serde_json::from_value(doc(r#"[{"op":"move","from":"/0","path":"/foo"}]"#)).unwrap();
    let out = rec.deliver(&wire("xs", &p)).unwrap();
    assert_eq!(out, ApplyOutcome::Applied { clean: false });
    assert_eq!(rec.lookup(&name), Some(&d0));
}

#[test]
fn failing_move_after_successful_op_leaves_replica_unchanged() {
    // Even with a successful operation before the failing move, the whole
    // patch is rejected without panicking and without a partial application.
    let mut rec = Reconciler::new();
    let name = "xs".to_string();
    let d0 = doc("[]");
    rec.register(&name, d0.clone());
    let p: Patch = serde_json::from_value(doc(
        r#"[{"op":"add","path":"/0","value":1},{"op":"move","from":"/0","path":"/foo"}]"#,
    ))
    .unwrap();
    let out = rec.deliver(&wire("xs", &p)).unwrap();
    assert_eq!(out, ApplyOutcome::Applied { clean: false });
    assert_eq!(rec.lookup(&name), Some(&d0));
}
