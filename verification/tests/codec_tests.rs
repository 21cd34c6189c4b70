use json_patch::Patch;
use serde_json::Value;
use server_signal::DecodeError;
use server_signal::ServerSignalUpdate;

fn doc(s: &str) -> Value {
    serde_json::from_str(s).unwrap()
}

fn wire(name: &str, patch: &Patch) -> String {
    format!(
        "{{\"name\":{},\"patch\":{}}}",
        serde_json::to_string(name).unwrap(),
        serde_json::to_string(patch).unwrap()
    )
}

#[test]
fn emitted_patch_is_exact_replace() {
    let old = doc(r#"{"value": 0}"#);
    let new = doc(r#"{"value": 1}"#);
    let u = ServerSignalUpdate::new_from_json("counter", &old, &new);
    assert_eq!(u.name, "counter");
    let expected: Patch =
        serde_json::from_value(doc(r#"[{"op":"replace","path":"/value","value":1}]"#)).unwrap();
    assert_eq!(u.patch, expected);
}

#[test]
fn emitted_patch_rebuilds_new_document() {
    let old = doc(r#"{"a": [1, 2], "b": {"c": "x"}}"#);
    let new = doc(r#"{"a": [1, 2, 3], "b": {"c": "y"}, "d": null}"#);
    let u = ServerSignalUpdate::new_from_json("thing", &old, &new);
    let mut rebuilt = old.clone();
    json_patch::patch(&mut rebuilt, &u.patch).unwrap();
    assert_eq!(rebuilt, new);
}

#[test]
fn decode_round_trips_an_emitted_update() {
    let old = doc(r#"{"value": 0}"#);
    let new = doc(r#"{"value": 7}"#);
    let u = ServerSignalUpdate::new_from_json("counter", &old, &new);
    let decoded = ServerSignalUpdate::decode(&wire(&u.name, &u.patch)).unwrap();
    assert_eq!(decoded.name, "counter");
    assert_eq!(decoded.patch, u.patch);
}

#[test]
fn decode_tolerates_unknown_extra_fields() {
    let decoded =
        ServerSignalUpdate::decode(r#"{"name": "x", "patch": [], "extra": {"ignored": true}}"#)
            .unwrap();
    assert_eq!(decoded.name, "x");
    assert_eq!(decoded.patch, Patch::default());
}

#[test]
fn decode_rejects_text_that_is_not_json() {
    assert_eq!(
        ServerSignalUpdate::decode("{").unwrap_err(),
        DecodeError::Malformed
    );
}

#[test]
fn decode_rejects_missing_name() {
    assert_eq!(
        ServerSignalUpdate::decode(r#"{"patch": []}"#).unwrap_err(),
        DecodeError::MissingName
    );
}

#[test]
fn decode_rejects_non_string_name() {
    assert_eq!(
        ServerSignalUpdate::decode(r#"{"name": 3, "patch": []}"#).unwrap_err(),
        DecodeError::NameNotString
    );
}

#[test]
fn decode_rejects_missing_patch() {
    assert_eq!(
        ServerSignalUpdate::decode(r#"{"name": "x"}"#).unwrap_err(),
        DecodeError::MissingPatch
    );
}

#[test]
fn decode_rejects_unrecognized_operation() {
    assert_eq!(
        ServerSignalUpdate::decode(r#"{"name": "x", "patch": [{"op": "mangle", "path": "/a"}]}"#)
            .unwrap_err(),
        DecodeError::InvalidPatch
    );
}
