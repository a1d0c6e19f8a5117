use asana_sdk::entity::{decode_list, decode_single, encode_entity, ApiError, Entity};
use asana_sdk::json::JsonValue;
use asana_sdk::models::Descriptor;

fn desc(endpoint: &str, fields: &[&str]) -> Descriptor {
    Descriptor::new(
        endpoint.to_string(),
        fields.iter().map(|f| f.to_string()).collect(),
        Vec::new(),
    )
}

fn has_entry(entries: &[(String, JsonValue)], key: &str, value: &JsonValue) -> bool {
    entries.iter().any(|p| p.0 == key && &p.1 == value)
}

#[test]
fn list_decode() {
    let task = desc("tasks", &["name"]);
    let body = r#"{"data":[{"gid":"1","resource_type":"task","name":"A"},{"gid":"2","resource_type":"task","name":"B"}]}"#;
    let entities = decode_list(body, &task).unwrap();
    assert_eq!(entities.len(), 2);
    assert_eq!(entities[0].gid, "1");
    assert_eq!(entities[0].resource_type, "task");
    assert_eq!(
        entities[0].fields,
        vec![("name".to_string(), JsonValue::Str("A".to_string()))]
    );
    assert_eq!(entities[1].gid, "2");
    assert_eq!(
        entities[1].fields,
        vec![("name".to_string(), JsonValue::Str("B".to_string()))]
    );
}

#[test]
fn single_decode_splits_declared_and_extra() {
    let user = desc("users", &["email", "name"]);
    let body = r#"{"data":{"gid":"7","resource_type":"user","name":"N","email":"n@example.com","photo":null}}"#;
    let e: Entity = decode_single(body, &user).unwrap();
    assert_eq!(e.gid, "7");
    assert_eq!(e.resource_type, "user");
    assert!(has_entry(&e.fields, "email", &JsonValue::Str("n@example.com".to_string())));
    assert!(has_entry(&e.fields, "name", &JsonValue::Str("N".to_string())));
    assert!(has_entry(&e.extra, "photo", &JsonValue::Null));
    assert!(!has_entry(&e.fields, "photo", &JsonValue::Null));
}

#[test]
fn round_trip_of_unknown_fields() {
    let task = desc("tasks", &["name"]);
    let body = r#"{"data":{"gid":"9","resource_type":"task","name":"T","custom":123}}"#;
    let e = decode_single(body, &task).unwrap();
    let wanted = JsonValue::Num("123".to_string());
    assert!(has_entry(&e.extra, "custom", &wanted));

    match encode_entity(e) {
        JsonValue::Obj(entries) => {
            assert!(has_entry(&entries, "custom", &wanted));
            assert!(has_entry(&entries, "gid", &JsonValue::Str("9".to_string())));
            assert!(has_entry(
                &entries,
                "resource_type",
                &JsonValue::Str("task".to_string())
            ));
            assert!(has_entry(&entries, "name", &JsonValue::Str("T".to_string())));
        }
        other => panic!("expected an object, got {:?}", other),
    }
}

#[test]
fn fatal_on_missing_data_key_single() {
    let user = desc("users", &["name"]);
    let body = r#"{"something":{"gid":"1","resource_type":"user"}}"#;
    assert_eq!(decode_single(body, &user), Err(ApiError::Decode));
}

#[test]
fn fatal_on_missing_data_key_list() {
    let user = desc("users", &["name"]);
    let body = r#"{"something":[]}"#;
    assert_eq!(decode_list(body, &user).unwrap_err(), ApiError::Decode);
}

#[test]
fn fatal_on_invalid_json() {
    let user = desc("users", &["name"]);
    assert_eq!(decode_single("not json", &user), Err(ApiError::Decode));
    assert!(decode_list("{\"data\":[", &user).is_err());
}

#[test]
fn fatal_on_wrong_envelope_shape() {
    let user = desc("users", &["name"]);
    assert_eq!(decode_single(r#"{"data":5}"#, &user), Err(ApiError::Decode));
    assert_eq!(decode_single(r#"[1,2]"#, &user), Err(ApiError::Decode));
    assert!(decode_list(r#"{"data":{"gid":"1"}}"#, &user).is_err());
    assert!(decode_list(r#"{"data":[5]}"#, &user).is_err());
}

#[test]
fn fatal_on_entity_without_implicit_fields() {
    let user = desc("users", &["name"]);
    assert_eq!(
        decode_single(r#"{"data":{"resource_type":"user","name":"N"}}"#, &user),
        Err(ApiError::Decode)
    );
    assert_eq!(
        decode_single(r#"{"data":{"gid":"1","name":"N"}}"#, &user),
        Err(ApiError::Decode)
    );
    assert_eq!(
        decode_single(r#"{"data":{"gid":5,"resource_type":"user"}}"#, &user),
        Err(ApiError::Decode)
    );
}

#[test]
fn empty_list_decodes() {
    let user = desc("users", &["name"]);
    let entities = decode_list(r#"{"data":[]}"#, &user).unwrap();
    assert!(entities.is_empty());
}

#[test]
fn nested_values_survive_decoding() {
    let task = desc("tasks", &["memberships"]);
    let body = r#"{"data":{"gid":"3","resource_type":"task","memberships":[{"section":{"gid":"4"}}],"flag":true}}"#;
    let e = decode_single(body, &task).unwrap();
    let membership = JsonValue::Arr(vec![JsonValue::Obj(vec![(
        "section".to_string(),
        JsonValue::Obj(vec![("gid".to_string(), JsonValue::Str("4".to_string()))]),
    )])]);
    assert!(has_entry(&e.fields, "memberships", &membership));
    assert!(has_entry(&e.extra, "flag", &JsonValue::Bool(true)));
}
