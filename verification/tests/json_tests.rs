use audit_forwarder::serializer::{Operation, OperationKey};

fn sample_operation() -> Operation {
    Operation {
        user: "maciek".to_string(),
        group: "maciek".to_string(),
        executable: "/usr/bin/ls".to_string(),
        syscall: "unknown".to_string(),
        timestamp: "1698576562".to_string(),
        key: OperationKey::READ,
    }
}

#[test]
fn operation_serializes_to_compact_json() {
    let expected = "{\"user\":\"maciek\",\"group\":\"maciek\",\"executable\":\"/usr/bin/ls\",\"syscall\":\"unknown\",\"timestamp\":\"1698576562\",\"key\":\"READ\"}";
    assert_eq!(sample_operation().to_json(), expected);
}

#[test]
fn write_operations_serialize_their_label() {
    let mut operation = sample_operation();
    operation.key = OperationKey::WRITE;
    assert!(operation.to_json().ends_with("\"key\":\"WRITE\"}"));
}

#[test]
fn special_characters_are_escaped() {
    let mut operation = sample_operation();
    operation.user = "a\"b\\c\nd\te\u{1}f".to_string();
    let expected_user = "\"a\\\"b\\\\c\\nd\\te\\u0001f\"";
    let json = operation.to_json();
    assert!(json.contains(expected_user), "got: {}", json);
}

#[test]
fn serialized_records_parse_back_with_a_json_parser() {
    let mut operation = sample_operation();
    operation.user = "we\u{1b}ird \"user\" \\ name\r\n".to_string();
    operation.executable = "/usr/bin/\u{8}strange\u{c}".to_string();
    let json = operation.to_json();
    let value: serde_json::Value = serde_json::from_str(&json).unwrap();
    assert_eq!(value["user"].as_str().unwrap(), operation.user);
    assert_eq!(value["executable"].as_str().unwrap(), operation.executable);
    assert_eq!(value["syscall"].as_str().unwrap(), "unknown");
    assert_eq!(value["timestamp"].as_str().unwrap(), "1698576562");
    assert_eq!(value["key"].as_str().unwrap(), "READ");
}

#[test]
fn serialization_agrees_with_the_reference_serializer() {
    let operation = {
        let mut op = sample_operation();
        op.group = "g\"r\\p\u{7f}\u{0}".to_string();
        op
    };
    // the same record, serialized by serde_json field by field
    let mut reference_map = serde_json::Map::new();
    reference_map.insert(
        "user".to_string(),
        serde_json::Value::String(operation.user.clone()),
    );
    reference_map.insert(
        "group".to_string(),
        serde_json::Value::String(operation.group.clone()),
    );
    reference_map.insert(
        "executable".to_string(),
        serde_json::Value::String(operation.executable.clone()),
    );
    reference_map.insert(
        "syscall".to_string(),
        serde_json::Value::String(operation.syscall.clone()),
    );
    reference_map.insert(
        "timestamp".to_string(),
        serde_json::Value::String(operation.timestamp.clone()),
    );
    reference_map.insert(
        "key".to_string(),
        serde_json::Value::String("READ".to_string()),
    );
    let reference = serde_json::Value::Object(reference_map);
    let parsed: serde_json::Value = serde_json::from_str(&operation.to_json()).unwrap();
    assert_eq!(parsed, reference);
}
