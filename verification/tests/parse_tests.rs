use audit_forwarder::audit_parse::LogParsingUtils;
use audit_forwarder::serializer::{AuditError, FileOperatedOn, Operation, OperationKey};

const COMPLIANT_LOG_LINE: &str = "type=SYSCALL msg=audit(1698576562.955:570): arch=c000003e syscall=257 success=yes exit=3 a0=ffffff9c a1=55a917750550 a2=90800 a3=0 items=1 ppid=20120 pid=20680 auid=1000 uid=1000 gid=1000 euid=1000 suid=1000 fsuid=1000 egid=1000 sgid=1000 fsgid=1000 tty=pts2 ses=14 comm=\"ls\" exe=\"/usr/bin/ls\" subj=unconfined key=\"READ\"ARCH=x86_64 AUID=\"maciek\" UID=\"maciek\" GID=\"maciek\" EUID=\"maciek\" SUID=\"maciek\" FSUID=\"maciek\" EGID=\"maciek\" SGID=\"maciek\"";
const NUMBER_OF_SPACES_IN_LINE: usize = 36;

const FILE_LOG_LINE: &str = "type=PATH msg=audit(1364481363.243:24287): item=0 name=\"/etc/ssh/sshd_config\" inode=409248 dev=fd:00 mode=0100600 ouid=0 ogid=0 rdev=00:00 obj=system_u:object_r:etc_t:s0  objtype=NORMAL cap_fp=none cap_fi=none cap_fe=0 cap_fver=0";

#[test]
fn should_create_a_map_of_values() {
    //given
    let input = String::from(COMPLIANT_LOG_LINE);
    //when
    let map = LogParsingUtils::create_a_map_of_values(input);
    //then
    assert_eq!(map.len(), NUMBER_OF_SPACES_IN_LINE);
}

#[test]
fn should_split_by_key_and_value() {
    //given
    let input = "type=SYSCALL";
    //when
    let split_values = LogParsingUtils::split_by_key_and_value(input);
    //then
    assert_eq!(split_values.0, "type");
    assert_eq!(split_values.1, "=SYSCALL");
}

#[test]
fn should_reduce_equal_sign() {
    //given
    let input = ("type", "=SYSCALL");
    //when
    let split_values: (&str, String) = (input.0, LogParsingUtils::reduce_equal_signs(input.1));
    //then
    assert_eq!(split_values.0, "type");
    assert_eq!(split_values.1, "SYSCALL");
}

#[test]
fn should_deduce_correct_operation() {
    //given
    let input = "\"READ\"ARCH=x86_64".to_string();
    //when
    let op = LogParsingUtils::get_operation_from_key(input);
    //then
    matches!(op, OperationKey::READ);
}

#[test]
fn should_have_one_of_fields_as_unknown() {
    //given
    let input = String::from(COMPLIANT_LOG_LINE);
    //when
    let operation = Operation::new(input);
    //then
    assert_eq!(operation.unwrap().unwrap().syscall, "unknown");
}

#[test]
fn should_extract_timestamp() {
    //give
    let expected_timestamp = "1698576562".to_string();
    //when
    let timestamp_string = "audit(1698576562.955:570):".to_string();
    let result = LogParsingUtils::get_unix_time_from_timestamp(timestamp_string).unwrap();
    //then
    assert_eq!(result, expected_timestamp);
}

#[test]
fn tag_without_read_token_classifies_as_write() {
    let op = LogParsingUtils::get_operation_from_key("\"WRITE\"".to_string());
    assert!(matches!(op, OperationKey::WRITE));
    let op = LogParsingUtils::get_operation_from_key("unlink".to_string());
    assert!(matches!(op, OperationKey::WRITE));
}

#[test]
fn tag_with_read_token_anywhere_classifies_as_read() {
    let op = LogParsingUtils::get_operation_from_key("prefixREADsuffix".to_string());
    assert!(matches!(op, OperationKey::READ));
    let op = LogParsingUtils::get_operation_from_key("READONLY_PROBE".to_string());
    assert!(matches!(op, OperationKey::READ));
}

#[test]
fn line_without_operation_tag_yields_no_operation() {
    let line = "type=SYSCALL msg=audit(1698576562.955:570): uid=1000".to_string();
    let operation = Operation::new(line).unwrap();
    assert!(operation.is_none());
}

#[test]
fn line_with_tag_and_no_other_fields_defaults_to_unknown() {
    let line = "key=\"READ\" msg=audit(1.2:3):".to_string();
    let operation = Operation::new(line).unwrap().unwrap();
    assert_eq!(operation.user, "unknown");
    assert_eq!(operation.group, "unknown");
    assert_eq!(operation.executable, "unknown");
    assert_eq!(operation.syscall, "unknown");
    assert!(matches!(operation.key, OperationKey::READ));
}

#[test]
fn quoted_values_lose_their_quotes() {
    let operation = Operation::new(String::from(COMPLIANT_LOG_LINE)).unwrap().unwrap();
    assert_eq!(operation.user, "maciek");
    assert_eq!(operation.group, "maciek");
    assert_eq!(operation.executable, "/usr/bin/ls");
}

#[test]
fn malformed_timestamp_is_a_distinct_failure() {
    let line = "key=\"READ\" msg=notaudit".to_string();
    let result = Operation::new(line);
    assert_eq!(result.unwrap_err(), AuditError::MalformedTimestamp);
}

#[test]
fn missing_timestamp_field_is_a_distinct_failure() {
    let line = "key=\"READ\" uid=1000".to_string();
    let result = Operation::new(line);
    assert_eq!(result.unwrap_err(), AuditError::MalformedTimestamp);
}

#[test]
fn timestamp_shape_is_matched_exactly() {
    for bad in [
        "audit(.955:570):",
        "audit(1698576562.955:570)",
        "audit(1698576562:955.570):",
        "audit(1698576562.955:570):x",
        "Audit(1698576562.955:570):",
        "audit(1698576562..955:570):",
        "audit(1698576562.955:):",
    ] {
        assert!(LogParsingUtils::get_unix_time_from_timestamp(bad.to_string()).is_err());
    }
    let ok = LogParsingUtils::get_unix_time_from_timestamp("audit(7.0:0):".to_string());
    assert_eq!(ok.unwrap(), "7");
}

#[test]
fn invalid_escape_in_a_value_is_a_value_failure() {
    let line = "key=\"READ\" msg=audit(1.2:3): UID=\"a\\qz\"".to_string();
    let result = Operation::new(line);
    assert_eq!(result.unwrap_err(), AuditError::MalformedValue);
}

#[test]
fn later_duplicate_keys_override_earlier_ones() {
    let map = LogParsingUtils::create_a_map_of_values("a=1 a=2 b=3".to_string());
    assert_eq!(map.len(), 2);
    assert_eq!(map.get("a").unwrap().as_str(), "2");
    assert_eq!(map.get("b").unwrap().as_str(), "3");
}

#[test]
fn malformed_fragments_are_discarded() {
    let map = LogParsingUtils::create_a_map_of_values("noequals = bar=1  ".to_string());
    assert_eq!(map.len(), 1);
    assert_eq!(map.get("bar").unwrap().as_str(), "1");
    assert!(map.get("noequals").is_none());
}

#[test]
fn empty_line_parses_to_an_empty_map() {
    let map = LogParsingUtils::create_a_map_of_values(String::new());
    assert_eq!(map.len(), 0);
}

#[test]
fn split_and_reduce_round_trip_the_value() {
    let fragment = "key==weird=value";
    let (key, raw) = LogParsingUtils::split_by_key_and_value(fragment);
    assert_eq!(key, "key");
    assert_eq!(LogParsingUtils::reduce_equal_signs(raw.as_str()), "=weird=value");
}

#[test]
fn path_line_inherits_the_supplied_timestamp() {
    let files = FileOperatedOn::new(FILE_LOG_LINE.to_string(), "123".to_string())
        .unwrap()
        .unwrap();
    assert_eq!(files.len(), 1);
    assert_eq!(files[0].name, "/etc/ssh/sshd_config");
    assert_eq!(files[0].timestamp, "123");
}

#[test]
fn line_without_filename_field_yields_no_file_records() {
    let files = FileOperatedOn::new(
        "type=SYSCALL msg=audit(1.2:3): uid=0".to_string(),
        "123".to_string(),
    )
    .unwrap();
    assert!(files.is_none());
}
