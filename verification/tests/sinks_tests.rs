use audit_forwarder::serializer::{FileOperatedOn, Operation, OperationKey};
use audit_forwarder::sinks::{HttpView, MockView, SqliteView};

fn sample_operation() -> Operation {
    Operation {
        user: "maciek".to_string(),
        group: "users".to_string(),
        executable: "/usr/bin/ls".to_string(),
        syscall: "257".to_string(),
        timestamp: "1698576562".to_string(),
        key: OperationKey::WRITE,
    }
}

#[test]
fn mock_view_accepts_everything() {
    let view = MockView {};
    assert!(view.update(sample_operation()).is_ok());
    let file = FileOperatedOn {
        name: "/etc/ssh/sshd_config".to_string(),
        timestamp: "1698576562".to_string(),
    };
    assert!(view.report(file).is_ok());
}

#[test]
fn http_view_holds_its_destination_and_body() {
    let view = HttpView::new("localhost:9000/operations");
    assert_eq!(view.destination_url, "localhost:9000/operations");
    let body = view.request_body(&sample_operation());
    assert_eq!(
        body,
        "{\"user\":\"maciek\",\"group\":\"users\",\"executable\":\"/usr/bin/ls\",\"syscall\":\"257\",\"timestamp\":\"1698576562\",\"key\":\"WRITE\"}"
    );
}

#[test]
fn sqlite_view_holds_its_location() {
    let view = SqliteView::new("reports.sqlite");
    assert_eq!(view.db_path, "reports.sqlite");
}

#[test]
fn sqlite_statements_create_both_tables_idempotently() {
    assert!(SqliteView::operations_schema().starts_with("create table IF NOT EXISTS operations"));
    assert!(SqliteView::files_schema().starts_with("create table IF NOT EXISTS operated_on_files"));
    assert_eq!(
        SqliteView::insert_operation_statement(),
        "INSERT INTO operations (user,users_group,executable,syscall,operation_key,unix_observation_time) VALUES (?1,?2,?3,?4,?5,?6)"
    );
    assert_eq!(
        SqliteView::insert_file_statement(),
        "INSERT INTO operated_on_files (absolute_path, unix_observation_time) VALUES (?1,?2)"
    );
}

#[test]
fn operation_parameters_come_in_statement_order() {
    let params = SqliteView::operation_params(&sample_operation());
    assert_eq!(
        params,
        vec![
            "maciek".to_string(),
            "users".to_string(),
            "/usr/bin/ls".to_string(),
            "257".to_string(),
            "WRITE".to_string(),
            "1698576562".to_string(),
        ]
    );
}

#[test]
fn file_parameters_come_in_statement_order() {
    let file = FileOperatedOn {
        name: "/etc/ssh/sshd_config".to_string(),
        timestamp: "1698576562".to_string(),
    };
    let params = SqliteView::file_params(&file);
    assert_eq!(params, vec!["/etc/ssh/sshd_config".to_string(), "1698576562".to_string()]);
}
