use audit_forwarder::settings::{
    configure, default_dispatcher_directory, default_http_settings, default_sqlite_settings,
    default_view_mode, HttpSettings, SqliteSettings, ViewMode,
};

#[test]
fn absent_values_fall_back_to_documented_defaults() {
    let settings = configure(None, None, None, None);
    assert_eq!(settings.dispatcher_directory, "/var/run/dispatcher");
    assert_eq!(settings.view_mode, ViewMode::Mock);
    assert_eq!(settings.http_settings.http_destination, "localhost:8080");
    assert_eq!(settings.sqlite_settings.db_path, "reports.sqlite");
}

#[test]
fn supplied_values_are_kept() {
    let settings = configure(
        Some("/var/run/disp".to_string()),
        Some(ViewMode::Http),
        Some(HttpSettings {
            http_destination: "localhost:9000".to_string(),
        }),
        Some(SqliteSettings {
            db_path: "db.sqlite".to_string(),
        }),
    );
    assert_eq!(settings.dispatcher_directory, "/var/run/disp");
    assert_eq!(settings.view_mode, ViewMode::Http);
    assert_eq!(settings.http_settings.http_destination, "localhost:9000");
    assert_eq!(settings.sqlite_settings.db_path, "db.sqlite");
}

#[test]
fn one_supplied_value_leaves_the_others_on_default() {
    let settings = configure(Some("/var/run/disp".to_string()), None, None, None);
    assert_eq!(settings.dispatcher_directory, "/var/run/disp");
    assert_eq!(settings.view_mode, ViewMode::Mock);
    assert_eq!(settings.http_settings.http_destination, "localhost:8080");
    assert_eq!(settings.sqlite_settings.db_path, "reports.sqlite");
}

#[test]
fn defaults_match_their_documented_values() {
    assert_eq!(default_dispatcher_directory(), "/var/run/dispatcher");
    assert_eq!(default_view_mode(), ViewMode::Mock);
    assert_eq!(default_http_settings().http_destination, "localhost:8080");
    assert_eq!(default_sqlite_settings().db_path, "reports.sqlite");
    assert_eq!(ViewMode::Http.label(), "Http");
    assert_eq!(ViewMode::Mock.label(), "Mock");
    assert_eq!(ViewMode::Sqlite.label(), "Sqlite");
}
