//! Startup settings of the forwarder: the selected sink variant, the
//! channel path, and the per-sink destination parameters. Every absent
//! value falls back to its documented default; loading the settings
//! source itself is left to the runtime around the library.

use vstd::prelude::*;

verus! {

/// The selected destination for structured records.
#[derive(Debug, Clone, Copy, PartialEq, Eq, Structural)]
pub enum ViewMode {
    Http,
    Sqlite,
    Mock,
}

impl ViewMode {
    /// The textual label of the mode.
    pub fn label(&self) -> (r: String)
        ensures
            *self is Http ==> r@ == "Http"@,
            *self is Sqlite ==> r@ == "Sqlite"@,
            *self is Mock ==> r@ == "Mock"@,
    {
        match self {
            ViewMode::Http => String::from_str("Http"),
            ViewMode::Sqlite => String::from_str("Sqlite"),
            ViewMode::Mock => String::from_str("Mock"),
        }
    }
}

/// The network sink's destination.
#[derive(Debug)]
pub struct HttpSettings {
    pub http_destination: String,
}

/// The embedded store's location.
#[derive(Debug)]
pub struct SqliteSettings {
    pub db_path: String,
}

/// The resolved startup settings.
#[derive(Debug)]
pub struct StartupSettings {
    pub dispatcher_directory: String,
    pub view_mode: ViewMode,
    pub http_settings: HttpSettings,
    pub sqlite_settings: SqliteSettings,
}

/// The default channel path.
pub fn default_dispatcher_directory() -> (r: String)
    ensures
        r@ == "/var/run/dispatcher"@,
{
    String::from_str("/var/run/dispatcher")
}

/// The default sink variant: the no-op/diagnostic sink.
pub fn default_view_mode() -> (r: ViewMode)
    ensures
        r is Mock,
{
    ViewMode::Mock
}

/// The default embedded-store location.
pub fn default_sqlite_settings() -> (r: SqliteSettings)
    ensures
        r.db_path@ == "reports.sqlite"@,
{
    SqliteSettings { db_path: String::from_str("reports.sqlite") }
}

/// The default network destination.
pub fn default_http_settings() -> (r: HttpSettings)
    ensures
        r.http_destination@ == "localhost:8080"@,
{
    HttpSettings { http_destination: String::from_str("localhost:8080") }
}

/// Resolves the startup settings: every value that the settings source
/// supplied is kept, and every absent one falls back to its documented
/// default.
pub fn configure(
    dispatcher_directory: Option<String>,
    view_mode: Option<ViewMode>,
    http_settings: Option<HttpSettings>,
    sqlite_settings: Option<SqliteSettings>,
) -> (r: StartupSettings)
    ensures
        dispatcher_directory matches Some(d) ==> r.dispatcher_directory@ == d@,
        dispatcher_directory is None ==> r.dispatcher_directory@ == "/var/run/dispatcher"@,
        view_mode matches Some(v) ==> r.view_mode == v,
        view_mode is None ==> r.view_mode is Mock,
        http_settings matches Some(h) ==> r.http_settings.http_destination@ == h.http_destination@,
        http_settings is None ==> r.http_settings.http_destination@ == "localhost:8080"@,
        sqlite_settings matches Some(s) ==> r.sqlite_settings.db_path@ == s.db_path@,
        sqlite_settings is None ==> r.sqlite_settings.db_path@ == "reports.sqlite"@,
{
    StartupSettings {
        dispatcher_directory: match dispatcher_directory {
            Some(d) => d,
            None => default_dispatcher_directory(),
        },
        view_mode: match view_mode {
            Some(v) => v,
            None => default_view_mode(),
        },
        http_settings: match http_settings {
            Some(h) => h,
            None => default_http_settings(),
        },
        sqlite_settings: match sqlite_settings {
            Some(s) => s,
            None => default_sqlite_settings(),
        },
    }
}

} // verus!
