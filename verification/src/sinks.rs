//! The sink ports that the dispatcher drives, in their three variants:
//! network-forwarding, embedded store, and no-op/diagnostic. The no-op
//! sink is complete here; for the other two the library holds the
//! destination parameters, the statement text, and the parameter
//! marshalling, while the transport itself lives in the runtime around
//! the library.

use vstd::prelude::*;

use crate::json::operation_json;
use crate::serializer::{key_label, FileOperatedOn, Operation};

verus! {

/// The no-op/diagnostic sink: accepts every record, discards it, and
/// reports success.
pub struct MockView {}

impl MockView {
    /// Accepts a classified operation; never fails.
    pub fn update(&self, operation: Operation) -> (r: Result<(), ()>)
        ensures
            r is Ok,
    {
        let _ = operation;
        Ok(())
    }

    /// Accepts a file record; never fails.
    pub fn report(&self, file: FileOperatedOn) -> (r: Result<(), ()>)
        ensures
            r is Ok,
    {
        let _ = file;
        Ok(())
    }
}

/// The network-forwarding sink: holds the destination and prepares
/// each POST body. The persistent HTTP client lives in the runtime,
/// which swallows send failures.
pub struct HttpView {
    pub destination_url: String,
}

impl HttpView {
    /// A sink aimed at one destination.
    pub fn new(destination_url: &str) -> (v: HttpView)
        ensures
            v.destination_url@ == destination_url@,
    {
        HttpView { destination_url: String::from_str(destination_url) }
    }

    /// The body of the POST that forwards one operation.
    pub fn request_body(&self, operation: &Operation) -> (r: String)
        ensures
            r@ == operation_json(operation@),
    {
        operation.to_json()
    }
}

/// The embedded-store sink: holds the store's location, the idempotent
/// schema statements, the insert statements, and the parameter
/// marshalling. The connection lives in the runtime, which runs the
/// schema statements before the sink's first use and fails fatally if
/// it cannot.
pub struct SqliteView {
    pub db_path: String,
}

impl SqliteView {
    /// A sink aimed at one store location.
    pub fn new(db_path: &str) -> (v: SqliteView)
        ensures
            v.db_path@ == db_path@,
    {
        SqliteView { db_path: String::from_str(db_path) }
    }

    /// The idempotent statement that ensures the operations table.
    pub fn operations_schema() -> (r: String)
        ensures
            r@
                == "create table IF NOT EXISTS operations (user TEXT not null, users_group TEXT not null, executable TEXT not null, syscall TEXT not null, operation_key TEXT not null, unix_observation_time INTEGER);"@,
    {
        String::from_str(
            "create table IF NOT EXISTS operations (user TEXT not null, users_group TEXT not null, executable TEXT not null, syscall TEXT not null, operation_key TEXT not null, unix_observation_time INTEGER);",
        )
    }

    /// The idempotent statement that ensures the operated-on-files
    /// table.
    pub fn files_schema() -> (r: String)
        ensures
            r@
                == "create table IF NOT EXISTS operated_on_files (absolute_path TEXT not null, unix_observation_time INTEGER);"@,
    {
        String::from_str(
            "create table IF NOT EXISTS operated_on_files (absolute_path TEXT not null, unix_observation_time INTEGER);",
        )
    }

    /// The single-row parameterized insert for one operation.
    pub fn insert_operation_statement() -> (r: String)
        ensures
            r@
                == "INSERT INTO operations (user,users_group,executable,syscall,operation_key,unix_observation_time) VALUES (?1,?2,?3,?4,?5,?6)"@,
    {
        String::from_str(
            "INSERT INTO operations (user,users_group,executable,syscall,operation_key,unix_observation_time) VALUES (?1,?2,?3,?4,?5,?6)",
        )
    }

    /// The single-row parameterized insert for one file record.
    pub fn insert_file_statement() -> (r: String)
        ensures
            r@
                == "INSERT INTO operated_on_files (absolute_path, unix_observation_time) VALUES (?1,?2)"@,
    {
        String::from_str(
            "INSERT INTO operated_on_files (absolute_path, unix_observation_time) VALUES (?1,?2)",
        )
    }

    /// The six parameters of one operation insert, in statement order.
    pub fn operation_params(operation: &Operation) -> (p: Vec<String>)
        ensures
            p@.len() == 6,
            p@[0]@ == operation.user@,
            p@[1]@ == operation.group@,
            p@[2]@ == operation.executable@,
            p@[3]@ == operation.syscall@,
            p@[4]@ == key_label(operation.key),
            p@[5]@ == operation.timestamp@,
    {
        let mut p: Vec<String> = Vec::new();
        p.push(operation.user.clone());
        p.push(operation.group.clone());
        p.push(operation.executable.clone());
        p.push(operation.syscall.clone());
        p.push(operation.key.label());
        p.push(operation.timestamp.clone());
        p
    }

    /// The two parameters of one file-record insert, in statement
    /// order.
    pub fn file_params(file: &FileOperatedOn) -> (p: Vec<String>)
        ensures
            p@.len() == 2,
            p@[0]@ == file.name@,
            p@[1]@ == file.timestamp@,
    {
        let mut p: Vec<String> = Vec::new();
        p.push(file.name.clone());
        p.push(file.timestamp.clone());
        p
    }
}

} // verus!
