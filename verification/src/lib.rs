//! A verified core for a host-resident audit-event forwarder.
//!
//! The library parses raw audit-subsystem log lines into structured
//! records, classifies the kind of file operation they describe, and
//! prepares those records for dispatch to a configurable destination.

pub mod audit_parse;
pub mod controller;
pub mod json;
pub mod serializer;
pub mod settings;
pub mod sinks;
pub mod text;
