//! Telemetry sampling: parsers that turn probe output into normalized
//! records, the JSON line form of a record, and the slot arithmetic of a
//! fixed-capacity circular log file.

pub mod text;
pub mod record;
pub mod ring;
pub mod parse;
pub mod cycle;
