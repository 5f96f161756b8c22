//! Turns an index service's XML result document into archival object and
//! datastream records, and renders those records as SQL statements.
pub mod text;
pub mod error;
pub mod record;
pub mod assembler;
pub mod event;
pub mod walker;
pub mod response;
pub mod laws;
pub mod remote;
