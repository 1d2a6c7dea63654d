//! A synthetic-data seeding engine: generators for a closed set of record
//! kinds, codecs that translate records to and from backend rows and
//! documents, in-memory models of the two persistence backends, and a
//! dispatch layer that resolves entity-kind and backend-kind selectors.
pub mod date;
pub mod dispatch;
pub mod doc;
pub mod error;
pub mod gen;
pub mod laws;
pub mod record;
pub mod row;
pub mod store;

