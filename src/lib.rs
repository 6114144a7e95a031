//! A verified store for FHIR resources: JSON documents kept with a
//! per-resource-type search index and an append-only, diff-based audit trail.

pub mod api;
pub mod date;
pub mod history;
pub mod ids;
pub mod index;
pub mod json;
pub mod laws;
pub mod models;
pub mod patient;
pub mod schema;
pub mod search;
pub mod store;
pub mod text;
pub mod trigram;
