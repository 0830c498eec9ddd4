//! Verified core of a multi-tenant knowledge store with user-defined schemas: API-key scopes
//! and roles, metaschema definitions and their JSON Schema projection, schema versioning
//! diffs, and the pure decisions behind entity, relation, recall, search and embedding
//! operations. Database and network I/O live outside this crate and call into it.

pub mod error;
pub mod text;
pub mod name_map;
pub mod json;
pub mod metaschema;
pub mod entities;
pub mod tenancy;
pub mod auth;
pub mod relations;
pub mod schemas;
pub mod recall;
pub mod search;
pub mod embedding;
pub mod templates;
