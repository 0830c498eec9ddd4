//! Meta-schemas: user-defined entity types, fields and relation types, the JSON Schema
//! they project to, and the versioning rules that classify a change between two of them.
pub mod types;
pub mod projection;
pub mod versioning;

pub use projection::entity_type_to_json_schema;
pub use types::{
    ArrayItems, EntityTypeDef, FieldDef, FieldTypeName, MetaSchemaDefinition, RelationTypeDef,
};
pub use versioning::{diff, VersioningDiff};
