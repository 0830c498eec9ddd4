//! The shape of a meta-schema definition.
use vstd::prelude::*;

use crate::json::JsonValue;
use crate::name_map::NameMap;
use crate::text::string_of;

verus! {

/// The value types a field may declare.
#[derive(Debug, Clone, Copy, PartialEq, Eq, Structural)]
pub enum FieldTypeName {
    String,
    Number,
    Integer,
    Boolean,
    Array,
}

/// The JSON Schema `type` keyword value for a field type.
pub open spec fn field_type_text(t: FieldTypeName) -> Seq<char> {
    match t {
        FieldTypeName::String => "string"@,
        FieldTypeName::Number => "number"@,
        FieldTypeName::Integer => "integer"@,
        FieldTypeName::Boolean => "boolean"@,
        FieldTypeName::Array => "array"@,
    }
}

/// The name `{:?}` prints for a field type.
pub open spec fn field_type_debug_name(t: FieldTypeName) -> Seq<char> {
    match t {
        FieldTypeName::String => "String"@,
        FieldTypeName::Number => "Number"@,
        FieldTypeName::Integer => "Integer"@,
        FieldTypeName::Boolean => "Boolean"@,
        FieldTypeName::Array => "Array"@,
    }
}

impl FieldTypeName {
    /// The JSON Schema `type` keyword value for this field type.
    pub fn as_str(self) -> (r: &'static str)
        ensures
            r@ == field_type_text(self),
    {
        match self {
            FieldTypeName::String => "string",
            FieldTypeName::Number => "number",
            FieldTypeName::Integer => "integer",
            FieldTypeName::Boolean => "boolean",
            FieldTypeName::Array => "array",
        }
    }

    /// The name `{:?}` prints for this field type.
    pub fn debug_name(self) -> (r: &'static str)
        ensures
            r@ == field_type_debug_name(self),
    {
        match self {
            FieldTypeName::String => "String",
            FieldTypeName::Number => "Number",
            FieldTypeName::Integer => "Integer",
            FieldTypeName::Boolean => "Boolean",
            FieldTypeName::Array => "Array",
        }
    }
}

/// The element type of an array field.
#[derive(Debug, Clone, PartialEq, Eq)]
pub struct ArrayItems {
    /// The JSON Schema `type` of each element (the `type` member of `items`).
    pub item_type: String,
}

/// A field definition: one of the supported value types plus its constraints. Attributes
/// this crate does not interpret (`x-` extensions other than `x-embed`/`x-ui`) are kept in
/// `extra`, in key order.
#[derive(Debug, Clone, PartialEq, Eq)]
pub struct FieldDef {
    /// The declared value type (the `type` attribute).
    pub field_type: FieldTypeName,
    pub required: bool,
    /// Allowed values (the `enum` attribute).
    pub enum_values: Option<Vec<String>>,
    pub format: Option<String>,
    /// Lower bound, as the JSON number literal the definition carries.
    pub minimum: Option<String>,
    /// Upper bound, as the JSON number literal the definition carries.
    pub maximum: Option<String>,
    pub default: Option<JsonValue>,
    pub items: Option<ArrayItems>,
    /// Whether the field's value feeds the entity's embedding (`x-embed`).
    pub x_embed: bool,
    /// Client rendering hints (`x-ui`), carried through untouched.
    pub x_ui: Option<JsonValue>,
    pub extra: Vec<(String, JsonValue)>,
}

impl FieldDef {
    /// A field of the given type with no constraints: optional, not embedded.
    pub fn new(field_type: FieldTypeName) -> (r: FieldDef)
        ensures
            r.field_type == field_type,
            !r.required,
            r.enum_values is None,
            r.format is None,
            r.minimum is None,
            r.maximum is None,
            r.default is None,
            r.items is None,
            !r.x_embed,
            r.x_ui is None,
            r.extra@.len() == 0,
    {
        FieldDef {
            field_type,
            required: false,
            enum_values: None,
            format: None,
            minimum: None,
            maximum: None,
            default: None,
            items: None,
            x_embed: false,
            x_ui: None,
            extra: Vec::new(),
        }
    }
}

/// An entity type: its fields, by name.
#[derive(Debug, Clone, PartialEq, Eq)]
pub struct EntityTypeDef {
    pub description: Option<String>,
    pub fields: NameMap<FieldDef>,
}

impl EntityTypeDef {
    /// An entity type with no fields.
    pub fn new() -> (r: EntityTypeDef)
        ensures
            r.description is None,
            r.fields@.len() == 0,
            r.fields.wf(),
    {
        EntityTypeDef { description: None, fields: NameMap::new() }
    }
}

/// A relation type: the entity types it connects, from `source` to `target`.
#[derive(Debug, Clone, PartialEq, Eq)]
pub struct RelationTypeDef {
    pub source: String,
    pub target: String,
    pub description: Option<String>,
}

impl RelationTypeDef {
    /// A relation type from `source` to `target`, without a description.
    pub fn new(source: &str, target: &str) -> (r: RelationTypeDef)
        ensures
            r.source@ == source@,
            r.target@ == target@,
            r.description is None,
    {
        RelationTypeDef { source: string_of(source), target: string_of(target), description: None }
    }
}

/// A named meta-schema: entity types and relation types, each by name.
#[derive(Debug, Clone, PartialEq, Eq)]
pub struct MetaSchemaDefinition {
    pub name: String,
    pub description: Option<String>,
    pub entity_types: NameMap<EntityTypeDef>,
    pub relation_types: NameMap<RelationTypeDef>,
}

impl MetaSchemaDefinition {
    /// Every map of the definition is in name order with each name once.
    pub open spec fn wf(&self) -> bool {
        &&& self.entity_types.wf()
        &&& self.relation_types.wf()
        &&& forall|i: int|
            0 <= i < self.entity_types@.len() ==> (#[trigger] self.entity_types@[i]).1.fields.wf()
    }

    /// A definition with the given name and no types.
    pub fn new(name: &str) -> (r: MetaSchemaDefinition)
        ensures
            r.name@ == name@,
            r.description is None,
            r.entity_types@.len() == 0,
            r.relation_types@.len() == 0,
            r.wf(),
    {
        MetaSchemaDefinition {
            name: string_of(name),
            description: None,
            entity_types: NameMap::new(),
            relation_types: NameMap::new(),
        }
    }
}

} // verus!
