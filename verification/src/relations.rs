//! Relation rules: which relation types a schema allows between which entity types, the
//! defaults of a new relation, and how failed writes are reported.
use vstd::prelude::*;

use crate::error::{InsertFailure, YorishiroError};
use crate::json::{Json, JsonValue};
use crate::metaschema::MetaSchemaDefinition;
use crate::name_map::{lookup, str_eq};
use crate::text::{string_of, uuid_text, uuid_to_text};

verus! {

/// Page size used when a relation listing does not ask for one.
pub const DEFAULT_LIST_LIMIT: i64 = 50;

/// Number of neighbors returned when the caller does not ask for a number.
pub const DEFAULT_NEIGHBORS_LIMIT: i64 = 20;

/// Options for listing relations: optional filters on the endpoints and the relation type,
/// and the window to read.
#[derive(Debug, Clone, PartialEq, Eq)]
pub struct ListRelationsQuery {
    pub source_id: Option<u128>,
    pub target_id: Option<u128>,
    pub relation_type: Option<String>,
    pub limit: i64,
    pub offset: i64,
}

impl Default for ListRelationsQuery {
    fn default() -> (r: Self)
        ensures
            r.source_id is None,
            r.target_id is None,
            r.relation_type is None,
            r.limit == DEFAULT_LIST_LIMIT,
            r.offset == 0,
    {
        ListRelationsQuery {
            source_id: None,
            target_id: None,
            relation_type: None,
            limit: DEFAULT_LIST_LIMIT,
            offset: 0,
        }
    }
}

pub open spec fn unknown_relation_type_message(relation_type: Seq<char>, schema_name: Seq<char>) -> Seq<char> {
    "relation_type '"@ + relation_type + "' is not defined in schema '"@ + schema_name + "'"@
}

pub open spec fn relation_mismatch_message(
    relation_type: Seq<char>,
    expected_source: Seq<char>,
    expected_target: Seq<char>,
    source_type: Seq<char>,
    target_type: Seq<char>,
) -> Seq<char> {
    "relation_type '"@ + relation_type + "' expects source='"@ + expected_source + "' target='"@
        + expected_target + "', but got source='"@ + source_type + "' target='"@ + target_type
        + "'"@
}

/// Checks a relation of type `relation_type` from an entity of type `source_type` to one
/// of type `target_type` against the schema the source entity was created with: the type
/// must be defined (else `NotFound`) and must connect exactly these two entity types, in
/// this direction (else `RelationTypeMismatch`).
pub fn check_relation_type(
    definition: &MetaSchemaDefinition,
    relation_type: &str,
    source_type: &str,
    target_type: &str,
) -> (r: Result<(), YorishiroError>)
    ensures
        match lookup(definition.relation_types@, relation_type@) {
            None => r matches Err(YorishiroError::NotFound { message }) && message@
                == unknown_relation_type_message(relation_type@, definition.name@),
            Some(d) => if d.source@ == source_type@ && d.target@ == target_type@ {
                r is Ok
            } else {
                r matches Err(YorishiroError::RelationTypeMismatch { message }) && message@
                    == relation_mismatch_message(
                    relation_type@,
                    d.source@,
                    d.target@,
                    source_type@,
                    target_type@,
                )
            },
        },
{
    match definition.relation_types.get(relation_type) {
        None => {
            let mut m = string_of("relation_type '");
            m.append(relation_type);
            m.append("' is not defined in schema '");
            m.append(definition.name.as_str());
            m.append("'");
            Err(YorishiroError::NotFound { message: m })
        },
        Some(d) => {
            if str_eq(d.source.as_str(), source_type) && str_eq(d.target.as_str(), target_type) {
                Ok(())
            } else {
                let mut m = string_of("relation_type '");
                m.append(relation_type);
                m.append("' expects source='");
                m.append(d.source.as_str());
                m.append("' target='");
                m.append(d.target.as_str());
                m.append("', but got source='");
                m.append(source_type);
                m.append("' target='");
                m.append(target_type);
                m.append("'");
                Err(YorishiroError::RelationTypeMismatch { message: m })
            }
        },
    }
}

/// The properties a new relation is stored with: an absent (`null`) value becomes the
/// empty object; anything else is kept as given.
pub fn relation_properties(properties: JsonValue) -> (r: JsonValue)
    ensures
        r@ == if properties@ == Json::Null {
            Json::Object(Seq::empty())
        } else {
            properties@
        },
{
    if properties.is_null() {
        proof {
            assert(crate::json::json_model_members(Seq::<(String, JsonValue)>::empty())
                =~= Seq::<(Seq<char>, Json)>::empty());
        }
        JsonValue::Object(Vec::new())
    } else {
        properties
    }
}

pub open spec fn duplicate_relation_message(relation_type: Seq<char>, source_id: u128, target_id: u128) -> Seq<char> {
    "relation '"@ + relation_type + "' between '"@ + uuid_text(source_id) + "' and '"@ + uuid_text(
        target_id,
    ) + "' already exists"@
}

pub open spec fn vanished_endpoint_message(source_id: u128, target_id: u128) -> Seq<char> {
    "source '"@ + uuid_text(source_id) + "' or target '"@ + uuid_text(target_id)
        + "' no longer exists"@
}

/// The error reported when storing a relation fails: a duplicate is a `Conflict`; a
/// missing endpoint (an entity deleted between the existence check and the insert) is
/// `NotFound`, as the upfront check would have said; anything else is `Internal`.
pub fn relation_insert_error(
    failure: InsertFailure,
    relation_type: &str,
    source_id: u128,
    target_id: u128,
) -> (r: YorishiroError)
    ensures
        match failure {
            InsertFailure::UniqueViolation(_) => r matches YorishiroError::Conflict { message }
                && message@ == duplicate_relation_message(relation_type@, source_id, target_id),
            InsertFailure::ForeignKeyViolation(_) => r matches YorishiroError::NotFound { message }
                && message@ == vanished_endpoint_message(source_id, target_id),
            InsertFailure::Other(d) => r matches YorishiroError::Internal(m) && m@ == d@,
        },
{
    match failure {
        InsertFailure::UniqueViolation(_) => {
            let mut m = string_of("relation '");
            m.append(relation_type);
            m.append("' between '");
            m.append(uuid_to_text(source_id).as_str());
            m.append("' and '");
            m.append(uuid_to_text(target_id).as_str());
            m.append("' already exists");
            YorishiroError::Conflict { message: m }
        },
        InsertFailure::ForeignKeyViolation(_) => {
            let mut m = string_of("source '");
            m.append(uuid_to_text(source_id).as_str());
            m.append("' or target '");
            m.append(uuid_to_text(target_id).as_str());
            m.append("' no longer exists");
            YorishiroError::NotFound { message: m }
        },
        InsertFailure::Other(d) => YorishiroError::Internal(d),
    }
}

pub open spec fn relation_not_found_message(id: u128) -> Seq<char> {
    "relation '"@ + uuid_text(id) + "' was not found"@
}

/// The error for a relation that does not exist in the workspace.
pub fn relation_not_found(id: u128) -> (r: YorishiroError)
    ensures
        r matches YorishiroError::NotFound { message } && message@ == relation_not_found_message(id),
{
    let mut m = string_of("relation '");
    m.append(uuid_to_text(id).as_str());
    m.append("' was not found");
    YorishiroError::NotFound { message: m }
}

/// The outcome of deleting relation `id`, given how many rows the delete removed: none
/// means it did not exist.
pub fn relation_deletion_outcome(rows_affected: u64, id: u128) -> (r: Result<(), YorishiroError>)
    ensures
        r is Ok <==> rows_affected > 0,
        r matches Err(e) ==> e matches YorishiroError::NotFound { message } && message@
            == relation_not_found_message(id),
{
    if rows_affected == 0 {
        Err(relation_not_found(id))
    } else {
        Ok(())
    }
}

} // verus!
