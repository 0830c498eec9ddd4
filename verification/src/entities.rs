//! Entity rules: resolving an entity type in a schema, validating entity data against the
//! projected JSON Schema, pointing at the offending location of each problem, listing
//! windows and the per-workspace entity quota.
use vstd::prelude::*;

use crate::error::{ValidationDetail, YorishiroError};
use crate::json::{JsonValue, json_text};
use crate::metaschema::projection::entity_schema;
use crate::metaschema::{EntityTypeDef, MetaSchemaDefinition, entity_type_to_json_schema};
use crate::name_map::lookup;
use crate::text::{int_decimal, push_char, push_i64_decimal, string_of, uuid_text, uuid_to_text};

verus! {

/// Page size used when a listing does not ask for one.
pub const DEFAULT_LIST_LIMIT: i64 = 50;

/// RFC 6901 escaping of one JSON Pointer segment: `~` becomes `~0`, `/` becomes `~1`.
pub open spec fn pointer_escape(s: Seq<char>) -> Seq<char>
    decreases s.len(),
{
    if s.len() == 0 {
        Seq::empty()
    } else {
        pointer_escape(s.drop_last()) + if s.last() == '~' {
            seq!['~', '0']
        } else if s.last() == '/' {
            seq!['~', '1']
        } else {
            seq![s.last()]
        }
    }
}

proof fn lemma_pointer_escape_no_slash(s: Seq<char>)
    ensures
        !pointer_escape(s).contains('/'),
    decreases s.len(),
{
    if s.len() > 0 {
        lemma_pointer_escape_no_slash(s.drop_last());
        let a = pointer_escape(s.drop_last());
        let b = if s.last() == '~' {
            seq!['~', '0']
        } else if s.last() == '/' {
            seq!['~', '1']
        } else {
            seq![s.last()]
        };
        assert forall|i: int| 0 <= i < (a + b).len() implies (a + b)[i] != '/' by {
            if i < a.len() {
                assert((a + b)[i] == a[i]);
                assert(!a.contains('/'));
            }
        }
    }
}

/// Escapes `~` and `/` per RFC 6901 before a value is embedded as a JSON Pointer segment.
/// The result never contains `/`.
pub fn escape_pointer_segment(segment: &str) -> (r: String)
    ensures
        r@ == pointer_escape(segment@),
        !r@.contains('/'),
{
    let mut r = String::new();
    let n = segment.unicode_len();
    let mut i: usize = 0;
    while i < n
        invariant
            n == segment@.len(),
            i <= n,
            r@ == pointer_escape(segment@.subrange(0, i as int)),
        decreases n - i,
    {
        let c = segment.get_char(i);
        if c == '~' {
            push_char(&mut r, '~');
            push_char(&mut r, '0');
        } else if c == '/' {
            push_char(&mut r, '~');
            push_char(&mut r, '1');
        } else {
            push_char(&mut r, c);
        }
        proof {
            let p = segment@.subrange(0, i + 1);
            assert(p.drop_last() =~= segment@.subrange(0, i as int));
            assert(p.last() == c);
            assert(r@ =~= pointer_escape(p));
        }
        i = i + 1;
    }
    proof {
        assert(segment@.subrange(0, n as int) =~= segment@);
        lemma_pointer_escape_no_slash(segment@);
    }
    r
}

/// Where a problem lies, as a JSON Pointer: the location of the failing value, extended by
/// the missing property's name when the problem is a missing required property.
pub open spec fn problem_pointer(base: Seq<char>, missing: Option<Seq<char>>) -> Seq<char> {
    match missing {
        Some(name) => base + seq!['/'] + pointer_escape(name),
        None => base,
    }
}

/// The JSON Pointer of a problem: `base` (the failing value's location), with the missing
/// property's escaped name appended for a missing required property.
pub fn error_field_pointer(base: &str, missing_property: Option<&str>) -> (r: String)
    ensures
        r@ == problem_pointer(base@, match missing_property {
            Some(p) => Some(p@),
            None => None,
        }),
{
    let mut r = string_of(base);
    if let Some(name) = missing_property {
        push_char(&mut r, '/');
        r.append(escape_pointer_segment(name).as_str());
    }
    r
}

/// One problem a JSON Schema validator reports: the location of the failing value, the
/// missing property for a `required` violation, and the validator's description.
#[derive(Debug, Clone, PartialEq, Eq)]
pub struct SchemaViolation {
    pub instance_path: String,
    pub required_property: Option<String>,
    pub message: String,
}

/// A violation as plain characters.
pub open spec fn violation_view(v: SchemaViolation) -> (Seq<char>, Option<Seq<char>>, Seq<char>) {
    (v.instance_path@, match v.required_property {
        Some(p) => Some(p@),
        None => None,
    }, v.message@)
}

pub open spec fn violations_view(s: Seq<SchemaViolation>) -> Seq<(Seq<char>, Option<Seq<char>>, Seq<char>)>
    decreases s.len(),
{
    if s.len() == 0 {
        Seq::empty()
    } else {
        violations_view(s.drop_last()).push(violation_view(s.last()))
    }
}

/// What validating the JSON text `data_text` against the JSON Schema text `schema_text`
/// reports: every violation in the validator's order, or why the schema could not be used.
pub uninterp spec fn jsonschema_report(schema_text: Seq<char>, data_text: Seq<char>) -> Result<
    Seq<(Seq<char>, Option<Seq<char>>, Seq<char>)>,
    Seq<char>,
>;

/// Validates the JSON text `data_text` against the JSON Schema text `schema_text` with
/// `jsonschema::validator_for` and `Validator::iter_errors`, after reading both texts with
/// `serde_json::from_str`. The result is the validator's, named by [`jsonschema_report`].
#[verifier::external_body]
fn schema_violations(schema_text: &str, data_text: &str) -> (r: Result<Vec<SchemaViolation>, String>)
    ensures
        match r {
            Ok(v) => jsonschema_report(schema_text@, data_text@) == Ok::<_, Seq<char>>(violations_view(v@)),
            Err(e) => jsonschema_report(schema_text@, data_text@) == Err::<Seq<(Seq<char>, Option<Seq<char>>, Seq<char>)>, _>(e@),
        },
{
    let schema: serde_json::Value = serde_json::from_str(schema_text).map_err(|e| e.to_string())?;
    let data: serde_json::Value = serde_json::from_str(data_text).map_err(|e| e.to_string())?;
    let validator = jsonschema::validator_for(&schema).map_err(|e| e.to_string())?;
    Ok(validator.iter_errors(&data).map(|e| SchemaViolation {
        instance_path: e.instance_path().to_string(),
        required_property: match e.kind() {
            jsonschema::error::ValidationErrorKind::Required { property } => property.as_str().map(String::from),
            _ => None,
        },
        message: e.to_string(),
    }).collect())
}

/// The detail reported for one violation.
pub open spec fn detail_matches(d: ValidationDetail, v: (Seq<char>, Option<Seq<char>>, Seq<char>)) -> bool {
    d.field@ == problem_pointer(v.0, v.1) && d.problem@ == v.2
}

/// The outcome for a list of violations: success when there are none, otherwise a
/// validation failure with one detail per violation, in order.
pub open spec fn violations_outcome(vs: Seq<(Seq<char>, Option<Seq<char>>, Seq<char>)>, r: Result<(), YorishiroError>) -> bool {
    if vs.len() == 0 {
        r is Ok
    } else {
        r matches Err(YorishiroError::ValidationFailed { message, details, hint }) && message@
            == "entity data does not conform to its schema"@ && hint@
            == "Check the entity_type field definitions against the submitted data"@
            && details@.len() == vs.len() && forall|i: int|
            0 <= i < vs.len() ==> detail_matches(#[trigger] details@[i], vs[i])
    }
}

proof fn lemma_violations_view_len(s: Seq<SchemaViolation>)
    ensures
        violations_view(s).len() == s.len(),
    decreases s.len(),
{
    if s.len() > 0 {
        lemma_violations_view_len(s.drop_last());
    }
}

proof fn lemma_violations_view_index(s: Seq<SchemaViolation>, i: int)
    requires
        0 <= i < s.len(),
    ensures
        violations_view(s)[i] == violation_view(s[i]),
    decreases s.len(),
{
    lemma_violations_view_len(s.drop_last());
    if i < s.len() - 1 {
        lemma_violations_view_index(s.drop_last(), i);
    }
}

/// Turns the validator's violations into the outcome of a data validation.
pub fn violations_to_result(violations: Vec<SchemaViolation>) -> (r: Result<(), YorishiroError>)
    ensures
        violations_outcome(violations_view(violations@), r),
{
    proof {
        lemma_violations_view_len(violations@);
    }
    if violations.len() == 0 {
        return Ok(());
    }
    let mut details: Vec<ValidationDetail> = Vec::new();
    let mut i: usize = 0;
    while i < violations.len()
        invariant
            i <= violations@.len(),
            details@.len() == i,
            violations_view(violations@).len() == violations@.len(),
            forall|j: int| 0 <= j < i ==> detail_matches(#[trigger] details@[j], violations_view(violations@)[j]),
        decreases violations@.len() - i,
    {
        let v = &violations[i];
        let field = match &v.required_property {
            Some(p) => error_field_pointer(v.instance_path.as_str(), Some(p.as_str())),
            None => error_field_pointer(v.instance_path.as_str(), None),
        };
        proof {
            lemma_violations_view_index(violations@, i as int);
        }
        details.push(ValidationDetail { field, problem: v.message.clone() });
        i = i + 1;
    }
    Err(
        YorishiroError::ValidationFailed {
            message: string_of("entity data does not conform to its schema"),
            details,
            hint: string_of("Check the entity_type field definitions against the submitted data"),
        },
    )
}

/// Validates `data` against the JSON Schema projected from the entity type, the same schema
/// that describes tool inputs. A schema the validator cannot use is an internal error.
pub fn validate_data(entity_type_def: &EntityTypeDef, data: &JsonValue) -> (r: Result<(), YorishiroError>)
    ensures
        match jsonschema_report(json_text(entity_schema(*entity_type_def)), json_text(data@)) {
            Err(e) => r matches Err(YorishiroError::Internal(m)) && m@ == e,
            Ok(vs) => violations_outcome(vs, r),
        },
{
    let schema = entity_type_to_json_schema(entity_type_def);
    let schema_text = schema.to_json_text();
    let data_text = data.to_json_text();
    match schema_violations(schema_text.as_str(), data_text.as_str()) {
        Err(e) => Err(YorishiroError::Internal(e)),
        Ok(vs) => violations_to_result(vs),
    }
}

pub open spec fn unknown_entity_type_message(entity_type: Seq<char>, schema_name: Seq<char>) -> Seq<char> {
    "entity_type '"@ + entity_type + "' is not defined in schema '"@ + schema_name + "'"@
}

/// The definition of `entity_type` in a schema, or `NotFound` when the schema does not
/// define it.
pub fn resolve_entity_type<'a>(definition: &'a MetaSchemaDefinition, entity_type: &str) -> (r: Result<
    &'a EntityTypeDef,
    YorishiroError,
>)
    ensures
        r is Ok <==> lookup(definition.entity_types@, entity_type@) is Some,
        r matches Ok(et) ==> lookup(definition.entity_types@, entity_type@) == Some(*et),
        r matches Err(e) ==> e matches YorishiroError::NotFound { message } && message@
            == unknown_entity_type_message(entity_type@, definition.name@),
{
    match definition.entity_types.get(entity_type) {
        Some(et) => Ok(et),
        None => {
            let mut m = string_of("entity_type '");
            m.append(entity_type);
            m.append("' is not defined in schema '");
            m.append(definition.name.as_str());
            m.append("'");
            Err(YorishiroError::NotFound { message: m })
        },
    }
}

/// The checks an entity write passes before it is stored, against the schema it is
/// written with (the active schema for a new entity, the entity's own schema for an
/// update): the entity type must be defined there (else `NotFound`), and the data must
/// conform to the type's projected JSON Schema (else `ValidationFailed`).
pub fn check_entity_write(definition: &MetaSchemaDefinition, entity_type: &str, data: &JsonValue) -> (r:
    Result<(), YorishiroError>)
    ensures
        match lookup(definition.entity_types@, entity_type@) {
            None => r matches Err(YorishiroError::NotFound { message }) && message@
                == unknown_entity_type_message(entity_type@, definition.name@),
            Some(et) => match jsonschema_report(json_text(entity_schema(et)), json_text(data@)) {
                Err(e) => r matches Err(YorishiroError::Internal(m)) && m@ == e,
                Ok(vs) => violations_outcome(vs, r),
            },
        },
{
    let et = resolve_entity_type(definition, entity_type)?;
    validate_data(et, data)
}

pub open spec fn entity_not_found_message(id: u128) -> Seq<char> {
    "entity '"@ + uuid_text(id) + "' was not found"@
}

/// The error for an entity that does not exist in the workspace.
pub fn entity_not_found(id: u128) -> (r: YorishiroError)
    ensures
        r matches YorishiroError::NotFound { message } && message@ == entity_not_found_message(id),
{
    let mut m = string_of("entity '");
    m.append(uuid_to_text(id).as_str());
    m.append("' was not found");
    YorishiroError::NotFound { message: m }
}

/// The outcome of deleting entity `id`, given how many rows the delete removed: none means
/// it did not exist.
pub fn entity_deletion_outcome(rows_affected: u64, id: u128) -> (r: Result<(), YorishiroError>)
    ensures
        r is Ok <==> rows_affected > 0,
        r matches Err(e) ==> e matches YorishiroError::NotFound { message } && message@
            == entity_not_found_message(id),
{
    if rows_affected == 0 {
        Err(entity_not_found(id))
    } else {
        Ok(())
    }
}

/// Options for listing entities.
#[derive(Debug, Clone, PartialEq, Eq)]
pub struct ListEntitiesQuery {
    pub entity_type: Option<String>,
    /// JSONB containment filter (`data @> filter`), e.g. `{"status": "active"}`.
    pub filter: Option<JsonValue>,
    pub limit: i64,
    pub offset: i64,
}

impl Default for ListEntitiesQuery {
    fn default() -> (r: Self)
        ensures
            r.entity_type is None,
            r.filter is None,
            r.limit == DEFAULT_LIST_LIMIT,
            r.offset == 0,
    {
        ListEntitiesQuery { entity_type: None, filter: None, limit: DEFAULT_LIST_LIMIT, offset: 0 }
    }
}

/// A requested page size clamped to `1..=200`.
pub open spec fn clamped_limit(limit: i64) -> i64 {
    if limit < 1 {
        1
    } else if limit > 200 {
        200
    } else {
        limit
    }
}

/// Clamps a requested page size to `1..=200`.
pub fn clamp_limit(limit: i64) -> (r: i64)
    ensures
        r == clamped_limit(limit),
        1 <= r <= 200,
        1 <= limit <= 200 ==> r == limit,
        limit < 1 ==> r == 1,
        limit > 200 ==> r == 200,
{
    if limit < 1 {
        1
    } else if limit > 200 {
        200
    } else {
        limit
    }
}

/// A page size is clamped to the nearest value in `1..=200`: a request already in that
/// range is served as asked, one below it gets 1 and one above it gets 200.
pub proof fn lemma_clamp_is_nearest_in_range(limit: i64, m: int)
    requires
        1 <= m <= 200,
    ensures
        1 <= clamped_limit(limit) <= 200,
        1 <= limit <= 200 ==> clamped_limit(limit) == limit,
        limit < 1 ==> clamped_limit(limit) == 1,
        limit > 200 ==> clamped_limit(limit) == 200,
        (if clamped_limit(limit) >= limit {
            clamped_limit(limit) - limit
        } else {
            limit - clamped_limit(limit)
        }) <= (if m >= limit {
            m - limit
        } else {
            limit - m
        }),
{
}

/// The window a listing reads: the page size clamped to `1..=200` and a non-negative offset.
pub fn page_window(limit: i64, offset: i64) -> (r: (i64, i64))
    ensures
        1 <= limit <= 200 ==> r.0 == limit,
        r.0 == clamped_limit(limit),
        r.1 == if offset < 0 {
            0
        } else {
            offset
        },
{
    (clamp_limit(limit), if offset < 0 {
        0
    } else {
        offset
    })
}

pub open spec fn entity_limit_message(workspace_id: u128, max: i32) -> Seq<char> {
    "workspace '"@ + uuid_text(workspace_id) + "' has reached its entity limit ("@ + int_decimal(
        max as int,
    ) + "); raise max_entities or delete existing entities"@
}

/// Enforces a workspace's entity quota before an insert: no limit (`None`) always allows;
/// otherwise the insert is allowed only while `current_count` is below the limit.
pub fn check_entity_quota(workspace_id: u128, max_entities: Option<i32>, current_count: i64) -> (r: Result<(), YorishiroError>)
    ensures
        r is Ok <==> (max_entities is None || current_count < max_entities->0),
        r matches Err(e) ==> e matches YorishiroError::Conflict { message } && message@
            == entity_limit_message(workspace_id, max_entities->0),
{
    match max_entities {
        None => Ok(()),
        Some(max) => {
            if current_count >= max as i64 {
                let mut m = string_of("workspace '");
                m.append(uuid_to_text(workspace_id).as_str());
                m.append("' has reached its entity limit (");
                push_i64_decimal(&mut m, max as i64);
                m.append("); raise max_entities or delete existing entities");
                Err(YorishiroError::Conflict { message: m })
            } else {
                Ok(())
            }
        },
    }
}

} // verus!
