use yorishiro_core::error::{InsertFailure, YorishiroError};
use yorishiro_core::json::JsonValue;
use yorishiro_core::metaschema::{
    diff, EntityTypeDef, FieldDef, FieldTypeName, MetaSchemaDefinition, RelationTypeDef,
};
use yorishiro_core::recall::{
    neighbor_fetch_limit, shallow_copy_data, truncate_neighbors, DEFAULT_RECALL_LIMIT,
};
use yorishiro_core::relations::{
    check_relation_type, relation_deletion_outcome, relation_insert_error, relation_not_found,
    relation_properties, ListRelationsQuery, DEFAULT_NEIGHBORS_LIMIT,
};
use yorishiro_core::schemas::{
    no_active_schema, plan_schema_version, schema_insert_error, schema_lock_key,
    schema_not_found,
};
use yorishiro_core::search::{SearchQuery, DEFAULT_SEARCH_LIMIT};

const TASK: u128 = 0x11;
const PROJECT: u128 = 0x22;

fn field(t: FieldTypeName, required: bool, x_embed: bool) -> FieldDef {
    let mut f = FieldDef::new(t);
    f.required = required;
    f.x_embed = x_embed;
    f
}

fn project_task_schema() -> MetaSchemaDefinition {
    let mut task = EntityTypeDef::new();
    task.fields.insert("title".into(), field(FieldTypeName::String, true, true));
    task.fields.insert("note".into(), field(FieldTypeName::String, false, false));
    let mut project = EntityTypeDef::new();
    project.fields.insert("title".into(), field(FieldTypeName::String, true, true));
    let mut d = MetaSchemaDefinition::new("task-management");
    d.entity_types.insert("task".into(), task);
    d.entity_types.insert("project".into(), project);
    d.relation_types.insert("belongs_to".into(), RelationTypeDef::new("task", "project"));
    d
}

fn object(members: Vec<(&str, JsonValue)>) -> JsonValue {
    JsonValue::Object(members.into_iter().map(|(k, v)| (k.to_string(), v)).collect())
}

fn text(s: &str) -> JsonValue {
    JsonValue::String(s.to_string())
}

#[test]
fn relation_type_must_match_its_endpoints() {
    let d = project_task_schema();
    assert_eq!(check_relation_type(&d, "belongs_to", "task", "project"), Ok(()));
    assert_eq!(
        check_relation_type(&d, "belongs_to", "project", "task"),
        Err(YorishiroError::RelationTypeMismatch {
            message: "relation_type 'belongs_to' expects source='task' target='project', but got \
                      source='project' target='task'"
                .to_string()
        })
    );
    assert_eq!(
        check_relation_type(&d, "no_such_relation", "task", "project"),
        Err(YorishiroError::NotFound {
            message: "relation_type 'no_such_relation' is not defined in schema 'task-management'"
                .to_string()
        })
    );
}

#[test]
fn absent_relation_properties_become_an_empty_object() {
    assert_eq!(relation_properties(JsonValue::Null), JsonValue::Object(vec![]));
    let given = object(vec![("weight", JsonValue::Number("2".into()))]);
    assert_eq!(relation_properties(given.clone()), given);
}

#[test]
fn relation_insert_failures_are_classified() {
    assert_eq!(
        relation_insert_error(InsertFailure::UniqueViolation("dup".into()), "belongs_to", TASK, PROJECT),
        YorishiroError::Conflict {
            message: "relation 'belongs_to' between '00000000-0000-0000-0000-000000000011' and \
                      '00000000-0000-0000-0000-000000000022' already exists"
                .to_string()
        }
    );
    assert_eq!(
        relation_insert_error(InsertFailure::ForeignKeyViolation("fk".into()), "belongs_to", TASK, PROJECT),
        YorishiroError::NotFound {
            message: "source '00000000-0000-0000-0000-000000000011' or target \
                      '00000000-0000-0000-0000-000000000022' no longer exists"
                .to_string()
        }
    );
    assert_eq!(
        relation_insert_error(InsertFailure::Other("io".into()), "belongs_to", TASK, PROJECT),
        YorishiroError::Internal("io".to_string())
    );
}

#[test]
fn missing_relations_are_not_found() {
    let expected = YorishiroError::NotFound {
        message: "relation '00000000-0000-0000-0000-000000000011' was not found".to_string(),
    };
    assert_eq!(relation_not_found(TASK), expected);
    assert_eq!(relation_deletion_outcome(0, TASK), Err(expected));
    assert_eq!(relation_deletion_outcome(1, TASK), Ok(()));
}

#[test]
fn listing_defaults() {
    let q = ListRelationsQuery::default();
    assert_eq!(q.limit, 50);
    assert_eq!(q.offset, 0);
    assert!(q.source_id.is_none() && q.target_id.is_none() && q.relation_type.is_none());
    let s = SearchQuery::default();
    assert_eq!(s.limit, DEFAULT_SEARCH_LIMIT);
    assert_eq!(DEFAULT_SEARCH_LIMIT, 10);
    assert!(s.entity_type.is_none() && s.filter.is_none());
    assert_eq!(DEFAULT_RECALL_LIMIT, DEFAULT_NEIGHBORS_LIMIT);
    assert_eq!(DEFAULT_NEIGHBORS_LIMIT, 20);
}

#[test]
fn shallow_neighbors_keep_only_embedded_fields() {
    let d = project_task_schema();
    let data = object(vec![("note", text("internal only")), ("title", text("write report"))]);
    assert_eq!(
        shallow_copy_data(&d, "task", &data),
        object(vec![("title", text("write report"))])
    );
    assert_eq!(shallow_copy_data(&d, "epic", &data), JsonValue::Object(vec![]));
    assert_eq!(shallow_copy_data(&d, "task", &text("not an object")), JsonValue::Object(vec![]));
    let only_note = object(vec![("note", text("n"))]);
    assert_eq!(shallow_copy_data(&d, "task", &only_note), JsonValue::Object(vec![]));
}

#[test]
fn recall_reads_one_more_neighbor_than_it_returns() {
    assert_eq!(neighbor_fetch_limit(2), 3);
    assert_eq!(neighbor_fetch_limit(0), 2);
    assert_eq!(neighbor_fetch_limit(900), 201);

    let (kept, truncated) = truncate_neighbors(vec![1, 2, 3], 2);
    assert_eq!(kept, vec![1, 2]);
    assert!(truncated);
    let (kept, truncated) = truncate_neighbors(vec![1, 2], 2);
    assert_eq!(kept, vec![1, 2]);
    assert!(!truncated);
    let (kept, truncated) = truncate_neighbors(vec![7, 8], -4);
    assert_eq!(kept, vec![7]);
    assert!(truncated);
}

#[test]
fn first_schema_version_is_one_and_later_versions_follow_the_active_one() {
    let d = project_task_schema();
    let (v, report) = plan_schema_version(None, &d);
    assert_eq!(v, 1);
    assert!(!report.is_breaking);
    assert!(report.reasons.is_empty());

    let mut changed = project_task_schema();
    changed.relation_types = MetaSchemaDefinition::new("x").relation_types;
    let (v, report) = plan_schema_version(Some((4, &d)), &changed);
    assert_eq!(v, 5);
    assert_eq!(report, diff(&d, &changed));
    assert_eq!(report.reasons, vec!["relation_type 'belongs_to' was removed".to_string()]);
}

#[test]
fn schema_errors_name_what_was_missing() {
    assert_eq!(
        schema_lock_key(1, "task-management"),
        "00000000-0000-0000-0000-000000000001:task-management"
    );
    assert_eq!(
        no_active_schema("does-not-exist"),
        YorishiroError::NotFound { message: "no active schema named 'does-not-exist'".to_string() }
    );
    assert_eq!(
        schema_not_found(2),
        YorishiroError::NotFound {
            message: "schema '00000000-0000-0000-0000-000000000002' was not found".to_string()
        }
    );
    assert_eq!(
        schema_insert_error(InsertFailure::UniqueViolation("dup".into()), "task-management", 3),
        YorishiroError::Conflict {
            message: "schema 'task-management' version 3 already exists (concurrent create?)"
                .to_string()
        }
    );
    assert_eq!(
        schema_insert_error(InsertFailure::Other("io".into()), "task-management", 3),
        YorishiroError::Internal("io".to_string())
    );
}
