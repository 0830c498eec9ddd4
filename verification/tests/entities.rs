use yorishiro_core::entities::{
    check_entity_quota, check_entity_write, clamp_limit, entity_deletion_outcome,
    entity_not_found, error_field_pointer, escape_pointer_segment, page_window,
    resolve_entity_type, validate_data, ListEntitiesQuery, DEFAULT_LIST_LIMIT,
};
use yorishiro_core::error::YorishiroError;
use yorishiro_core::json::JsonValue;
use yorishiro_core::metaschema::{EntityTypeDef, FieldDef, FieldTypeName, MetaSchemaDefinition};

fn task_schema() -> MetaSchemaDefinition {
    let mut title = FieldDef::new(FieldTypeName::String);
    title.required = true;
    let mut task = EntityTypeDef::new();
    task.fields.insert("title".to_string(), title);
    let mut d = MetaSchemaDefinition::new("task-management");
    d.entity_types.insert("task".to_string(), task);
    d
}

fn object(members: Vec<(&str, JsonValue)>) -> JsonValue {
    JsonValue::Object(members.into_iter().map(|(k, v)| (k.to_string(), v)).collect())
}

fn check_default_list_query() {
    let query = ListEntitiesQuery::default();
    assert_eq!(query.limit, DEFAULT_LIST_LIMIT);
    assert_eq!(query.offset, 0);
    assert!(query.entity_type.is_none());
}

fn check_missing_required_field() {
    let def = task_schema();
    let entity_type_def = def.entity_types.get("task").unwrap();

    let err = validate_data(entity_type_def, &object(vec![])).unwrap_err();
    match err {
        YorishiroError::ValidationFailed { details, .. } => {
            assert!(details.iter().any(|d| d.field == "/title"), "details: {details:?}");
        }
        other => panic!("expected ValidationFailed, got {other:?}"),
    }
}

#[test]
fn entities_default_list_query_uses_a_sensible_page_size() {
    check_default_list_query();
}

#[test]
fn tests_default_list_query_uses_a_sensible_page_size() {
    check_default_list_query();
}

#[test]
fn entities_missing_required_field_points_at_the_missing_property() {
    check_missing_required_field();
}

#[test]
fn tests_missing_required_field_points_at_the_missing_property() {
    check_missing_required_field();
}

#[test]
fn conforming_data_validates() {
    let def = task_schema();
    let task = def.entity_types.get("task").unwrap();
    let data = object(vec![("title", JsonValue::String("buy milk".into()))]);
    assert_eq!(validate_data(task, &data), Ok(()));
}

#[test]
fn wrong_type_is_reported_at_its_location() {
    let def = task_schema();
    let task = def.entity_types.get("task").unwrap();
    let data = object(vec![("title", JsonValue::Number("5".into()))]);
    match validate_data(task, &data).unwrap_err() {
        YorishiroError::ValidationFailed { message, details, hint } => {
            assert_eq!(message, "entity data does not conform to its schema");
            assert_eq!(hint, "Check the entity_type field definitions against the submitted data");
            assert_eq!(details.len(), 1);
            assert_eq!(details[0].field, "/title");
            assert!(!details[0].problem.is_empty());
        }
        other => panic!("expected ValidationFailed, got {other:?}"),
    }
}

#[test]
fn pointer_segments_are_escaped() {
    assert_eq!(escape_pointer_segment("a/b~c"), "a~1b~0c");
    assert_eq!(escape_pointer_segment("plain"), "plain");
    assert_eq!(error_field_pointer("/items/0", Some("x/y")), "/items/0/x~1y");
    assert_eq!(error_field_pointer("/items/0", None), "/items/0");
    assert_eq!(error_field_pointer("", Some("title")), "/title");
}

#[test]
fn unknown_entity_type_is_not_found() {
    let def = task_schema();
    assert!(resolve_entity_type(&def, "task").is_ok());
    assert_eq!(
        resolve_entity_type(&def, "note").unwrap_err(),
        YorishiroError::NotFound {
            message: "entity_type 'note' is not defined in schema 'task-management'".to_string()
        }
    );
}

#[test]
fn entity_write_checks_type_then_data() {
    let def = task_schema();
    let good = object(vec![("title", JsonValue::String("x".into()))]);
    assert_eq!(check_entity_write(&def, "task", &good), Ok(()));
    assert!(matches!(
        check_entity_write(&def, "nope", &good),
        Err(YorishiroError::NotFound { .. })
    ));
    assert!(matches!(
        check_entity_write(&def, "task", &object(vec![])),
        Err(YorishiroError::ValidationFailed { .. })
    ));
}

#[test]
fn list_windows_are_clamped() {
    assert_eq!(clamp_limit(0), 1);
    assert_eq!(clamp_limit(-5), 1);
    assert_eq!(clamp_limit(50), 50);
    assert_eq!(clamp_limit(1000), 200);
    assert_eq!(page_window(500, -3), (200, 0));
    assert_eq!(page_window(10, 20), (10, 20));
}

#[test]
fn entity_quota_refuses_at_the_limit() {
    assert_eq!(check_entity_quota(7, None, 10_000), Ok(()));
    assert_eq!(check_entity_quota(7, Some(2), 1), Ok(()));
    assert_eq!(
        check_entity_quota(7, Some(2), 2),
        Err(YorishiroError::Conflict {
            message: "workspace '00000000-0000-0000-0000-000000000007' has reached its entity \
                      limit (2); raise max_entities or delete existing entities"
                .to_string()
        })
    );
}

#[test]
fn missing_entities_are_not_found() {
    let expected = YorishiroError::NotFound {
        message: "entity '00000000-0000-0000-0000-0000000000ff' was not found".to_string(),
    };
    assert_eq!(entity_not_found(0xff), expected);
    assert_eq!(entity_deletion_outcome(0, 0xff), Err(expected));
    assert_eq!(entity_deletion_outcome(3, 0xff), Ok(()));
}
