use yorishiro_core::json::JsonValue;
use yorishiro_core::metaschema::{
    diff, entity_type_to_json_schema, ArrayItems, EntityTypeDef, FieldDef, FieldTypeName,
    MetaSchemaDefinition, RelationTypeDef,
};

fn field(t: FieldTypeName) -> FieldDef {
    FieldDef::new(t)
}

fn required(t: FieldTypeName) -> FieldDef {
    let mut f = FieldDef::new(t);
    f.required = true;
    f
}

fn enum_field(values: &[&str]) -> FieldDef {
    let mut f = FieldDef::new(FieldTypeName::String);
    f.enum_values = Some(values.iter().map(|v| v.to_string()).collect());
    f
}

fn entity(fields: Vec<(&str, FieldDef)>) -> EntityTypeDef {
    let mut e = EntityTypeDef::new();
    for (name, f) in fields {
        e.fields.insert(name.to_string(), f);
    }
    e
}

fn schema(
    name: &str,
    entity_types: Vec<(&str, EntityTypeDef)>,
    relation_types: Vec<(&str, &str, &str)>,
) -> MetaSchemaDefinition {
    let mut d = MetaSchemaDefinition::new(name);
    for (entity_name, e) in entity_types {
        d.entity_types.insert(entity_name.to_string(), e);
    }
    for (rel, source, target) in relation_types {
        d.relation_types.insert(rel.to_string(), RelationTypeDef::new(source, target));
    }
    d
}

fn check_adding_optional_field_is_non_breaking() {
    let old = schema("n", vec![("task", entity(vec![("title", required(FieldTypeName::String))]))], vec![]);
    let new = schema(
        "n",
        vec![(
            "task",
            entity(vec![
                ("title", required(FieldTypeName::String)),
                ("note", field(FieldTypeName::String)),
            ]),
        )],
        vec![],
    );
    let d = diff(&old, &new);
    assert!(!d.is_breaking, "reasons: {:?}", d.reasons);
}

fn check_adding_enum_value_is_non_breaking() {
    let old = schema("n", vec![("task", entity(vec![("status", enum_field(&["active"]))]))], vec![]);
    let new = schema(
        "n",
        vec![("task", entity(vec![("status", enum_field(&["active", "done"]))]))],
        vec![],
    );
    let d = diff(&old, &new);
    assert!(!d.is_breaking, "reasons: {:?}", d.reasons);
}

fn check_removing_field_is_breaking() {
    let old = schema(
        "n",
        vec![(
            "task",
            entity(vec![
                ("title", field(FieldTypeName::String)),
                ("note", field(FieldTypeName::String)),
            ]),
        )],
        vec![],
    );
    let new = schema("n", vec![("task", entity(vec![("title", field(FieldTypeName::String))]))], vec![]);
    let d = diff(&old, &new);
    assert!(d.is_breaking);
}

fn check_making_field_required_is_breaking() {
    let old = schema("n", vec![("task", entity(vec![("title", field(FieldTypeName::String))]))], vec![]);
    let new = schema("n", vec![("task", entity(vec![("title", required(FieldTypeName::String))]))], vec![]);
    let d = diff(&old, &new);
    assert!(d.is_breaking);
}

fn check_changing_field_type_is_breaking() {
    let old = schema("n", vec![("task", entity(vec![("done", field(FieldTypeName::Boolean))]))], vec![]);
    let new = schema("n", vec![("task", entity(vec![("done", field(FieldTypeName::String))]))], vec![]);
    let d = diff(&old, &new);
    assert!(d.is_breaking);
}

fn check_removing_entity_type_is_breaking() {
    let old = schema(
        "n",
        vec![
            ("task", entity(vec![("title", field(FieldTypeName::String))])),
            ("project", entity(vec![("title", field(FieldTypeName::String))])),
        ],
        vec![],
    );
    let new = schema("n", vec![("task", entity(vec![("title", field(FieldTypeName::String))]))], vec![]);
    let d = diff(&old, &new);
    assert!(d.is_breaking);
}

fn three_empty_types() -> Vec<(&'static str, EntityTypeDef)> {
    vec![("task", entity(vec![])), ("project", entity(vec![])), ("epic", entity(vec![]))]
}

fn check_changing_relation_type_target_is_breaking() {
    let old = schema("n", three_empty_types(), vec![("belongs_to", "task", "project")]);
    let new = schema("n", three_empty_types(), vec![("belongs_to", "task", "epic")]);
    let d = diff(&old, &new);
    assert!(d.is_breaking);
}

fn check_adding_new_entity_type_and_relation_type_is_non_breaking() {
    let old = schema("n", vec![("task", entity(vec![]))], vec![]);
    let new = schema(
        "n",
        vec![("task", entity(vec![])), ("project", entity(vec![]))],
        vec![("belongs_to", "task", "project")],
    );
    let d = diff(&old, &new);
    assert!(!d.is_breaking, "reasons: {:?}", d.reasons);
}

fn check_adding_new_required_field_is_breaking() {
    let old = schema("n", vec![("task", entity(vec![("title", field(FieldTypeName::String))]))], vec![]);
    let new = schema(
        "n",
        vec![(
            "task",
            entity(vec![
                ("title", field(FieldTypeName::String)),
                ("priority", required(FieldTypeName::Integer)),
            ]),
        )],
        vec![],
    );
    let d = diff(&old, &new);
    assert!(d.is_breaking, "reasons: {:?}", d.reasons);
}

fn check_renaming_relation_type_is_breaking() {
    let types = || vec![("task", entity(vec![])), ("project", entity(vec![]))];
    let old = schema("n", types(), vec![("belongs_to", "task", "project")]);
    let new = schema("n", types(), vec![("part_of", "task", "project")]);
    let d = diff(&old, &new);
    assert!(d.is_breaking, "reasons: {:?}", d.reasons);
}

fn check_removing_enum_constraint_entirely_is_non_breaking() {
    let old = schema(
        "n",
        vec![("task", entity(vec![("status", enum_field(&["active", "done"]))]))],
        vec![],
    );
    let new = schema("n", vec![("task", entity(vec![("status", field(FieldTypeName::String))]))], vec![]);
    let d = diff(&old, &new);
    assert!(!d.is_breaking, "reasons: {:?}", d.reasons);
}

fn described(definition: &str, task: &str) -> MetaSchemaDefinition {
    let mut task_type = entity(vec![("title", field(FieldTypeName::String))]);
    task_type.description = Some(task.to_string());
    let mut d = schema("n", vec![("task", task_type)], vec![]);
    d.description = Some(definition.to_string());
    d
}

fn check_description_only_change_is_non_breaking() {
    let old = described("old description", "old");
    let new = described("new description", "new");
    let d = diff(&old, &new);
    assert!(!d.is_breaking, "reasons: {:?}", d.reasons);
}

#[test]
fn versioning_adding_optional_field_is_non_breaking() {
    check_adding_optional_field_is_non_breaking();
}

#[test]
fn tests_adding_optional_field_is_non_breaking() {
    check_adding_optional_field_is_non_breaking();
}

#[test]
fn versioning_adding_enum_value_is_non_breaking() {
    check_adding_enum_value_is_non_breaking();
}

#[test]
fn tests_adding_enum_value_is_non_breaking() {
    check_adding_enum_value_is_non_breaking();
}

#[test]
fn versioning_removing_field_is_breaking() {
    check_removing_field_is_breaking();
}

#[test]
fn tests_removing_field_is_breaking() {
    check_removing_field_is_breaking();
}

#[test]
fn versioning_making_field_required_is_breaking() {
    check_making_field_required_is_breaking();
}

#[test]
fn tests_making_field_required_is_breaking() {
    check_making_field_required_is_breaking();
}

#[test]
fn versioning_changing_field_type_is_breaking() {
    check_changing_field_type_is_breaking();
}

#[test]
fn tests_changing_field_type_is_breaking() {
    check_changing_field_type_is_breaking();
}

#[test]
fn versioning_removing_entity_type_is_breaking() {
    check_removing_entity_type_is_breaking();
}

#[test]
fn tests_removing_entity_type_is_breaking() {
    check_removing_entity_type_is_breaking();
}

#[test]
fn versioning_changing_relation_type_target_is_breaking() {
    check_changing_relation_type_target_is_breaking();
}

#[test]
fn tests_changing_relation_type_target_is_breaking() {
    check_changing_relation_type_target_is_breaking();
}

#[test]
fn versioning_adding_new_entity_type_and_relation_type_is_non_breaking() {
    check_adding_new_entity_type_and_relation_type_is_non_breaking();
}

#[test]
fn tests_adding_new_entity_type_and_relation_type_is_non_breaking() {
    check_adding_new_entity_type_and_relation_type_is_non_breaking();
}

#[test]
fn versioning_adding_new_required_field_is_breaking() {
    check_adding_new_required_field_is_breaking();
}

#[test]
fn tests_adding_new_required_field_is_breaking() {
    check_adding_new_required_field_is_breaking();
}

#[test]
fn versioning_renaming_relation_type_is_breaking() {
    check_renaming_relation_type_is_breaking();
}

#[test]
fn tests_renaming_relation_type_is_breaking() {
    check_renaming_relation_type_is_breaking();
}

#[test]
fn versioning_removing_enum_constraint_entirely_is_non_breaking() {
    check_removing_enum_constraint_entirely_is_non_breaking();
}

#[test]
fn tests_removing_enum_constraint_entirely_is_non_breaking() {
    check_removing_enum_constraint_entirely_is_non_breaking();
}

#[test]
fn versioning_description_only_change_is_non_breaking() {
    check_description_only_change_is_non_breaking();
}

#[test]
fn tests_description_only_change_is_non_breaking() {
    check_description_only_change_is_non_breaking();
}

#[test]
fn diff_reports_every_breaking_change_in_order() {
    let mut tags_old = field(FieldTypeName::Array);
    tags_old.items = Some(ArrayItems { item_type: "string".into() });
    let mut tags_new = field(FieldTypeName::Array);
    tags_new.items = Some(ArrayItems { item_type: "integer".into() });
    let old = schema(
        "n",
        vec![
            (
                "task",
                entity(vec![
                    ("done", field(FieldTypeName::Boolean)),
                    ("note", field(FieldTypeName::String)),
                    ("status", enum_field(&["active", "done", "later"])),
                    ("tags", tags_old),
                    ("title", field(FieldTypeName::String)),
                ]),
            ),
            ("gone", entity(vec![])),
        ],
        vec![("belongs_to", "task", "task"), ("blocks", "task", "task")],
    );
    let new = schema(
        "n",
        vec![(
            "task",
            entity(vec![
                ("done", field(FieldTypeName::String)),
                ("owner", required(FieldTypeName::String)),
                ("status", enum_field(&["active"])),
                ("tags", tags_new),
                ("title", required(FieldTypeName::String)),
            ]),
        )],
        vec![("belongs_to", "task", "gone")],
    );
    let d = diff(&old, &new);
    assert!(d.is_breaking);
    assert_eq!(
        d.reasons,
        vec![
            "entity_type 'gone' was removed",
            "field 'task.done' changed type from Boolean to String",
            "field 'note' was removed from entity_type 'task' (or renamed)",
            "field 'task.status' enum value 'done' was removed",
            "field 'task.status' enum value 'later' was removed",
            "field 'task.tags' array items type changed from 'string' to 'integer'",
            "field 'task.title' became required",
            "new field 'task.owner' was added as required",
            "relation_type 'belongs_to' source/target changed",
            "relation_type 'blocks' was removed",
        ]
    );
}

#[test]
fn a_definition_is_compatible_with_itself() {
    let d = schema(
        "n",
        vec![
            ("task", entity(vec![("title", required(FieldTypeName::String))])),
            ("project", entity(vec![("status", enum_field(&["a", "b"]))])),
        ],
        vec![("belongs_to", "task", "project")],
    );
    let r = diff(&d, &d);
    assert!(!r.is_breaking);
    assert!(r.reasons.is_empty());
}

fn member<'a>(v: &'a JsonValue, key: &str) -> &'a JsonValue {
    v.get(key).unwrap_or_else(|| panic!("missing member {key}"))
}

fn string(s: &str) -> JsonValue {
    JsonValue::String(s.to_string())
}

#[test]
fn projects_required_and_enum_fields() {
    let mut title = required(FieldTypeName::String);
    title.x_embed = true;
    let mut status = enum_field(&["active", "done"]);
    status.required = true;
    let def = schema("task-management", vec![("project", entity(vec![("title", title), ("status", status)]))], vec![]);

    let project = def.entity_types.get("project").unwrap();
    let schema = entity_type_to_json_schema(project);
    assert_eq!(member(&schema, "type"), &string("object"));
    let properties = member(&schema, "properties");
    assert_eq!(member(member(properties, "title"), "type"), &string("string"));
    match member(member(properties, "status"), "enum") {
        JsonValue::Array(values) => assert_eq!(values[0], string("active")),
        other => panic!("enum is not an array: {other:?}"),
    }

    match member(&schema, "required") {
        JsonValue::Array(required) => {
            assert!(required.contains(&string("title")));
            assert!(required.contains(&string("status")));
        }
        other => panic!("required is not an array: {other:?}"),
    }
}

#[test]
fn projects_array_field_with_string_items() {
    let mut tags = field(FieldTypeName::Array);
    tags.items = Some(ArrayItems { item_type: "string".into() });
    let def = schema("task-management", vec![("task", entity(vec![("tags", tags)]))], vec![]);

    let schema = entity_type_to_json_schema(def.entity_types.get("task").unwrap());
    let tags = member(member(&schema, "properties"), "tags");
    assert_eq!(member(tags, "type"), &string("array"));
    assert_eq!(member(member(tags, "items"), "type"), &string("string"));
}

#[test]
fn projection_text_is_compact_json_in_key_order() {
    let mut status = enum_field(&["a", "b"]);
    status.default = Some(string("a"));
    let mut count = field(FieldTypeName::Integer);
    count.minimum = Some("0".into());
    count.maximum = Some("10".into());
    let def = schema(
        "n",
        vec![("task", entity(vec![("title", required(FieldTypeName::String)), ("status", status), ("count", count)]))],
        vec![],
    );
    let schema = entity_type_to_json_schema(def.entity_types.get("task").unwrap());
    assert_eq!(
        schema.to_json_text(),
        "{\"properties\":{\"count\":{\"maximum\":10,\"minimum\":0,\"type\":\"integer\"},\
         \"status\":{\"default\":\"a\",\"enum\":[\"a\",\"b\"],\"type\":\"string\"},\
         \"title\":{\"type\":\"string\"}},\"required\":[\"title\"],\"type\":\"object\"}"
    );
}
