use yorishiro_core::error::YorishiroError;
use yorishiro_core::metaschema::FieldTypeName;
use yorishiro_core::templates::{get_template, list_templates};

#[test]
fn lists_the_built_in_task_management_template() {
    let templates = list_templates();
    assert!(templates.iter().any(|t| t.id == "task-management"));
}

#[test]
fn fetches_a_template_by_id() {
    let definition = get_template("task-management").unwrap();
    assert_eq!(definition.name, "task-management");
    assert!(definition.entity_types.contains_key("task"));
    assert!(definition.entity_types.contains_key("project"));
}

#[test]
fn reports_not_found_for_an_unknown_template_id() {
    let err = get_template("does-not-exist").unwrap_err();
    assert!(matches!(err, YorishiroError::NotFound { .. }));
}

#[test]
fn every_listed_template_can_be_fetched() {
    for summary in list_templates() {
        let definition = get_template(&summary.id).unwrap();
        assert_eq!(definition.name, summary.name);
        assert_eq!(definition.description, summary.description);
    }
}

#[test]
fn task_management_template_links_tasks_to_projects() {
    let d = get_template("task-management").unwrap();
    let rel = d.relation_types.get("belongs_to").unwrap();
    assert_eq!(rel.source, "task");
    assert_eq!(rel.target, "project");
    let title = d.entity_types.get("task").unwrap().fields.get("title").unwrap();
    assert!(title.required);
    assert_eq!(
        get_template("nope").unwrap_err(),
        YorishiroError::NotFound { message: "no template named 'nope'".to_string() }
    );
}

#[test]
fn task_management_titles_are_plain_required_strings() {
    let d = get_template("task-management").unwrap();
    assert_eq!(d.description, None);
    assert_eq!(d.entity_types.len(), 2);
    assert_eq!(d.relation_types.len(), 1);
    assert_eq!(d.relation_types.get("belongs_to").unwrap().description, None);
    for name in ["task", "project"] {
        let t = d.entity_types.get(name).unwrap();
        assert_eq!(t.description, None);
        assert_eq!(t.fields.len(), 1);
        let title = t.fields.get("title").unwrap();
        assert_eq!(title.field_type, FieldTypeName::String);
        assert!(title.required);
        assert_eq!(title.enum_values, None);
        assert_eq!(title.format, None);
        assert_eq!(title.minimum, None);
        assert_eq!(title.maximum, None);
        assert_eq!(title.default, None);
        assert_eq!(title.items, None);
        assert!(!title.x_embed);
        assert_eq!(title.x_ui, None);
        assert!(title.extra.is_empty());
    }
}
