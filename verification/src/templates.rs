//! Built-in schema templates: ready-made meta-schema definitions a workspace can start
//! from, listed by id and fetched by id.
use vstd::prelude::*;

use crate::error::YorishiroError;
use crate::metaschema::{
    EntityTypeDef, FieldDef, FieldTypeName, MetaSchemaDefinition, RelationTypeDef,
};
use crate::name_map::{lookup, str_eq};
use crate::text::string_of;

verus! {

/// Summary of a built-in template: enough to pick a template id without fetching every
/// full definition.
#[derive(Debug, Clone, PartialEq, Eq)]
pub struct TemplateSummary {
    pub id: String,
    pub name: String,
    pub description: Option<String>,
}

/// The ids of the built-in templates, in listing order.
pub open spec fn template_ids() -> Seq<Seq<char>> {
    seq!["task-management"@]
}

/// The name under which the built-in template `id` is listed and defined.
pub open spec fn template_name(id: Seq<char>) -> Seq<char> {
    id
}

/// `d` is the definition of the built-in template `id`.
pub open spec fn builtin_template(id: Seq<char>, d: MetaSchemaDefinition) -> bool {
    id == "task-management"@ && is_task_management(d)
}

/// The built-in `task-management` template, in full: no description; entity types `task`
/// and `project`, each described by [`has_required_title`] alone; one relation type,
/// `belongs_to`, from `task` to `project`, without a description. Nothing else.
pub open spec fn is_task_management(d: MetaSchemaDefinition) -> bool {
    &&& d.wf()
    &&& d.name@ == "task-management"@
    &&& d.description is None
    &&& d.entity_types@.len() == 2
    &&& lookup(d.entity_types@, "task"@) matches Some(t) && has_required_title(t)
    &&& lookup(d.entity_types@, "project"@) matches Some(p) && has_required_title(p)
    &&& d.relation_types@.len() == 1
    &&& lookup(d.relation_types@, "belongs_to"@) matches Some(r) && r.source@ == "task"@
        && r.target@ == "project"@ && r.description is None
}

/// A required string field with no other attribute: no allowed values, format, bounds,
/// default or item type, not embedded, no rendering hints, no further keys.
pub open spec fn is_required_string(f: FieldDef) -> bool {
    &&& f.field_type == FieldTypeName::String
    &&& f.required
    &&& f.enum_values is None
    &&& f.format is None
    &&& f.minimum is None
    &&& f.maximum is None
    &&& f.default is None
    &&& f.items is None
    &&& !f.x_embed
    &&& f.x_ui is None
    &&& f.extra@.len() == 0
}

/// The entity type has no description and exactly one field, `title`, a plain required
/// string.
pub open spec fn has_required_title(t: EntityTypeDef) -> bool {
    &&& t.description is None
    &&& t.fields@.len() == 1
    &&& lookup(t.fields@, "title"@) matches Some(f) && is_required_string(f)
}

fn titled_entity_type() -> (r: EntityTypeDef)
    ensures
        has_required_title(r),
        r.fields.wf(),
        r.description is None,
{
    let mut title = FieldDef::new(FieldTypeName::String);
    title.required = true;
    let mut t = EntityTypeDef::new();
    t.fields.insert(string_of("title"), title);
    proof {
        crate::name_map::lemma_sorted_distinct(t.fields@);
        lemma_single_name(t.fields@, "title"@);
        crate::name_map::lemma_lookup_none(t.fields@, "title"@);
    }
    t
}

/// In a map with distinct names where every name other than `k` is absent, at most one
/// entry exists.
proof fn lemma_single_name<V>(s: Seq<(String, V)>, k: Seq<char>)
    requires
        crate::name_map::names_distinct(s),
        forall|n: Seq<char>| n != k ==> lookup(s, n) is None,
    ensures
        s.len() <= 1,
{
    if s.len() > 1 {
        crate::name_map::lemma_lookup_at(s, 0);
        crate::name_map::lemma_lookup_at(s, 1);
        assert(s[0].0@ != s[1].0@);
    }
}

/// At most two entries in a map with distinct names where every name other than `a` and
/// `b` is absent.
proof fn lemma_two_names<V>(s: Seq<(String, V)>, a: Seq<char>, b: Seq<char>)
    requires
        crate::name_map::names_distinct(s),
        forall|n: Seq<char>| n != a && n != b ==> lookup(s, n) is None,
    ensures
        s.len() <= 2,
{
    if s.len() > 2 {
        crate::name_map::lemma_lookup_at(s, 0);
        crate::name_map::lemma_lookup_at(s, 1);
        crate::name_map::lemma_lookup_at(s, 2);
        assert(s[0].0@ != s[1].0@ && s[0].0@ != s[2].0@ && s[1].0@ != s[2].0@);
    }
}

/// The built-in `task-management` definition.
fn task_management() -> (r: MetaSchemaDefinition)
    ensures
        is_task_management(r),
{
    let mut d = MetaSchemaDefinition::new("task-management");
    let task = titled_entity_type();
    let project = titled_entity_type();
    let ghost task_v = task;
    let ghost project_v = project;
    d.entity_types.insert(string_of("task"), task);
    d.entity_types.insert(string_of("project"), project);
    d.relation_types.insert(string_of("belongs_to"), RelationTypeDef::new("task", "project"));
    proof {
        let es = d.entity_types@;
        reveal_strlit("task");
        reveal_strlit("project");
        assert("task"@.len() != "project"@.len());
        crate::name_map::lemma_sorted_distinct(es);
        crate::name_map::lemma_sorted_distinct(d.relation_types@);
        assert(lookup(es, "task"@) == Some(task_v));
        assert(lookup(es, "project"@) == Some(project_v));
        assert forall|i: int| 0 <= i < es.len() implies (#[trigger] es[i]).1.fields.wf() by {
            crate::name_map::lemma_lookup_at(es, i);
            let n = es[i].0@;
            if n != "task"@ && n != "project"@ {
                assert(lookup(es, n) is None);
            }
        }
        lemma_two_names(es, "task"@, "project"@);
        crate::name_map::lemma_lookup_none(es, "task"@);
        crate::name_map::lemma_lookup_none(es, "project"@);
        let i = choose|i: int| 0 <= i < es.len() && #[trigger] es[i].0@ == "task"@;
        let j = choose|j: int| 0 <= j < es.len() && #[trigger] es[j].0@ == "project"@;
        assert(i != j);
        lemma_single_name(d.relation_types@, "belongs_to"@);
        crate::name_map::lemma_lookup_none(d.relation_types@, "belongs_to"@);
    }
    d
}

/// Every built-in template, summarised, in listing order.
pub fn list_templates() -> (r: Vec<TemplateSummary>)
    ensures
        r@.len() == template_ids().len(),
        forall|i: int|
            0 <= i < r@.len() ==> (#[trigger] r@[i]).id@ == template_ids()[i] && r@[i].name@
                == template_name(template_ids()[i]) && r@[i].description is None,
{
    let d = task_management();
    let mut r: Vec<TemplateSummary> = Vec::new();
    r.push(TemplateSummary { id: string_of("task-management"), name: d.name, description: d.description });
    r
}

pub open spec fn unknown_template_message(id: Seq<char>) -> Seq<char> {
    "no template named '"@ + id + "'"@
}

/// The definition of the built-in template `id`, or `NotFound` when there is none.
pub fn get_template(id: &str) -> (r: Result<MetaSchemaDefinition, YorishiroError>)
    ensures
        r is Ok <==> template_ids().contains(id@),
        r matches Ok(d) ==> builtin_template(id@, d),
        r matches Err(e) ==> e matches YorishiroError::NotFound { message } && message@
            == unknown_template_message(id@),
{
    if str_eq(id, "task-management") {
        proof {
            assert(template_ids()[0] == id@);
        }
        Ok(task_management())
    } else {
        proof {
            if template_ids().contains(id@) {
                let i = choose|i: int| 0 <= i < template_ids().len() && template_ids()[i] == id@;
                assert(i == 0);
            }
        }
        let mut m = string_of("no template named '");
        m.append(id);
        m.append("'");
        Err(YorishiroError::NotFound { message: m })
    }
}

/// Every listed template can be fetched by its id, and the definition fetched carries the
/// name and the description its summary lists.
pub proof fn lemma_listed_templates_resolve(i: int, d: MetaSchemaDefinition)
    requires
        0 <= i < template_ids().len(),
        builtin_template(template_ids()[i], d),
    ensures
        template_ids().contains(template_ids()[i]),
        d.name@ == template_name(template_ids()[i]),
        d.description is None,
{
}

} // verus!
