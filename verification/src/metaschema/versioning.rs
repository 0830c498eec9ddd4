//! Versioning rules: which changes between two definitions of a schema are breaking.
//!
//! Non-breaking: adding an optional field, adding entity or relation types, adding enum
//! values, dropping an enum constraint, changing descriptions. Breaking: removing or
//! renaming a field, changing its type or array item type, making it required, adding a
//! required field, removing an enum value, removing an entity type, removing a relation
//! type or changing its source/target.
use vstd::prelude::*;

use super::types::{
    EntityTypeDef, FieldDef, FieldTypeName, MetaSchemaDefinition, RelationTypeDef,
    field_type_debug_name,
};
use crate::name_map::{NameMap, lookup, str_eq, lemma_sorted_distinct, lemma_lookup_at};
use crate::text::string_of;

verus! {

/// The outcome of comparing two definitions: every breaking change found, in order, and
/// whether there was any. A breaking result obliges the caller to store a new version.
#[derive(Debug, Clone, PartialEq, Eq)]
pub struct VersioningDiff {
    pub is_breaking: bool,
    pub reasons: Vec<String>,
}

/// The characters of each string, in order.
pub open spec fn strings_view(s: Seq<String>) -> Seq<Seq<char>>
    decreases s.len(),
{
    if s.len() == 0 {
        Seq::empty()
    } else {
        strings_view(s.drop_last()).push(s.last()@)
    }
}

/// Whether some string of `s` holds `v`.
pub open spec fn strs_contain(s: Seq<String>, v: Seq<char>) -> bool {
    exists|i: int| 0 <= i < s.len() && #[trigger] s[i]@ == v
}

pub open spec fn field_ref(t: Seq<char>, f: Seq<char>) -> Seq<char> {
    "field '"@ + t + "."@ + f + "'"@
}

pub open spec fn msg_entity_type_removed(t: Seq<char>) -> Seq<char> {
    "entity_type '"@ + t + "' was removed"@
}

pub open spec fn msg_field_removed(t: Seq<char>, f: Seq<char>) -> Seq<char> {
    "field '"@ + f + "' was removed from entity_type '"@ + t + "' (or renamed)"@
}

pub open spec fn msg_type_changed(t: Seq<char>, f: Seq<char>, a: FieldTypeName, b: FieldTypeName) -> Seq<char> {
    field_ref(t, f) + " changed type from "@ + field_type_debug_name(a) + " to "@ + field_type_debug_name(b)
}

pub open spec fn msg_became_required(t: Seq<char>, f: Seq<char>) -> Seq<char> {
    field_ref(t, f) + " became required"@
}

pub open spec fn msg_items_changed(t: Seq<char>, f: Seq<char>, a: Seq<char>, b: Seq<char>) -> Seq<char> {
    field_ref(t, f) + " array items type changed from '"@ + a + "' to '"@ + b + "'"@
}

pub open spec fn msg_enum_value_removed(t: Seq<char>, f: Seq<char>, v: Seq<char>) -> Seq<char> {
    field_ref(t, f) + " enum value '"@ + v + "' was removed"@
}

pub open spec fn msg_new_required(t: Seq<char>, f: Seq<char>) -> Seq<char> {
    "new "@ + field_ref(t, f) + " was added as required"@
}

pub open spec fn msg_relation_removed(r: Seq<char>) -> Seq<char> {
    "relation_type '"@ + r + "' was removed"@
}

pub open spec fn msg_relation_changed(r: Seq<char>) -> Seq<char> {
    "relation_type '"@ + r + "' source/target changed"@
}

/// One reason per old enum value that the new enum no longer allows.
pub open spec fn enum_removals(t: Seq<char>, f: Seq<char>, olds: Seq<String>, news: Seq<String>) -> Seq<Seq<char>>
    decreases olds.len(),
{
    if olds.len() == 0 {
        Seq::empty()
    } else {
        enum_removals(t, f, olds.drop_last(), news) + if strs_contain(news, olds.last()@) {
            Seq::empty()
        } else {
            seq![msg_enum_value_removed(t, f, olds.last()@)]
        }
    }
}

pub open spec fn type_change_reasons(t: Seq<char>, f: Seq<char>, o: FieldDef, n: FieldDef) -> Seq<Seq<char>> {
    if o.field_type != n.field_type {
        seq![msg_type_changed(t, f, o.field_type, n.field_type)]
    } else {
        Seq::empty()
    }
}

pub open spec fn required_change_reasons(t: Seq<char>, f: Seq<char>, o: FieldDef, n: FieldDef) -> Seq<Seq<char>> {
    if !o.required && n.required {
        seq![msg_became_required(t, f)]
    } else {
        Seq::empty()
    }
}

pub open spec fn items_change_reasons(t: Seq<char>, f: Seq<char>, o: FieldDef, n: FieldDef) -> Seq<Seq<char>> {
    match (o.items, n.items) {
        (Some(a), Some(b)) => if a.item_type@ != b.item_type@ {
            seq![msg_items_changed(t, f, a.item_type@, b.item_type@)]
        } else {
            Seq::empty()
        },
        _ => Seq::empty(),
    }
}

pub open spec fn enum_change_reasons(t: Seq<char>, f: Seq<char>, o: FieldDef, n: FieldDef) -> Seq<Seq<char>> {
    match (o.enum_values, n.enum_values) {
        (Some(a), Some(b)) => enum_removals(t, f, a@, b@),
        _ => Seq::empty(),
    }
}

/// Breaking changes between two versions of the same field.
pub open spec fn field_change_reasons(t: Seq<char>, f: Seq<char>, o: FieldDef, n: FieldDef) -> Seq<Seq<char>> {
    type_change_reasons(t, f, o, n) + required_change_reasons(t, f, o, n) + items_change_reasons(t, f, o, n)
        + enum_change_reasons(t, f, o, n)
}

/// Breaking changes to the old fields of an entity type, in old field order.
pub open spec fn old_field_reasons(t: Seq<char>, olds: Seq<(String, FieldDef)>, news: Seq<(String, FieldDef)>) -> Seq<Seq<char>>
    decreases olds.len(),
{
    if olds.len() == 0 {
        Seq::empty()
    } else {
        old_field_reasons(t, olds.drop_last(), news) + match lookup(news, olds.last().0@) {
            None => seq![msg_field_removed(t, olds.last().0@)],
            Some(nf) => field_change_reasons(t, olds.last().0@, olds.last().1, nf),
        }
    }
}

/// One reason per field that is new and required, in new field order.
pub open spec fn added_required_reasons(t: Seq<char>, news: Seq<(String, FieldDef)>, olds: Seq<(String, FieldDef)>) -> Seq<Seq<char>>
    decreases news.len(),
{
    if news.len() == 0 {
        Seq::empty()
    } else {
        added_required_reasons(t, news.drop_last(), olds) + if lookup(olds, news.last().0@) is None
            && news.last().1.required {
            seq![msg_new_required(t, news.last().0@)]
        } else {
            Seq::empty()
        }
    }
}

pub open spec fn entity_type_reasons(t: Seq<char>, o: EntityTypeDef, n: Option<EntityTypeDef>) -> Seq<Seq<char>> {
    match n {
        None => seq![msg_entity_type_removed(t)],
        Some(ne) => old_field_reasons(t, o.fields@, ne.fields@) + added_required_reasons(t, ne.fields@, o.fields@),
    }
}

pub open spec fn entity_types_reasons(olds: Seq<(String, EntityTypeDef)>, news: Seq<(String, EntityTypeDef)>) -> Seq<Seq<char>>
    decreases olds.len(),
{
    if olds.len() == 0 {
        Seq::empty()
    } else {
        entity_types_reasons(olds.drop_last(), news) + entity_type_reasons(
            olds.last().0@,
            olds.last().1,
            lookup(news, olds.last().0@),
        )
    }
}

pub open spec fn relation_type_reasons(r: Seq<char>, o: RelationTypeDef, n: Option<RelationTypeDef>) -> Seq<Seq<char>> {
    match n {
        None => seq![msg_relation_removed(r)],
        Some(nr) => if o.source@ != nr.source@ || o.target@ != nr.target@ {
            seq![msg_relation_changed(r)]
        } else {
            Seq::empty()
        },
    }
}

pub open spec fn relation_types_reasons(olds: Seq<(String, RelationTypeDef)>, news: Seq<(String, RelationTypeDef)>) -> Seq<Seq<char>>
    decreases olds.len(),
{
    if olds.len() == 0 {
        Seq::empty()
    } else {
        relation_types_reasons(olds.drop_last(), news) + relation_type_reasons(
            olds.last().0@,
            olds.last().1,
            lookup(news, olds.last().0@),
        )
    }
}

/// Every breaking change from `old` to `new`: entity types in old name order (for each,
/// changes to its old fields in name order, then newly required fields), then relation
/// types in old name order.
pub open spec fn diff_reasons(old: MetaSchemaDefinition, new: MetaSchemaDefinition) -> Seq<Seq<char>> {
    entity_types_reasons(old.entity_types@, new.entity_types@) + relation_types_reasons(
        old.relation_types@,
        new.relation_types@,
    )
}

proof fn lemma_strings_view_push(s: Seq<String>, x: String)
    ensures
        strings_view(s.push(x)) == strings_view(s).push(x@),
{
    assert(s.push(x).drop_last() =~= s);
}

/// Appends a reason.
fn push_reason(reasons: &mut Vec<String>, msg: String)
    ensures
        strings_view(final(reasons)@) == strings_view(old(reasons)@).push(msg@),
{
    proof {
        lemma_strings_view_push(reasons@, msg);
    }
    reasons.push(msg);
}

fn field_ref_text(t: &str, f: &str) -> (r: String)
    ensures
        r@ == field_ref(t@, f@),
{
    let mut r = string_of("field '");
    r.append(t);
    r.append(".");
    r.append(f);
    r.append("'");
    r
}

fn contains_str(s: &Vec<String>, v: &str) -> (r: bool)
    ensures
        r == strs_contain(s@, v@),
{
    let mut i: usize = 0;
    while i < s.len()
        invariant
            i <= s@.len(),
            forall|j: int| 0 <= j < i ==> s@[j]@ != v@,
        decreases s@.len() - i,
    {
        if str_eq(s[i].as_str(), v) {
            return true;
        }
        i = i + 1;
    }
    false
}

fn push_enum_removals(reasons: &mut Vec<String>, t: &str, f: &str, olds: &Vec<String>, news: &Vec<String>)
    ensures
        strings_view(final(reasons)@) == strings_view(old(reasons)@) + enum_removals(t@, f@, olds@, news@),
{
    let ghost start = strings_view(reasons@);
    let mut i: usize = 0;
    while i < olds.len()
        invariant
            i <= olds@.len(),
            strings_view(reasons@) == start + enum_removals(t@, f@, olds@.subrange(0, i as int), news@),
        decreases olds@.len() - i,
    {
        proof {
            let p = olds@.subrange(0, i + 1);
            assert(p.drop_last() =~= olds@.subrange(0, i as int));
        }
        if !contains_str(news, olds[i].as_str()) {
            let mut m = field_ref_text(t, f);
            m.append(" enum value '");
            m.append(olds[i].as_str());
            m.append("' was removed");
            push_reason(reasons, m);
        }
        i = i + 1;
    }
    proof {
        assert(olds@.subrange(0, olds@.len() as int) =~= olds@);
    }
}

fn push_field_changes(reasons: &mut Vec<String>, t: &str, f: &str, o: &FieldDef, n: &FieldDef)
    ensures
        strings_view(final(reasons)@) == strings_view(old(reasons)@) + field_change_reasons(t@, f@, *o, *n),
{
    let ghost start = strings_view(reasons@);
    if o.field_type != n.field_type {
        let mut m = field_ref_text(t, f);
        m.append(" changed type from ");
        m.append(o.field_type.debug_name());
        m.append(" to ");
        m.append(n.field_type.debug_name());
        push_reason(reasons, m);
    }
    assert(strings_view(reasons@) =~= start + type_change_reasons(t@, f@, *o, *n));
    if !o.required && n.required {
        let mut m = field_ref_text(t, f);
        m.append(" became required");
        push_reason(reasons, m);
    }
    assert(strings_view(reasons@) =~= start + type_change_reasons(t@, f@, *o, *n) + required_change_reasons(t@, f@, *o, *n));
    if let (Some(a), Some(b)) = (&o.items, &n.items) {
        if !str_eq(a.item_type.as_str(), b.item_type.as_str()) {
            let mut m = field_ref_text(t, f);
            m.append(" array items type changed from '");
            m.append(a.item_type.as_str());
            m.append("' to '");
            m.append(b.item_type.as_str());
            m.append("'");
            push_reason(reasons, m);
        }
    }
    assert(strings_view(reasons@) =~= start + type_change_reasons(t@, f@, *o, *n) + required_change_reasons(t@, f@, *o, *n)
        + items_change_reasons(t@, f@, *o, *n));
    if let (Some(a), Some(b)) = (&o.enum_values, &n.enum_values) {
        push_enum_removals(reasons, t, f, a, b);
    }
    assert(strings_view(reasons@) =~= start + field_change_reasons(t@, f@, *o, *n));
}

fn push_old_field_changes(reasons: &mut Vec<String>, t: &str, olds: &NameMap<FieldDef>, news: &NameMap<FieldDef>)
    ensures
        strings_view(final(reasons)@) == strings_view(old(reasons)@) + old_field_reasons(t@, olds@, news@),
{
    let ghost start = strings_view(reasons@);
    let entries = olds.as_slice();
    let mut i: usize = 0;
    while i < entries.len()
        invariant
            entries@ == olds@,
            i <= olds@.len(),
            strings_view(reasons@) == start + old_field_reasons(t@, olds@.subrange(0, i as int), news@),
        decreases olds@.len() - i,
    {
        let ghost before = strings_view(reasons@);
        proof {
            let p = olds@.subrange(0, i + 1);
            assert(p.drop_last() =~= olds@.subrange(0, i as int));
        }
        let name = entries[i].0.as_str();
        match news.get(name) {
            None => {
                let mut m = string_of("field '");
                m.append(name);
                m.append("' was removed from entity_type '");
                m.append(t);
                m.append("' (or renamed)");
                push_reason(reasons, m);
            },
            Some(nf) => {
                push_field_changes(reasons, t, name, &entries[i].1, nf);
            },
        }
        i = i + 1;
    }
    proof {
        assert(olds@.subrange(0, olds@.len() as int) =~= olds@);
    }
}

fn push_added_required(reasons: &mut Vec<String>, t: &str, news: &NameMap<FieldDef>, olds: &NameMap<FieldDef>)
    ensures
        strings_view(final(reasons)@) == strings_view(old(reasons)@) + added_required_reasons(t@, news@, olds@),
{
    let ghost start = strings_view(reasons@);
    let entries = news.as_slice();
    let mut i: usize = 0;
    while i < entries.len()
        invariant
            entries@ == news@,
            i <= news@.len(),
            strings_view(reasons@) == start + added_required_reasons(t@, news@.subrange(0, i as int), olds@),
        decreases news@.len() - i,
    {
        proof {
            let p = news@.subrange(0, i + 1);
            assert(p.drop_last() =~= news@.subrange(0, i as int));
        }
        let name = entries[i].0.as_str();
        if !olds.contains_key(name) && entries[i].1.required {
            let mut m = string_of("new ");
            m.append(field_ref_text(t, name).as_str());
            m.append(" was added as required");
            push_reason(reasons, m);
        }
        i = i + 1;
    }
    proof {
        assert(news@.subrange(0, news@.len() as int) =~= news@);
    }
}

fn push_entity_types(reasons: &mut Vec<String>, olds: &NameMap<EntityTypeDef>, news: &NameMap<EntityTypeDef>)
    ensures
        strings_view(final(reasons)@) == strings_view(old(reasons)@) + entity_types_reasons(olds@, news@),
{
    let ghost start = strings_view(reasons@);
    let entries = olds.as_slice();
    let mut i: usize = 0;
    while i < entries.len()
        invariant
            entries@ == olds@,
            i <= olds@.len(),
            strings_view(reasons@) == start + entity_types_reasons(olds@.subrange(0, i as int), news@),
        decreases olds@.len() - i,
    {
        let ghost before = strings_view(reasons@);
        proof {
            let p = olds@.subrange(0, i + 1);
            assert(p.drop_last() =~= olds@.subrange(0, i as int));
        }
        let name = entries[i].0.as_str();
        let old_et = &entries[i].1;
        match news.get(name) {
            None => {
                let mut m = string_of("entity_type '");
                m.append(name);
                m.append("' was removed");
                push_reason(reasons, m);
            },
            Some(new_et) => {
                push_old_field_changes(reasons, name, &old_et.fields, &new_et.fields);
                push_added_required(reasons, name, &new_et.fields, &old_et.fields);
                assert(strings_view(reasons@) =~= before + entity_type_reasons(name@, *old_et, Some(*new_et)));
            },
        }
        i = i + 1;
    }
    proof {
        assert(olds@.subrange(0, olds@.len() as int) =~= olds@);
    }
}

fn push_relation_types(reasons: &mut Vec<String>, olds: &NameMap<RelationTypeDef>, news: &NameMap<RelationTypeDef>)
    ensures
        strings_view(final(reasons)@) == strings_view(old(reasons)@) + relation_types_reasons(olds@, news@),
{
    let ghost start = strings_view(reasons@);
    let entries = olds.as_slice();
    let mut i: usize = 0;
    while i < entries.len()
        invariant
            entries@ == olds@,
            i <= olds@.len(),
            strings_view(reasons@) == start + relation_types_reasons(olds@.subrange(0, i as int), news@),
        decreases olds@.len() - i,
    {
        proof {
            let p = olds@.subrange(0, i + 1);
            assert(p.drop_last() =~= olds@.subrange(0, i as int));
        }
        let name = entries[i].0.as_str();
        let old_rel = &entries[i].1;
        match news.get(name) {
            None => {
                let mut m = string_of("relation_type '");
                m.append(name);
                m.append("' was removed");
                push_reason(reasons, m);
            },
            Some(new_rel) => {
                if !str_eq(old_rel.source.as_str(), new_rel.source.as_str()) || !str_eq(
                    old_rel.target.as_str(),
                    new_rel.target.as_str(),
                ) {
                    let mut m = string_of("relation_type '");
                    m.append(name);
                    m.append("' source/target changed");
                    push_reason(reasons, m);
                }
            },
        }
        i = i + 1;
    }
    proof {
        assert(olds@.subrange(0, olds@.len() as int) =~= olds@);
    }
}

/// Compares two definitions of a schema under the versioning rules and reports every
/// breaking change; the result is breaking exactly when there is at least one.
pub fn diff(old: &MetaSchemaDefinition, new: &MetaSchemaDefinition) -> (r: VersioningDiff)
    ensures
        strings_view(r.reasons@) == diff_reasons(*old, *new),
        r.is_breaking == (diff_reasons(*old, *new).len() > 0),
        r.is_breaking == !compatible(*old, *new),
{
    let mut reasons: Vec<String> = Vec::new();
    push_entity_types(&mut reasons, &old.entity_types, &new.entity_types);
    push_relation_types(&mut reasons, &old.relation_types, &new.relation_types);
    proof {
        lemma_strings_view_len(reasons@);
        lemma_diff_empty_iff_compatible(*old, *new);
    }
    let is_breaking = reasons.len() > 0;
    VersioningDiff { is_breaking, reasons }
}

proof fn lemma_strings_view_len(s: Seq<String>)
    ensures
        strings_view(s).len() == s.len(),
    decreases s.len(),
{
    if s.len() > 0 {
        lemma_strings_view_len(s.drop_last());
    }
}

// ---------------------------------------------------------------------------------------
// The rules stated directly.

/// A field may evolve from `o` to `n` without breaking stored entities.
pub open spec fn field_compatible(o: FieldDef, n: FieldDef) -> bool {
    &&& o.field_type == n.field_type
    &&& (n.required ==> o.required)
    &&& (o.items is Some && n.items is Some ==> o.items->0.item_type@ == n.items->0.item_type@)
    &&& (o.enum_values is Some && n.enum_values is Some ==> forall|i: int|
        0 <= i < o.enum_values->0@.len() ==> strs_contain(
            n.enum_values->0@,
            #[trigger] o.enum_values->0@[i]@,
        ))
}

/// An entity type may evolve from `o` to `n`: every old field is still there and
/// compatible, and every field that is new is optional.
pub open spec fn entity_type_compatible(o: EntityTypeDef, n: EntityTypeDef) -> bool {
    &&& forall|i: int|
        0 <= i < o.fields@.len() ==> match lookup(n.fields@, (#[trigger] o.fields@[i]).0@) {
            Some(nf) => field_compatible(o.fields@[i].1, nf),
            None => false,
        }
    &&& forall|j: int|
        0 <= j < n.fields@.len() ==> (lookup(o.fields@, (#[trigger] n.fields@[j]).0@) is None
            ==> !n.fields@[j].1.required)
}

/// A definition may evolve from `old` to `new` without a breaking change: every old entity
/// type is still defined and compatible, and every old relation type is still defined with
/// the same source and target.
pub open spec fn compatible(old: MetaSchemaDefinition, new: MetaSchemaDefinition) -> bool {
    &&& forall|i: int|
        0 <= i < old.entity_types@.len() ==> match lookup(
            new.entity_types@,
            (#[trigger] old.entity_types@[i]).0@,
        ) {
            Some(ne) => entity_type_compatible(old.entity_types@[i].1, ne),
            None => false,
        }
    &&& forall|i: int|
        0 <= i < old.relation_types@.len() ==> match lookup(
            new.relation_types@,
            (#[trigger] old.relation_types@[i]).0@,
        ) {
            Some(nr) => nr.source@ == old.relation_types@[i].1.source@ && nr.target@
                == old.relation_types@[i].1.target@,
            None => false,
        }
}

proof fn lemma_enum_removals_empty(t: Seq<char>, f: Seq<char>, olds: Seq<String>, news: Seq<String>)
    ensures
        enum_removals(t, f, olds, news).len() == 0 <==> forall|i: int|
            0 <= i < olds.len() ==> strs_contain(news, #[trigger] olds[i]@),
    decreases olds.len(),
{
    if olds.len() > 0 {
        lemma_enum_removals_empty(t, f, olds.drop_last(), news);
        if forall|i: int| 0 <= i < olds.len() ==> strs_contain(news, #[trigger] olds[i]@) {
            assert forall|i: int| 0 <= i < olds.drop_last().len() implies strs_contain(
                news,
                #[trigger] olds.drop_last()[i]@,
            ) by {
                assert(olds.drop_last()[i] == olds[i]);
            }
            assert(strs_contain(news, olds[olds.len() - 1]@));
        }
        if enum_removals(t, f, olds, news).len() == 0 {
            assert forall|i: int| 0 <= i < olds.len() implies strs_contain(news, #[trigger] olds[i]@) by {
                if i < olds.len() - 1 {
                    assert(olds.drop_last()[i] == olds[i]);
                }
            }
        }
    }
}

proof fn lemma_field_changes_empty(t: Seq<char>, f: Seq<char>, o: FieldDef, n: FieldDef)
    ensures
        field_change_reasons(t, f, o, n).len() == 0 <==> field_compatible(o, n),
{
    if o.enum_values is Some && n.enum_values is Some {
        lemma_enum_removals_empty(t, f, o.enum_values->0@, n.enum_values->0@);
    }
}

proof fn lemma_old_fields_empty(t: Seq<char>, olds: Seq<(String, FieldDef)>, news: Seq<(String, FieldDef)>)
    ensures
        old_field_reasons(t, olds, news).len() == 0 <==> forall|i: int|
            0 <= i < olds.len() ==> match lookup(news, (#[trigger] olds[i]).0@) {
                Some(nf) => field_compatible(olds[i].1, nf),
                None => false,
            },
    decreases olds.len(),
{
    if olds.len() > 0 {
        let init = olds.drop_last();
        let last = olds.last();
        lemma_old_fields_empty(t, init, news);
        if let Some(nf) = lookup(news, last.0@) {
            lemma_field_changes_empty(t, last.0@, last.1, nf);
        }
        assert forall|i: int| 0 <= i < init.len() implies init[i] == olds[i] by {}
        if old_field_reasons(t, olds, news).len() == 0 {
            assert forall|i: int| 0 <= i < olds.len() implies match lookup(news, (#[trigger] olds[i]).0@) {
                Some(nf) => field_compatible(olds[i].1, nf),
                None => false,
            } by {
                if i < olds.len() - 1 {
                    assert(init[i] == olds[i]);
                }
            }
        }
        if forall|i: int| 0 <= i < olds.len() ==> match lookup(news, (#[trigger] olds[i]).0@) {
            Some(nf) => field_compatible(olds[i].1, nf),
            None => false,
        } {
            assert forall|i: int| 0 <= i < init.len() implies match lookup(news, (#[trigger] init[i]).0@) {
                Some(nf) => field_compatible(init[i].1, nf),
                None => false,
            } by {
                assert(init[i] == olds[i]);
            }
            assert(olds[olds.len() - 1] == last);
        }
    }
}

proof fn lemma_added_required_empty(t: Seq<char>, news: Seq<(String, FieldDef)>, olds: Seq<(String, FieldDef)>)
    ensures
        added_required_reasons(t, news, olds).len() == 0 <==> forall|j: int|
            0 <= j < news.len() ==> (lookup(olds, (#[trigger] news[j]).0@) is None ==> !news[j].1.required),
    decreases news.len(),
{
    if news.len() > 0 {
        let init = news.drop_last();
        lemma_added_required_empty(t, init, olds);
        if added_required_reasons(t, news, olds).len() == 0 {
            assert forall|j: int| 0 <= j < news.len() && lookup(olds, (#[trigger] news[j]).0@) is None
                implies !news[j].1.required by {
                if j < news.len() - 1 {
                    assert(init[j] == news[j]);
                }
            }
        }
        if forall|j: int| 0 <= j < news.len() ==> (lookup(olds, (#[trigger] news[j]).0@) is None
            ==> !news[j].1.required) {
            assert forall|j: int| 0 <= j < init.len() && lookup(olds, (#[trigger] init[j]).0@) is None
                implies !init[j].1.required by {
                assert(init[j] == news[j]);
            }
            assert(news[news.len() - 1] == news.last());
        }
    }
}

proof fn lemma_entity_type_empty(t: Seq<char>, o: EntityTypeDef, n: EntityTypeDef)
    ensures
        entity_type_reasons(t, o, Some(n)).len() == 0 <==> entity_type_compatible(o, n),
{
    lemma_old_fields_empty(t, o.fields@, n.fields@);
    lemma_added_required_empty(t, n.fields@, o.fields@);
}

proof fn lemma_entity_types_empty(olds: Seq<(String, EntityTypeDef)>, news: Seq<(String, EntityTypeDef)>)
    ensures
        entity_types_reasons(olds, news).len() == 0 <==> forall|i: int|
            0 <= i < olds.len() ==> match lookup(news, (#[trigger] olds[i]).0@) {
                Some(ne) => entity_type_compatible(olds[i].1, ne),
                None => false,
            },
    decreases olds.len(),
{
    if olds.len() > 0 {
        let init = olds.drop_last();
        let last = olds.last();
        lemma_entity_types_empty(init, news);
        if let Some(ne) = lookup(news, last.0@) {
            lemma_entity_type_empty(last.0@, last.1, ne);
        }
        if entity_types_reasons(olds, news).len() == 0 {
            assert forall|i: int| 0 <= i < olds.len() implies match lookup(news, (#[trigger] olds[i]).0@) {
                Some(ne) => entity_type_compatible(olds[i].1, ne),
                None => false,
            } by {
                if i < olds.len() - 1 {
                    assert(init[i] == olds[i]);
                }
            }
        }
        if forall|i: int| 0 <= i < olds.len() ==> match lookup(news, (#[trigger] olds[i]).0@) {
            Some(ne) => entity_type_compatible(olds[i].1, ne),
            None => false,
        } {
            assert forall|i: int| 0 <= i < init.len() implies match lookup(news, (#[trigger] init[i]).0@) {
                Some(ne) => entity_type_compatible(init[i].1, ne),
                None => false,
            } by {
                assert(init[i] == olds[i]);
            }
            assert(olds[olds.len() - 1] == last);
        }
    }
}

proof fn lemma_relation_types_empty(olds: Seq<(String, RelationTypeDef)>, news: Seq<(String, RelationTypeDef)>)
    ensures
        relation_types_reasons(olds, news).len() == 0 <==> forall|i: int|
            0 <= i < olds.len() ==> match lookup(news, (#[trigger] olds[i]).0@) {
                Some(nr) => nr.source@ == olds[i].1.source@ && nr.target@ == olds[i].1.target@,
                None => false,
            },
    decreases olds.len(),
{
    if olds.len() > 0 {
        let init = olds.drop_last();
        let last = olds.last();
        lemma_relation_types_empty(init, news);
        if relation_types_reasons(olds, news).len() == 0 {
            assert forall|i: int| 0 <= i < olds.len() implies match lookup(news, (#[trigger] olds[i]).0@) {
                Some(nr) => nr.source@ == olds[i].1.source@ && nr.target@ == olds[i].1.target@,
                None => false,
            } by {
                if i < olds.len() - 1 {
                    assert(init[i] == olds[i]);
                }
            }
        }
        if forall|i: int| 0 <= i < olds.len() ==> match lookup(news, (#[trigger] olds[i]).0@) {
            Some(nr) => nr.source@ == olds[i].1.source@ && nr.target@ == olds[i].1.target@,
            None => false,
        } {
            assert forall|i: int| 0 <= i < init.len() implies match lookup(news, (#[trigger] init[i]).0@) {
                Some(nr) => nr.source@ == init[i].1.source@ && nr.target@ == init[i].1.target@,
                None => false,
            } by {
                assert(init[i] == olds[i]);
            }
            assert(olds[olds.len() - 1] == last);
        }
    }
}

/// A change is non-breaking exactly when the new definition is compatible with the old
/// one under the versioning rules.
pub proof fn lemma_diff_empty_iff_compatible(old: MetaSchemaDefinition, new: MetaSchemaDefinition)
    ensures
        diff_reasons(old, new).len() == 0 <==> compatible(old, new),
{
    lemma_entity_types_empty(old.entity_types@, new.entity_types@);
    lemma_relation_types_empty(old.relation_types@, new.relation_types@);
}

proof fn lemma_field_self_compatible(f: FieldDef)
    ensures
        field_compatible(f, f),
{
    if f.enum_values is Some {
        let e = f.enum_values->0@;
        assert forall|i: int| 0 <= i < e.len() implies strs_contain(e, #[trigger] e[i]@) by {
            assert(e[i]@ == e[i]@);
        }
    }
}

proof fn lemma_entity_type_self_compatible(et: EntityTypeDef)
    requires
        et.fields.wf(),
    ensures
        entity_type_compatible(et, et),
{
    let fs = et.fields@;
    lemma_sorted_distinct(fs);
    assert forall|i: int| 0 <= i < fs.len() implies match lookup(fs, (#[trigger] fs[i]).0@) {
        Some(nf) => field_compatible(fs[i].1, nf),
        None => false,
    } by {
        lemma_lookup_at(fs, i);
        lemma_field_self_compatible(fs[i].1);
    }
    assert forall|j: int| 0 <= j < fs.len() && lookup(fs, (#[trigger] fs[j]).0@) is None
        implies !fs[j].1.required by {
        lemma_lookup_at(fs, j);
    }
}

/// Re-registering an unchanged definition is never breaking.
pub proof fn lemma_diff_reflexive(d: MetaSchemaDefinition)
    requires
        d.wf(),
    ensures
        diff_reasons(d, d).len() == 0,
        compatible(d, d),
{
    let ets = d.entity_types@;
    let rts = d.relation_types@;
    lemma_sorted_distinct(ets);
    lemma_sorted_distinct(rts);
    assert forall|i: int| 0 <= i < ets.len() implies match lookup(ets, (#[trigger] ets[i]).0@) {
        Some(ne) => entity_type_compatible(ets[i].1, ne),
        None => false,
    } by {
        lemma_lookup_at(ets, i);
        lemma_entity_type_self_compatible(ets[i].1);
    }
    assert forall|i: int| 0 <= i < rts.len() implies match lookup(rts, (#[trigger] rts[i]).0@) {
        Some(nr) => nr.source@ == rts[i].1.source@ && nr.target@ == rts[i].1.target@,
        None => false,
    } by {
        lemma_lookup_at(rts, i);
    }
    lemma_diff_empty_iff_compatible(d, d);
}

/// The entity type that the `i`-th old entity type has become in `new`, if it is still
/// defined.
pub open spec fn successor_type(old: MetaSchemaDefinition, new: MetaSchemaDefinition, i: int) -> Option<
    EntityTypeDef,
> {
    lookup(new.entity_types@, old.entity_types@[i].0@)
}

/// The field that the `j`-th field of `o` has become in `n`, if it is still defined.
pub open spec fn successor_field(o: EntityTypeDef, n: EntityTypeDef, j: int) -> Option<FieldDef> {
    lookup(n.fields@, o.fields@[j].0@)
}

/// Removing an entity type is a breaking change.
pub proof fn lemma_entity_type_removal_breaks(old: MetaSchemaDefinition, new: MetaSchemaDefinition, i: int)
    requires
        0 <= i < old.entity_types@.len(),
        successor_type(old, new, i) is None,
    ensures
        !compatible(old, new),
        diff_reasons(old, new).len() > 0,
{
    lemma_diff_empty_iff_compatible(old, new);
}

/// Removing or renaming a field of an entity type that is kept is a breaking change.
pub proof fn lemma_field_removal_breaks(old: MetaSchemaDefinition, new: MetaSchemaDefinition, i: int, j: int)
    requires
        0 <= i < old.entity_types@.len(),
        0 <= j < old.entity_types@[i].1.fields@.len(),
        successor_type(old, new, i) is Some,
        successor_field(old.entity_types@[i].1, successor_type(old, new, i)->0, j) is None,
    ensures
        !compatible(old, new),
        diff_reasons(old, new).len() > 0,
{
    lemma_diff_empty_iff_compatible(old, new);
    let o = old.entity_types@[i].1;
    assert(!entity_type_compatible(o, successor_type(old, new, i)->0)) by {
        assert(o.fields@[j] == o.fields@[j]);
    }
}

/// Changing a kept field's type, or making it required, is a breaking change.
pub proof fn lemma_field_change_breaks(old: MetaSchemaDefinition, new: MetaSchemaDefinition, i: int, j: int)
    requires
        0 <= i < old.entity_types@.len(),
        0 <= j < old.entity_types@[i].1.fields@.len(),
        successor_type(old, new, i) is Some,
        successor_field(old.entity_types@[i].1, successor_type(old, new, i)->0, j) is Some,
        ({
            let of = old.entity_types@[i].1.fields@[j].1;
            let nf = successor_field(old.entity_types@[i].1, successor_type(old, new, i)->0, j)->0;
            of.field_type != nf.field_type || (nf.required && !of.required)
        }),
    ensures
        !compatible(old, new),
        diff_reasons(old, new).len() > 0,
{
    lemma_diff_empty_iff_compatible(old, new);
    let o = old.entity_types@[i].1;
    assert(!entity_type_compatible(o, successor_type(old, new, i)->0)) by {
        assert(o.fields@[j] == o.fields@[j]);
    }
}

/// Adding a required field to a kept entity type is a breaking change.
pub proof fn lemma_new_required_field_breaks(old: MetaSchemaDefinition, new: MetaSchemaDefinition, i: int, k: int)
    requires
        0 <= i < old.entity_types@.len(),
        successor_type(old, new, i) is Some,
        0 <= k < successor_type(old, new, i)->0.fields@.len(),
        successor_type(old, new, i)->0.fields@[k].1.required,
        lookup(old.entity_types@[i].1.fields@, successor_type(old, new, i)->0.fields@[k].0@) is None,
    ensures
        !compatible(old, new),
        diff_reasons(old, new).len() > 0,
{
    lemma_diff_empty_iff_compatible(old, new);
    let n = successor_type(old, new, i)->0;
    assert(!entity_type_compatible(old.entity_types@[i].1, n)) by {
        assert(n.fields@[k] == n.fields@[k]);
    }
}

/// Removing a relation type, or changing its source or target, is a breaking change.
pub proof fn lemma_relation_change_breaks(old: MetaSchemaDefinition, new: MetaSchemaDefinition, i: int)
    requires
        0 <= i < old.relation_types@.len(),
        match lookup(new.relation_types@, old.relation_types@[i].0@) {
            None => true,
            Some(nr) => nr.source@ != old.relation_types@[i].1.source@ || nr.target@
                != old.relation_types@[i].1.target@,
        },
    ensures
        !compatible(old, new),
        diff_reasons(old, new).len() > 0,
{
    lemma_diff_empty_iff_compatible(old, new);
}

/// Changing only a definition's own description is not a breaking change.
pub proof fn lemma_description_change_is_non_breaking(d: MetaSchemaDefinition, description: Option<String>)
    requires
        d.wf(),
    ensures
        compatible(d, (MetaSchemaDefinition { description, ..d })),
        diff_reasons(d, (MetaSchemaDefinition { description, ..d })).len() == 0,
{
    lemma_diff_reflexive(d);
    lemma_diff_empty_iff_compatible(d, MetaSchemaDefinition { description, ..d });
}

proof fn lemma_contains_left<T>(a: Seq<T>, b: Seq<T>, x: T)
    requires
        a.contains(x),
    ensures
        (a + b).contains(x),
{
    let k = choose|k: int| 0 <= k < a.len() && a[k] == x;
    assert((a + b)[k] == x);
}

proof fn lemma_contains_right<T>(a: Seq<T>, b: Seq<T>, x: T)
    requires
        b.contains(x),
    ensures
        (a + b).contains(x),
{
    let k = choose|k: int| 0 <= k < b.len() && b[k] == x;
    assert((a + b)[a.len() + k] == x);
}

/// Every reason reported for the `j`-th old field is among the reasons of its entity type.
proof fn lemma_old_field_reasons_include(
    t: Seq<char>,
    olds: Seq<(String, FieldDef)>,
    news: Seq<(String, FieldDef)>,
    j: int,
    x: Seq<char>,
)
    requires
        0 <= j < olds.len(),
        lookup(news, olds[j].0@) matches Some(nf) && field_change_reasons(t, olds[j].0@, olds[j].1, nf).contains(x),
    ensures
        old_field_reasons(t, olds, news).contains(x),
    decreases olds.len(),
{
    let pre = old_field_reasons(t, olds.drop_last(), news);
    let suf = match lookup(news, olds.last().0@) {
        None => seq![msg_field_removed(t, olds.last().0@)],
        Some(nf) => field_change_reasons(t, olds.last().0@, olds.last().1, nf),
    };
    assert(old_field_reasons(t, olds, news) == pre + suf);
    if j == olds.len() - 1 {
        lemma_contains_right(pre, suf, x);
    } else {
        assert(olds.drop_last()[j] == olds[j]);
        lemma_old_field_reasons_include(t, olds.drop_last(), news, j, x);
        lemma_contains_left(pre, suf, x);
    }
}

/// Every reason reported for the `i`-th old entity type is among the reasons of all of them.
proof fn lemma_entity_types_reasons_include(
    olds: Seq<(String, EntityTypeDef)>,
    news: Seq<(String, EntityTypeDef)>,
    i: int,
    x: Seq<char>,
)
    requires
        0 <= i < olds.len(),
        entity_type_reasons(olds[i].0@, olds[i].1, lookup(news, olds[i].0@)).contains(x),
    ensures
        entity_types_reasons(olds, news).contains(x),
    decreases olds.len(),
{
    let pre = entity_types_reasons(olds.drop_last(), news);
    let suf = entity_type_reasons(olds.last().0@, olds.last().1, lookup(news, olds.last().0@));
    assert(entity_types_reasons(olds, news) == pre + suf);
    if i == olds.len() - 1 {
        lemma_contains_right(pre, suf, x);
    } else {
        assert(olds.drop_last()[i] == olds[i]);
        lemma_entity_types_reasons_include(olds.drop_last(), news, i, x);
        lemma_contains_left(pre, suf, x);
    }
}

/// A field kept from one version to the next is reported for each of its changes on its
/// own: a change of type as `field 't.f' changed type from A to B`, and becoming required
/// as `field 't.f' became required`, whatever else changed with it.
pub proof fn lemma_kept_field_changes_reported(old: MetaSchemaDefinition, new: MetaSchemaDefinition, i: int, j: int)
    requires
        0 <= i < old.entity_types@.len(),
        0 <= j < old.entity_types@[i].1.fields@.len(),
        successor_type(old, new, i) is Some,
        successor_field(old.entity_types@[i].1, successor_type(old, new, i)->0, j) is Some,
    ensures
        ({
            let t = old.entity_types@[i].0@;
            let f = old.entity_types@[i].1.fields@[j].0@;
            let of = old.entity_types@[i].1.fields@[j].1;
            let nf = successor_field(old.entity_types@[i].1, successor_type(old, new, i)->0, j)->0;
            &&& (!of.required && nf.required) ==> diff_reasons(old, new).contains(
                "field '"@ + t + "."@ + f + "'"@ + " became required"@,
            )
            &&& of.field_type != nf.field_type ==> diff_reasons(old, new).contains(
                "field '"@ + t + "."@ + f + "'"@ + " changed type from "@ + field_type_debug_name(
                    of.field_type,
                ) + " to "@ + field_type_debug_name(nf.field_type),
            )
        }),
{
    let t = old.entity_types@[i].0@;
    let o = old.entity_types@[i].1;
    let n = successor_type(old, new, i)->0;
    let f = o.fields@[j].0@;
    let of = o.fields@[j].1;
    let nf = successor_field(o, n, j)->0;
    let tr = type_change_reasons(t, f, of, nf);
    let rr = required_change_reasons(t, f, of, nf);
    let ir = items_change_reasons(t, f, of, nf);
    let er = enum_change_reasons(t, f, of, nf);
    if !of.required && nf.required {
        let m = msg_became_required(t, f);
        assert(rr[0] == m);
        lemma_contains_right(tr, rr, m);
        lemma_contains_left(tr + rr, ir, m);
        lemma_contains_left(tr + rr + ir, er, m);
        lemma_field_reason_in_diff(old, new, i, j, m);
    }
    if of.field_type != nf.field_type {
        let m = msg_type_changed(t, f, of.field_type, nf.field_type);
        assert(tr[0] == m);
        lemma_contains_left(tr, rr, m);
        lemma_contains_left(tr + rr, ir, m);
        lemma_contains_left(tr + rr + ir, er, m);
        lemma_field_reason_in_diff(old, new, i, j, m);
    }
}

/// Every reason reported for the `k`-th new field is among the newly-required reasons.
proof fn lemma_added_required_include(
    t: Seq<char>,
    news: Seq<(String, FieldDef)>,
    olds: Seq<(String, FieldDef)>,
    k: int,
)
    requires
        0 <= k < news.len(),
        lookup(olds, news[k].0@) is None,
        news[k].1.required,
    ensures
        added_required_reasons(t, news, olds).contains(msg_new_required(t, news[k].0@)),
    decreases news.len(),
{
    let x = msg_new_required(t, news[k].0@);
    let pre = added_required_reasons(t, news.drop_last(), olds);
    let suf = if lookup(olds, news.last().0@) is None && news.last().1.required {
        seq![msg_new_required(t, news.last().0@)]
    } else {
        Seq::empty()
    };
    assert(added_required_reasons(t, news, olds) == pre + suf);
    if k == news.len() - 1 {
        assert(suf[0] == x);
        lemma_contains_right(pre, suf, x);
    } else {
        assert(news.drop_last()[k] == news[k]);
        lemma_added_required_include(t, news.drop_last(), olds, k);
        lemma_contains_left(pre, suf, x);
    }
}

/// Every reason reported for the `i`-th old relation type is among the relation reasons.
proof fn lemma_relation_types_include(
    olds: Seq<(String, RelationTypeDef)>,
    news: Seq<(String, RelationTypeDef)>,
    i: int,
    x: Seq<char>,
)
    requires
        0 <= i < olds.len(),
        relation_type_reasons(olds[i].0@, olds[i].1, lookup(news, olds[i].0@)).contains(x),
    ensures
        relation_types_reasons(olds, news).contains(x),
    decreases olds.len(),
{
    let pre = relation_types_reasons(olds.drop_last(), news);
    let suf = relation_type_reasons(olds.last().0@, olds.last().1, lookup(news, olds.last().0@));
    assert(relation_types_reasons(olds, news) == pre + suf);
    if i == olds.len() - 1 {
        lemma_contains_right(pre, suf, x);
    } else {
        assert(olds.drop_last()[i] == olds[i]);
        lemma_relation_types_include(olds.drop_last(), news, i, x);
        lemma_contains_left(pre, suf, x);
    }
}

/// Every old enum value missing from the new enum has its removal reason.
proof fn lemma_enum_removals_include(t: Seq<char>, f: Seq<char>, olds: Seq<String>, news: Seq<String>, j: int)
    requires
        0 <= j < olds.len(),
        !strs_contain(news, olds[j]@),
    ensures
        enum_removals(t, f, olds, news).contains(msg_enum_value_removed(t, f, olds[j]@)),
    decreases olds.len(),
{
    let x = msg_enum_value_removed(t, f, olds[j]@);
    let pre = enum_removals(t, f, olds.drop_last(), news);
    let suf = if strs_contain(news, olds.last()@) {
        Seq::empty()
    } else {
        seq![msg_enum_value_removed(t, f, olds.last()@)]
    };
    assert(enum_removals(t, f, olds, news) == pre + suf);
    if j == olds.len() - 1 {
        assert(suf[0] == x);
        lemma_contains_right(pre, suf, x);
    } else {
        assert(olds.drop_last()[j] == olds[j]);
        lemma_enum_removals_include(t, f, olds.drop_last(), news, j);
        lemma_contains_left(pre, suf, x);
    }
}

/// A reason among those of the `i`-th old entity type is in the diff.
proof fn lemma_entity_type_reason_in_diff(old: MetaSchemaDefinition, new: MetaSchemaDefinition, i: int, x: Seq<char>)
    requires
        0 <= i < old.entity_types@.len(),
        entity_type_reasons(old.entity_types@[i].0@, old.entity_types@[i].1, successor_type(old, new, i)).contains(x),
    ensures
        diff_reasons(old, new).contains(x),
{
    lemma_entity_types_reasons_include(old.entity_types@, new.entity_types@, i, x);
    lemma_contains_left(
        entity_types_reasons(old.entity_types@, new.entity_types@),
        relation_types_reasons(old.relation_types@, new.relation_types@),
        x,
    );
}

/// A reason among those of the `j`-th field of the `i`-th old entity type, kept in `new`, is
/// in the diff.
proof fn lemma_field_reason_in_diff(old: MetaSchemaDefinition, new: MetaSchemaDefinition, i: int, j: int, x: Seq<char>)
    requires
        0 <= i < old.entity_types@.len(),
        0 <= j < old.entity_types@[i].1.fields@.len(),
        successor_type(old, new, i) is Some,
        successor_field(old.entity_types@[i].1, successor_type(old, new, i)->0, j) is Some,
        field_change_reasons(
            old.entity_types@[i].0@,
            old.entity_types@[i].1.fields@[j].0@,
            old.entity_types@[i].1.fields@[j].1,
            successor_field(old.entity_types@[i].1, successor_type(old, new, i)->0, j)->0,
        ).contains(x),
    ensures
        diff_reasons(old, new).contains(x),
{
    let t = old.entity_types@[i].0@;
    let o = old.entity_types@[i].1;
    let n = successor_type(old, new, i)->0;
    lemma_old_field_reasons_include(t, o.fields@, n.fields@, j, x);
    lemma_contains_left(old_field_reasons(t, o.fields@, n.fields@), added_required_reasons(t, n.fields@, o.fields@), x);
    lemma_entity_type_reason_in_diff(old, new, i, x);
}

/// Removing an entity type is reported as `entity_type 't' was removed`.
pub proof fn lemma_removed_entity_type_reported(old: MetaSchemaDefinition, new: MetaSchemaDefinition, i: int)
    requires
        0 <= i < old.entity_types@.len(),
        successor_type(old, new, i) is None,
    ensures
        diff_reasons(old, new).contains("entity_type '"@ + old.entity_types@[i].0@ + "' was removed"@),
{
    let x = msg_entity_type_removed(old.entity_types@[i].0@);
    assert(seq![x][0] == x);
    lemma_entity_type_reason_in_diff(old, new, i, x);
}

/// Removing (or renaming) a field of a kept entity type is reported as
/// `field 'f' was removed from entity_type 't' (or renamed)`.
pub proof fn lemma_removed_field_reported(old: MetaSchemaDefinition, new: MetaSchemaDefinition, i: int, j: int)
    requires
        0 <= i < old.entity_types@.len(),
        0 <= j < old.entity_types@[i].1.fields@.len(),
        successor_type(old, new, i) is Some,
        successor_field(old.entity_types@[i].1, successor_type(old, new, i)->0, j) is None,
    ensures
        diff_reasons(old, new).contains(
            "field '"@ + old.entity_types@[i].1.fields@[j].0@ + "' was removed from entity_type '"@
                + old.entity_types@[i].0@ + "' (or renamed)"@,
        ),
{
    let t = old.entity_types@[i].0@;
    let o = old.entity_types@[i].1;
    let n = successor_type(old, new, i)->0;
    let x = msg_field_removed(t, o.fields@[j].0@);
    lemma_removed_field_in_old_reasons(t, o.fields@, n.fields@, j);
    lemma_contains_left(old_field_reasons(t, o.fields@, n.fields@), added_required_reasons(t, n.fields@, o.fields@), x);
    lemma_entity_type_reason_in_diff(old, new, i, x);
}

proof fn lemma_removed_field_in_old_reasons(t: Seq<char>, olds: Seq<(String, FieldDef)>, news: Seq<(String, FieldDef)>, j: int)
    requires
        0 <= j < olds.len(),
        lookup(news, olds[j].0@) is None,
    ensures
        old_field_reasons(t, olds, news).contains(msg_field_removed(t, olds[j].0@)),
    decreases olds.len(),
{
    let x = msg_field_removed(t, olds[j].0@);
    let pre = old_field_reasons(t, olds.drop_last(), news);
    let suf = match lookup(news, olds.last().0@) {
        None => seq![msg_field_removed(t, olds.last().0@)],
        Some(nf) => field_change_reasons(t, olds.last().0@, olds.last().1, nf),
    };
    assert(old_field_reasons(t, olds, news) == pre + suf);
    if j == olds.len() - 1 {
        assert(suf[0] == x);
        lemma_contains_right(pre, suf, x);
    } else {
        assert(olds.drop_last()[j] == olds[j]);
        lemma_removed_field_in_old_reasons(t, olds.drop_last(), news, j);
        lemma_contains_left(pre, suf, x);
    }
}

/// Changing the item type of a kept array field is reported as
/// `field 't.f' array items type changed from 'a' to 'b'`.
pub proof fn lemma_items_change_reported(old: MetaSchemaDefinition, new: MetaSchemaDefinition, i: int, j: int)
    requires
        0 <= i < old.entity_types@.len(),
        0 <= j < old.entity_types@[i].1.fields@.len(),
        successor_type(old, new, i) is Some,
        successor_field(old.entity_types@[i].1, successor_type(old, new, i)->0, j) is Some,
        old.entity_types@[i].1.fields@[j].1.items is Some,
        successor_field(old.entity_types@[i].1, successor_type(old, new, i)->0, j)->0.items is Some,
        old.entity_types@[i].1.fields@[j].1.items->0.item_type@ != successor_field(
            old.entity_types@[i].1,
            successor_type(old, new, i)->0,
            j,
        )->0.items->0.item_type@,
    ensures
        diff_reasons(old, new).contains(
            "field '"@ + old.entity_types@[i].0@ + "."@ + old.entity_types@[i].1.fields@[j].0@ + "'"@
                + " array items type changed from '"@
                + old.entity_types@[i].1.fields@[j].1.items->0.item_type@ + "' to '"@
                + successor_field(old.entity_types@[i].1, successor_type(old, new, i)->0, j)->0.items->0.item_type@
                + "'"@,
        ),
{
    let t = old.entity_types@[i].0@;
    let f = old.entity_types@[i].1.fields@[j].0@;
    let of = old.entity_types@[i].1.fields@[j].1;
    let nf = successor_field(old.entity_types@[i].1, successor_type(old, new, i)->0, j)->0;
    let ir = items_change_reasons(t, f, of, nf);
    let x = ir[0];
    lemma_contains_right(type_change_reasons(t, f, of, nf) + required_change_reasons(t, f, of, nf), ir, x);
    lemma_contains_left(
        type_change_reasons(t, f, of, nf) + required_change_reasons(t, f, of, nf) + ir,
        enum_change_reasons(t, f, of, nf),
        x,
    );
    lemma_field_reason_in_diff(old, new, i, j, x);
}

/// Dropping a value from the allowed values of a kept field (where both versions restrict
/// them) is reported, per value, as `field 't.f' enum value 'v' was removed`.
pub proof fn lemma_enum_value_removal_reported(old: MetaSchemaDefinition, new: MetaSchemaDefinition, i: int, j: int, k: int)
    requires
        0 <= i < old.entity_types@.len(),
        0 <= j < old.entity_types@[i].1.fields@.len(),
        successor_type(old, new, i) is Some,
        successor_field(old.entity_types@[i].1, successor_type(old, new, i)->0, j) is Some,
        old.entity_types@[i].1.fields@[j].1.enum_values is Some,
        successor_field(old.entity_types@[i].1, successor_type(old, new, i)->0, j)->0.enum_values is Some,
        0 <= k < old.entity_types@[i].1.fields@[j].1.enum_values->0@.len(),
        forall|m: int|
            0 <= m < successor_field(old.entity_types@[i].1, successor_type(old, new, i)->0, j)->0.enum_values->0@.len()
                ==> #[trigger] successor_field(old.entity_types@[i].1, successor_type(old, new, i)->0, j)->0.enum_values->0@[m]@
                != old.entity_types@[i].1.fields@[j].1.enum_values->0@[k]@,
    ensures
        diff_reasons(old, new).contains(
            "field '"@ + old.entity_types@[i].0@ + "."@ + old.entity_types@[i].1.fields@[j].0@ + "'"@
                + " enum value '"@ + old.entity_types@[i].1.fields@[j].1.enum_values->0@[k]@
                + "' was removed"@,
        ),
{
    let t = old.entity_types@[i].0@;
    let f = old.entity_types@[i].1.fields@[j].0@;
    let of = old.entity_types@[i].1.fields@[j].1;
    let nf = successor_field(old.entity_types@[i].1, successor_type(old, new, i)->0, j)->0;
    let olds = of.enum_values->0@;
    let news = nf.enum_values->0@;
    lemma_enum_removals_include(t, f, olds, news, k);
    let x = msg_enum_value_removed(t, f, olds[k]@);
    let er = enum_change_reasons(t, f, of, nf);
    lemma_contains_right(
        type_change_reasons(t, f, of, nf) + required_change_reasons(t, f, of, nf) + items_change_reasons(t, f, of, nf),
        er,
        x,
    );
    lemma_field_reason_in_diff(old, new, i, j, x);
}

/// Adding a required field to a kept entity type is reported as
/// `new field 't.f' was added as required`.
pub proof fn lemma_new_required_field_reported(old: MetaSchemaDefinition, new: MetaSchemaDefinition, i: int, k: int)
    requires
        0 <= i < old.entity_types@.len(),
        successor_type(old, new, i) is Some,
        0 <= k < successor_type(old, new, i)->0.fields@.len(),
        successor_type(old, new, i)->0.fields@[k].1.required,
        lookup(old.entity_types@[i].1.fields@, successor_type(old, new, i)->0.fields@[k].0@) is None,
    ensures
        diff_reasons(old, new).contains(
            "new "@ + ("field '"@ + old.entity_types@[i].0@ + "."@ + successor_type(old, new, i)->0.fields@[k].0@
                + "'"@) + " was added as required"@,
        ),
{
    let t = old.entity_types@[i].0@;
    let o = old.entity_types@[i].1;
    let n = successor_type(old, new, i)->0;
    lemma_added_required_include(t, n.fields@, o.fields@, k);
    let x = msg_new_required(t, n.fields@[k].0@);
    lemma_contains_right(old_field_reasons(t, o.fields@, n.fields@), added_required_reasons(t, n.fields@, o.fields@), x);
    lemma_entity_type_reason_in_diff(old, new, i, x);
}

/// Removing a relation type is reported as `relation_type 'r' was removed`; changing its
/// source or target as `relation_type 'r' source/target changed`.
pub proof fn lemma_relation_changes_reported(old: MetaSchemaDefinition, new: MetaSchemaDefinition, i: int)
    requires
        0 <= i < old.relation_types@.len(),
    ensures
        ({
            let r = old.relation_types@[i].0@;
            let o = old.relation_types@[i].1;
            match lookup(new.relation_types@, r) {
                None => diff_reasons(old, new).contains("relation_type '"@ + r + "' was removed"@),
                Some(n) => (o.source@ != n.source@ || o.target@ != n.target@) ==> diff_reasons(old, new).contains(
                    "relation_type '"@ + r + "' source/target changed"@,
                ),
            }
        }),
{
    let r = old.relation_types@[i].0@;
    let o = old.relation_types@[i].1;
    let rr = relation_type_reasons(r, o, lookup(new.relation_types@, r));
    if rr.len() > 0 {
        let x = rr[0];
        lemma_relation_types_include(old.relation_types@, new.relation_types@, i, x);
        lemma_contains_right(
            entity_types_reasons(old.entity_types@, new.entity_types@),
            relation_types_reasons(old.relation_types@, new.relation_types@),
            x,
        );
    }
}

/// `n` keeps the field `o`: the same type, required only if it was, the same array item
/// type, and, where both constrain the values, every old enum value still allowed (new
/// values may be added, and the constraint may be dropped).
pub open spec fn field_kept(o: FieldDef, n: FieldDef) -> bool {
    &&& n.field_type == o.field_type
    &&& (n.required ==> o.required)
    &&& n.items == o.items
    &&& (o.enum_values is Some && n.enum_values is Some ==> forall|i: int|
        0 <= i < o.enum_values->0@.len() ==> strs_contain(
            n.enum_values->0@,
            #[trigger] o.enum_values->0@[i]@,
        ))
}

/// `n` extends the entity type `o`: every old field is kept, and every field that is new
/// is optional. Descriptions may change freely.
pub open spec fn entity_type_extended(o: EntityTypeDef, n: EntityTypeDef) -> bool {
    &&& forall|j: int|
        0 <= j < o.fields@.len() ==> (successor_field(o, n, j) is Some && field_kept(
            (#[trigger] o.fields@[j]).1,
            successor_field(o, n, j)->0,
        ))
    &&& forall|k: int|
        0 <= k < n.fields@.len() ==> (lookup(o.fields@, (#[trigger] n.fields@[k]).0@) is None
            ==> !n.fields@[k].1.required)
}

/// `new` only adds to `old`: every old entity type is still defined and extended, and every
/// old relation type is still defined with the same source and target. New entity types,
/// relation types and optional fields, added enum values and changed descriptions are all
/// additions in this sense.
pub open spec fn only_additions(old: MetaSchemaDefinition, new: MetaSchemaDefinition) -> bool {
    &&& forall|i: int|
        0 <= i < old.entity_types@.len() ==> (successor_type(old, new, i) is Some
            && entity_type_extended((#[trigger] old.entity_types@[i]).1, successor_type(old, new, i)->0))
    &&& forall|i: int|
        0 <= i < old.relation_types@.len() ==> match lookup(
            new.relation_types@,
            (#[trigger] old.relation_types@[i]).0@,
        ) {
            Some(nr) => nr.source@ == old.relation_types@[i].1.source@ && nr.target@
                == old.relation_types@[i].1.target@,
            None => false,
        }
}

/// Additions are never breaking: adding entity types, relation types, optional fields or
/// enum values, dropping an enum constraint, and changing descriptions report no reason.
pub proof fn lemma_additions_are_non_breaking(old: MetaSchemaDefinition, new: MetaSchemaDefinition)
    requires
        only_additions(old, new),
    ensures
        compatible(old, new),
        diff_reasons(old, new).len() == 0,
{
    assert forall|i: int| 0 <= i < old.entity_types@.len() implies match lookup(
        new.entity_types@,
        (#[trigger] old.entity_types@[i]).0@,
    ) {
        Some(ne) => entity_type_compatible(old.entity_types@[i].1, ne),
        None => false,
    } by {
        let o = old.entity_types@[i].1;
        let n = successor_type(old, new, i)->0;
        assert(entity_type_extended(o, n));
        assert forall|j: int| 0 <= j < o.fields@.len() implies match lookup(
            n.fields@,
            (#[trigger] o.fields@[j]).0@,
        ) {
            Some(nf) => field_compatible(o.fields@[j].1, nf),
            None => false,
        } by {
            assert(successor_field(o, n, j) is Some && field_kept(o.fields@[j].1, successor_field(o, n, j)->0));
        }
    }
    lemma_diff_empty_iff_compatible(old, new);
}

} // verus!
