//! Projection of an entity type to the JSON Schema that validates entity data and describes
//! tool inputs. Object members are produced in ascending key order.
use vstd::prelude::*;

use super::types::{EntityTypeDef, FieldDef, FieldTypeName, field_type_text};
use crate::json::{Json, JsonValue, json_member, member_lookup, json_model, json_model_items, json_model_members};
use crate::text::string_of;

verus! {

/// A one-member sequence when `v` is present, otherwise empty.
pub open spec fn opt_member(k: Seq<char>, v: Option<Json>) -> Seq<(Seq<char>, Json)> {
    match v {
        Some(j) => seq![(k, j)],
        None => Seq::empty(),
    }
}

/// JSON strings for each of `s`, in order.
pub open spec fn json_strings(s: Seq<String>) -> Seq<Json>
    decreases s.len(),
{
    if s.len() == 0 {
        Seq::empty()
    } else {
        json_strings(s.drop_last()).push(Json::String(s.last()@))
    }
}

pub open spec fn schema_default(f: FieldDef) -> Seq<(Seq<char>, Json)> {
    opt_member("default"@, match f.default { Some(d) => Some(d@), None => None })
}

pub open spec fn schema_enum(f: FieldDef) -> Seq<(Seq<char>, Json)> {
    opt_member("enum"@, match f.enum_values { Some(e) => Some(Json::Array(json_strings(e@))), None => None })
}

pub open spec fn schema_format(f: FieldDef) -> Seq<(Seq<char>, Json)> {
    opt_member("format"@, match f.format { Some(x) => Some(Json::String(x@)), None => None })
}

pub open spec fn schema_items(f: FieldDef) -> Seq<(Seq<char>, Json)> {
    opt_member(
        "items"@,
        if f.field_type == FieldTypeName::Array {
            match f.items {
                Some(it) => Some(Json::Object(seq![("type"@, Json::String(it.item_type@))])),
                None => None,
            }
        } else {
            None
        },
    )
}

pub open spec fn schema_maximum(f: FieldDef) -> Seq<(Seq<char>, Json)> {
    opt_member("maximum"@, match f.maximum { Some(x) => Some(Json::Number(x@)), None => None })
}

pub open spec fn schema_minimum(f: FieldDef) -> Seq<(Seq<char>, Json)> {
    opt_member("minimum"@, match f.minimum { Some(x) => Some(Json::Number(x@)), None => None })
}

/// The JSON Schema of one field: `default`, `enum`, `format`, `items` (array fields only),
/// `maximum` and `minimum` when present, and always `type`.
pub open spec fn field_schema(f: FieldDef) -> Json {
    Json::Object(
        schema_default(f) + schema_enum(f) + schema_format(f) + schema_items(f) + schema_maximum(f)
            + schema_minimum(f) + seq![("type"@, Json::String(field_type_text(f.field_type)))],
    )
}

/// The `properties` members for a sequence of fields.
pub open spec fn properties_schema(s: Seq<(String, FieldDef)>) -> Seq<(Seq<char>, Json)>
    decreases s.len(),
{
    if s.len() == 0 {
        Seq::empty()
    } else {
        properties_schema(s.drop_last()).push((s.last().0@, field_schema(s.last().1)))
    }
}

/// The names of the required fields, as JSON strings, in field order.
pub open spec fn required_names(s: Seq<(String, FieldDef)>) -> Seq<Json>
    decreases s.len(),
{
    if s.len() == 0 {
        Seq::empty()
    } else if s.last().1.required {
        required_names(s.drop_last()).push(Json::String(s.last().0@))
    } else {
        required_names(s.drop_last())
    }
}

/// The JSON Schema of an entity type: an object with one property per field, listing the
/// required fields when there are any.
pub open spec fn entity_schema(et: EntityTypeDef) -> Json {
    let req = required_names(et.fields@);
    Json::Object(
        seq![("properties"@, Json::Object(properties_schema(et.fields@)))] + (if req.len() > 0 {
            seq![("required"@, Json::Array(req))]
        } else {
            Seq::empty()
        }) + seq![("type"@, Json::String("object"@))],
    )
}

proof fn lemma_members_push(s: Seq<(String, JsonValue)>, e: (String, JsonValue))
    ensures
        json_model_members(s.push(e)) == json_model_members(s).push((e.0@, json_model(e.1))),
{
    assert(s.push(e).drop_last() =~= s);
}

proof fn lemma_items_push(s: Seq<JsonValue>, e: JsonValue)
    ensures
        json_model_items(s.push(e)) == json_model_items(s).push(json_model(e)),
{
    assert(s.push(e).drop_last() =~= s);
}

fn json_string_array(values: &Vec<String>) -> (r: JsonValue)
    ensures
        r@ == Json::Array(json_strings(values@)),
{
    let mut out: Vec<JsonValue> = Vec::new();
    let mut i: usize = 0;
    while i < values.len()
        invariant
            i <= values@.len(),
            json_model_items(out@) == json_strings(values@.subrange(0, i as int)),
        decreases values@.len() - i,
    {
        let e = JsonValue::String(values[i].clone());
        proof {
            lemma_items_push(out@, e);
            assert(values@.subrange(0, i + 1).drop_last() =~= values@.subrange(0, i as int));
        }
        out.push(e);
        i = i + 1;
    }
    proof {
        assert(values@.subrange(0, values@.len() as int) =~= values@);
    }
    JsonValue::Array(out)
}

proof fn lemma_members_concat(a: Seq<(String, JsonValue)>, b: Seq<(String, JsonValue)>)
    ensures
        json_model_members(a + b) == json_model_members(a) + json_model_members(b),
    decreases b.len(),
{
    if b.len() > 0 {
        lemma_members_concat(a, b.drop_last());
        assert((a + b).drop_last() =~= a + b.drop_last());
        assert(json_model_members(a) + json_model_members(b) =~= (json_model_members(a)
            + json_model_members(b.drop_last())).push((b.last().0@, json_model(b.last().1))));
    } else {
        assert(a + b =~= a);
    }
}

fn single_member(k: &str, v: JsonValue) -> (r: Vec<(String, JsonValue)>)
    ensures
        json_model_members(r@) == seq![(k@, v@)],
{
    let mut r: Vec<(String, JsonValue)> = Vec::new();
    let e = (string_of(k), v);
    proof {
        lemma_members_push(r@, e);
    }
    r.push(e);
    r
}

fn default_part(f: &FieldDef) -> (r: Vec<(String, JsonValue)>)
    ensures
        json_model_members(r@) == schema_default(*f),
{
    match &f.default {
        Some(d) => single_member("default", d.copy()),
        None => Vec::new(),
    }
}

fn enum_part(f: &FieldDef) -> (r: Vec<(String, JsonValue)>)
    ensures
        json_model_members(r@) == schema_enum(*f),
{
    match &f.enum_values {
        Some(values) => single_member("enum", json_string_array(values)),
        None => Vec::new(),
    }
}

fn format_part(f: &FieldDef) -> (r: Vec<(String, JsonValue)>)
    ensures
        json_model_members(r@) == schema_format(*f),
{
    match &f.format {
        Some(x) => single_member("format", JsonValue::String(x.clone())),
        None => Vec::new(),
    }
}

fn items_part(f: &FieldDef) -> (r: Vec<(String, JsonValue)>)
    ensures
        json_model_members(r@) == schema_items(*f),
{
    if f.field_type == FieldTypeName::Array {
        match &f.items {
            Some(it) => {
                let inner = single_member("type", JsonValue::String(it.item_type.clone()));
                single_member("items", JsonValue::Object(inner))
            },
            None => Vec::new(),
        }
    } else {
        Vec::new()
    }
}

fn maximum_part(f: &FieldDef) -> (r: Vec<(String, JsonValue)>)
    ensures
        json_model_members(r@) == schema_maximum(*f),
{
    match &f.maximum {
        Some(x) => single_member("maximum", JsonValue::Number(x.clone())),
        None => Vec::new(),
    }
}

fn minimum_part(f: &FieldDef) -> (r: Vec<(String, JsonValue)>)
    ensures
        json_model_members(r@) == schema_minimum(*f),
{
    match &f.minimum {
        Some(x) => single_member("minimum", JsonValue::Number(x.clone())),
        None => Vec::new(),
    }
}

/// Appends the members of `part` to `members`.
fn append_members(members: &mut Vec<(String, JsonValue)>, part: Vec<(String, JsonValue)>)
    ensures
        json_model_members(final(members)@) == json_model_members(old(members)@)
            + json_model_members(part@),
{
    let mut part = part;
    proof {
        lemma_members_concat(members@, part@);
    }
    members.append(&mut part);
}

/// The JSON Schema of one field: its `type`, plus `default`, `enum`, `format`, `items` (for
/// array fields), `maximum` and `minimum` when the definition carries them.
fn field_to_json_schema(f: &FieldDef) -> (r: JsonValue)
    ensures
        r@ == field_schema(*f),
{
    let mut members = default_part(f);
    append_members(&mut members, enum_part(f));
    append_members(&mut members, format_part(f));
    append_members(&mut members, items_part(f));
    append_members(&mut members, maximum_part(f));
    append_members(&mut members, minimum_part(f));
    append_members(&mut members, single_member("type", JsonValue::String(string_of(f.field_type.as_str()))));
    proof {
        assert(json_model_members(members@) =~= schema_default(*f) + schema_enum(*f) + schema_format(*f)
            + schema_items(*f) + schema_maximum(*f) + schema_minimum(*f) + seq![("type"@, Json::String(field_type_text(f.field_type)))]);
    }
    JsonValue::Object(members)
}

/// Generates, from an entity type definition alone, the JSON Schema used both to validate
/// entity data and to describe tool inputs.
pub fn entity_type_to_json_schema(entity_type: &EntityTypeDef) -> (r: JsonValue)
    ensures
        r@ == entity_schema(*entity_type),
        entity_type.fields.wf() ==> forall|i: int|
            0 <= i < entity_type.fields@.len() ==> (schema_required(r@).contains(
                Json::String(#[trigger] entity_type.fields@[i].0@),
            ) <==> entity_type.fields@[i].1.required),
{
    let fields = entity_type.fields.as_slice();
    let mut properties: Vec<(String, JsonValue)> = Vec::new();
    let mut required: Vec<JsonValue> = Vec::new();
    let mut i: usize = 0;
    while i < fields.len()
        invariant
            fields@ == entity_type.fields@,
            i <= fields@.len(),
            json_model_members(properties@) == properties_schema(fields@.subrange(0, i as int)),
            json_model_items(required@) == required_names(fields@.subrange(0, i as int)),
        decreases fields@.len() - i,
    {
        let (name, field) = (&fields[i].0, &fields[i].1);
        proof {
            let p = fields@.subrange(0, i + 1);
            assert(p.drop_last() =~= fields@.subrange(0, i as int));
            assert(p.last() == fields@[i as int]);
        }
        let e = (name.clone(), field_to_json_schema(field));
        proof {
            lemma_members_push(properties@, e);
        }
        properties.push(e);
        if field.required {
            let n = JsonValue::String(name.clone());
            proof {
                lemma_items_push(required@, n);
            }
            required.push(n);
        }
        i = i + 1;
    }
    proof {
        assert(fields@.subrange(0, fields@.len() as int) =~= fields@);
    }
    let ghost props_model = properties_schema(entity_type.fields@);
    let ghost req_model = required_names(entity_type.fields@);
    let mut members: Vec<(String, JsonValue)> = Vec::new();
    let p = (string_of("properties"), JsonValue::Object(properties));
    proof {
        lemma_members_push(members@, p);
    }
    members.push(p);
    proof {
        assert(json_model_members(members@) =~= seq![("properties"@, Json::Object(props_model))]);
    }
    proof {
        crate::json::lemma_model_items_len(required@);
    }
    let has_required = required.len() > 0;
    if has_required {
        let q = (string_of("required"), JsonValue::Array(required));
        proof {
            lemma_members_push(members@, q);
        }
        members.push(q);
    }
    proof {
        if req_model.len() > 0 {
            assert(json_model_members(members@) =~= seq![("properties"@, Json::Object(props_model))]
                + seq![("required"@, Json::Array(req_model))]);
        } else {
            assert(json_model_members(members@) =~= seq![("properties"@, Json::Object(props_model))]
                + Seq::<(Seq<char>, Json)>::empty());
        }
    }
    let t = (string_of("type"), JsonValue::String(string_of("object")));
    proof {
        lemma_members_push(members@, t);
    }
    members.push(t);
    proof {
        assert(json_model_members(members@) =~= seq![("properties"@, Json::Object(props_model))]
            + (if req_model.len() > 0 {
            seq![("required"@, Json::Array(req_model))]
        } else {
            Seq::empty()
        }) + seq![("type"@, Json::String("object"@))]);
        if entity_type.fields.wf() {
            assert forall|i: int| 0 <= i < entity_type.fields@.len() implies (schema_required(
                entity_schema(*entity_type),
            ).contains(Json::String(#[trigger] entity_type.fields@[i].0@))
                <==> entity_type.fields@[i].1.required) by {
                lemma_required_lists_exactly_required_fields(*entity_type, i);
            }
        }
    }
    JsonValue::Object(members)
}

/// The `required` array of an object schema; empty when it has none.
pub open spec fn schema_required(schema: Json) -> Seq<Json> {
    match json_member(schema, "required"@) {
        Some(Json::Array(a)) => a,
        _ => Seq::empty(),
    }
}

proof fn lemma_required_names_contains(s: Seq<(String, FieldDef)>, n: Seq<char>)
    ensures
        required_names(s).contains(Json::String(n)) <==> exists|j: int|
            0 <= j < s.len() && #[trigger] s[j].0@ == n && s[j].1.required,
    decreases s.len(),
{
    if s.len() > 0 {
        let p = s.drop_last();
        lemma_required_names_contains(p, n);
        let rp = required_names(p);
        if required_names(s).contains(Json::String(n)) {
            let k = choose|k: int| 0 <= k < required_names(s).len() && required_names(s)[k] == Json::String(n);
            if k < rp.len() {
                assert(rp[k] == Json::String(n));
                let j = choose|j: int| 0 <= j < p.len() && #[trigger] p[j].0@ == n && p[j].1.required;
                assert(s[j] == p[j]);
            } else {
                assert(s[s.len() - 1].0@ == n);
            }
        }
        if exists|j: int| 0 <= j < s.len() && #[trigger] s[j].0@ == n && s[j].1.required {
            let j = choose|j: int| 0 <= j < s.len() && #[trigger] s[j].0@ == n && s[j].1.required;
            if j < s.len() - 1 {
                assert(p[j] == s[j]);
                let k = choose|k: int| 0 <= k < rp.len() && rp[k] == Json::String(n);
                if s.last().1.required {
                    assert(required_names(s)[k] == Json::String(n));
                }
            } else {
                assert(required_names(s)[rp.len() as int] == Json::String(n));
            }
        }
    }
}

/// The schema of an entity type lists a field's name in its `required` array exactly when
/// the field is marked required, whatever the field's type: data missing a required field
/// fails validation, and data missing an optional one does not on that account.
pub proof fn lemma_required_lists_exactly_required_fields(et: EntityTypeDef, i: int)
    requires
        et.fields.wf(),
        0 <= i < et.fields@.len(),
    ensures
        schema_required(entity_schema(et)).contains(Json::String(et.fields@[i].0@))
            <==> et.fields@[i].1.required,
{
    let s = et.fields@;
    crate::name_map::lemma_sorted_distinct(s);
    lemma_required_names_contains(s, s[i].0@);
    let req = required_names(s);
    let members = seq![("properties"@, Json::Object(properties_schema(s)))] + (if req.len() > 0 {
        seq![("required"@, Json::Array(req))]
    } else {
        Seq::empty()
    }) + seq![("type"@, Json::String("object"@))];
    reveal_strlit("properties");
    reveal_strlit("required");
    reveal_strlit("type");
    assert("properties"@[0] != "required"@[0]);
    assert("type"@.len() != "required"@.len());
    assert(entity_schema(et) == Json::Object(members));
    if req.len() > 0 {
        assert(members.len() == 3);
        assert(members.drop_first()[0] == ("required"@, Json::Array(req)));
        assert(members[0].0 != "required"@);
        assert(crate::json::member_lookup(members.drop_first(), "required"@) == Some(Json::Array(req)));
        assert(crate::json::member_lookup(members, "required"@) == Some(Json::Array(req)));
        assert(schema_required(entity_schema(et)) == req);
    } else {
        assert(members.len() == 2);
        assert(members.drop_first()[0].0 == "type"@);
        assert(members.drop_first().drop_first().len() == 0);
        assert(members[0].0 != "required"@);
        assert(members.drop_first()[0].0 != "required"@);
        assert(crate::json::member_lookup(members.drop_first().drop_first(), "required"@) is None);
        assert(crate::json::member_lookup(members.drop_first(), "required"@) is None);
        assert(crate::json::member_lookup(members, "required"@) is None);
        assert(schema_required(entity_schema(et)) == Seq::<Json>::empty());
        assert(!req.contains(Json::String(s[i].0@)));
    }
    if exists|j: int| 0 <= j < s.len() && #[trigger] s[j].0@ == s[i].0@ && s[j].1.required {
        let j = choose|j: int| 0 <= j < s.len() && #[trigger] s[j].0@ == s[i].0@ && s[j].1.required;
        assert(j == i);
    }
}

proof fn lemma_lookup_concat(a: Seq<(Seq<char>, Json)>, b: Seq<(Seq<char>, Json)>, k: Seq<char>)
    ensures
        member_lookup(a + b, k) == if member_lookup(a, k) is Some {
            member_lookup(a, k)
        } else {
            member_lookup(b, k)
        },
    decreases a.len(),
{
    if a.len() == 0 {
        assert(a + b =~= b);
    } else {
        assert((a + b).drop_first() =~= a.drop_first() + b);
        assert((a + b)[0] == a[0]);
        lemma_lookup_concat(a.drop_first(), b, k);
    }
}

proof fn lemma_lookup_opt(k: Seq<char>, v: Option<Json>, q: Seq<char>)
    ensures
        member_lookup(opt_member(k, v), q) == if k == q {
            v
        } else {
            None
        },
{
    let m = opt_member(k, v);
    if v is Some {
        assert(m[0] == (k, v->0));
        assert(m.drop_first().len() == 0);
        assert(member_lookup(m.drop_first(), q) is None);
    } else {
        assert(m.len() == 0);
    }
}

/// What a lookup of `q` finds in the schema of field `d`.
proof fn lemma_field_schema_lookup(d: FieldDef, q: Seq<char>)
    ensures
        json_member(field_schema(d), q) == if q == "default"@ {
            match d.default {
                Some(x) => Some(x@),
                None => None,
            }
        } else if q == "enum"@ {
            match d.enum_values {
                Some(e) => Some(Json::Array(json_strings(e@))),
                None => None,
            }
        } else if q == "format"@ {
            match d.format {
                Some(x) => Some(Json::String(x@)),
                None => None,
            }
        } else if q == "items"@ {
            if d.field_type == FieldTypeName::Array {
                match d.items {
                    Some(it) => Some(Json::Object(seq![("type"@, Json::String(it.item_type@))])),
                    None => None,
                }
            } else {
                None
            }
        } else if q == "maximum"@ {
            match d.maximum {
                Some(x) => Some(Json::Number(x@)),
                None => None,
            }
        } else if q == "minimum"@ {
            match d.minimum {
                Some(x) => Some(Json::Number(x@)),
                None => None,
            }
        } else if q == "type"@ {
            Some(Json::String(field_type_text(d.field_type)))
        } else {
            None
        },
{
    reveal_strlit("type");
    reveal_strlit("format");
    reveal_strlit("minimum");
    reveal_strlit("maximum");
    reveal_strlit("default");
    reveal_strlit("enum");
    reveal_strlit("items");
    assert("default"@.len() == 7 && "enum"@.len() == 4 && "format"@.len() == 6 && "items"@.len() == 5);
    assert("maximum"@.len() == 7 && "minimum"@.len() == 7 && "type"@.len() == 4);
    assert("default"@[0] != "maximum"@[0] && "default"@[0] != "minimum"@[0]);
    assert("maximum"@[1] != "minimum"@[1]);
    assert("enum"@[0] != "type"@[0]);
    let pd = schema_default(d);
    let pe = schema_enum(d);
    let pf = schema_format(d);
    let pi = schema_items(d);
    let px = schema_maximum(d);
    let pn = schema_minimum(d);
    let pt = seq![("type"@, Json::String(field_type_text(d.field_type)))];
    assert(field_schema(d) == Json::Object(pd + pe + pf + pi + px + pn + pt));
    lemma_lookup_concat(pd + pe + pf + pi + px + pn, pt, q);
    lemma_lookup_concat(pd + pe + pf + pi + px, pn, q);
    lemma_lookup_concat(pd + pe + pf + pi, px, q);
    lemma_lookup_concat(pd + pe + pf, pi, q);
    lemma_lookup_concat(pd + pe, pf, q);
    lemma_lookup_concat(pd, pe, q);
    lemma_lookup_opt("default"@, match d.default { Some(x) => Some(x@), None => None }, q);
    lemma_lookup_opt("enum"@, match d.enum_values { Some(e) => Some(Json::Array(json_strings(e@))), None => None }, q);
    lemma_lookup_opt("format"@, match d.format { Some(x) => Some(Json::String(x@)), None => None }, q);
    lemma_lookup_opt(
        "items"@,
        if d.field_type == FieldTypeName::Array {
            match d.items {
                Some(it) => Some(Json::Object(seq![("type"@, Json::String(it.item_type@))])),
                None => None,
            }
        } else {
            None
        },
        q,
    );
    lemma_lookup_opt("maximum"@, match d.maximum { Some(x) => Some(Json::Number(x@)), None => None }, q);
    lemma_lookup_opt("minimum"@, match d.minimum { Some(x) => Some(Json::Number(x@)), None => None }, q);
    lemma_lookup_opt("type"@, Some(Json::String(field_type_text(d.field_type))), q);
    assert(pt == opt_member("type"@, Some(Json::String(field_type_text(d.field_type)))));
}

proof fn lemma_lookup_first_match(ms: Seq<(Seq<char>, Json)>, j: int, k: Seq<char>)
    requires
        0 <= j < ms.len(),
        ms[j].0 == k,
        forall|m: int| 0 <= m < j ==> (#[trigger] ms[m]).0 != k,
    ensures
        member_lookup(ms, k) == Some(ms[j].1),
    decreases j,
{
    if j > 0 {
        assert forall|m: int| 0 <= m < j - 1 implies (#[trigger] ms.drop_first()[m]).0 != k by {
            assert(ms.drop_first()[m] == ms[m + 1]);
        }
        lemma_lookup_first_match(ms.drop_first(), j - 1, k);
    }
}

proof fn lemma_properties_index(s: Seq<(String, FieldDef)>)
    ensures
        properties_schema(s).len() == s.len(),
        forall|j: int| 0 <= j < s.len() ==> #[trigger] properties_schema(s)[j] == (s[j].0@, field_schema(s[j].1)),
    decreases s.len(),
{
    if s.len() > 0 {
        lemma_properties_index(s.drop_last());
        assert forall|j: int| 0 <= j < s.len() implies #[trigger] properties_schema(s)[j] == (s[j].0@, field_schema(s[j].1)) by {
            if j < s.len() - 1 {
                assert(s.drop_last()[j] == s[j]);
            }
        }
    }
}

proof fn lemma_json_strings_map(e: Seq<String>)
    ensures
        json_strings(e) == e.map_values(|v: String| Json::String(v@)),
    decreases e.len(),
{
    if e.len() > 0 {
        lemma_json_strings_map(e.drop_last());
        assert(e.map_values(|v: String| Json::String(v@)) =~= e.drop_last().map_values(|v: String| Json::String(v@)).push(
            Json::String(e.last()@),
        ));
    }
}

/// The schema of the field named `name`, under the `properties` member of `schema`.
pub open spec fn property_of(schema: Json, name: Seq<char>) -> Option<Json> {
    match json_member(schema, "properties"@) {
        Some(p) => json_member(p, name),
        None => None,
    }
}

/// The schema of an entity type is of `type` `object`, and under `properties` each field
/// has its own schema: of the JSON Schema `type` of the field's type, with `format`,
/// `minimum`, `maximum`, `default` and `enum` exactly when the field carries them (with the
/// same values), and `items` for an array field that declares its item type.
pub proof fn lemma_property_schema_carries_field(et: EntityTypeDef, i: int)
    requires
        et.fields.wf(),
        0 <= i < et.fields@.len(),
    ensures
        json_member(entity_schema(et), "type"@) == Some(Json::String("object"@)),
        property_of(entity_schema(et), et.fields@[i].0@) is Some,
        ({
            let p = property_of(entity_schema(et), et.fields@[i].0@)->0;
            let d = et.fields@[i].1;
            &&& json_member(p, "type"@) == Some(Json::String(field_type_text(d.field_type)))
            &&& json_member(p, "format"@) == match d.format {
                Some(x) => Some(Json::String(x@)),
                None => None,
            }
            &&& json_member(p, "minimum"@) == match d.minimum {
                Some(x) => Some(Json::Number(x@)),
                None => None,
            }
            &&& json_member(p, "maximum"@) == match d.maximum {
                Some(x) => Some(Json::Number(x@)),
                None => None,
            }
            &&& json_member(p, "default"@) == match d.default {
                Some(x) => Some(x@),
                None => None,
            }
            &&& json_member(p, "enum"@) == match d.enum_values {
                Some(e) => Some(Json::Array(e@.map_values(|v: String| Json::String(v@)))),
                None => None,
            }
            &&& json_member(p, "items"@) == if d.field_type == FieldTypeName::Array && d.items is Some {
                Some(Json::Object(seq![("type"@, Json::String(d.items->0.item_type@))]))
            } else {
                None
            }
        }),
{
    let s = et.fields@;
    crate::name_map::lemma_sorted_distinct(s);
    let req = required_names(s);
    let props = properties_schema(s);
    let mid: Seq<(Seq<char>, Json)> = if req.len() > 0 {
        seq![("required"@, Json::Array(req))]
    } else {
        Seq::empty()
    };
    let top = seq![("properties"@, Json::Object(props))];
    let tail = seq![("type"@, Json::String("object"@))];
    let members = top + mid + tail;
    assert(entity_schema(et) == Json::Object(members));
    reveal_strlit("properties");
    reveal_strlit("required");
    reveal_strlit("type");
    reveal_strlit("format");
    reveal_strlit("minimum");
    reveal_strlit("maximum");
    reveal_strlit("default");
    reveal_strlit("enum");
    reveal_strlit("items");
    assert("properties"@[0] != "type"@[0]);
    assert("required"@[0] != "type"@[0]);
    assert("type"@ != "properties"@);
    // The schema's own `type` and `properties` members.
    lemma_lookup_concat(top + mid, tail, "type"@);
    lemma_lookup_concat(top, mid, "type"@);
    lemma_lookup_concat(top + mid, tail, "properties"@);
    lemma_lookup_concat(top, mid, "properties"@);
    assert(top.drop_first().len() == 0);
    assert(tail.drop_first().len() == 0);
    if req.len() > 0 {
        assert(mid.drop_first().len() == 0);
    }
    assert(member_lookup(top, "properties"@) == Some(Json::Object(props)));
    assert(member_lookup(top.drop_first(), "type"@) is None);
    assert(member_lookup(top, "type"@) is None);
    if req.len() > 0 {
        assert(member_lookup(mid.drop_first(), "type"@) is None);
    }
    assert(member_lookup(mid, "type"@) is None);
    assert(member_lookup(tail, "type"@) == Some(Json::String("object"@)));
    // The field's entry under `properties`.
    lemma_properties_index(s);
    assert forall|m: int| 0 <= m < i implies (#[trigger] props[m]).0 != s[i].0@ by {
        assert(s[m].0@ != s[i].0@);
    }
    lemma_lookup_first_match(props, i, s[i].0@);
    let d = s[i].1;
    assert(property_of(entity_schema(et), s[i].0@) == Some(field_schema(d)));
    // The members of the field's schema: each key is its own.
    assert("default"@.len() == 7 && "enum"@.len() == 4 && "format"@.len() == 6 && "items"@.len() == 5);
    assert("maximum"@.len() == 7 && "minimum"@.len() == 7 && "type"@.len() == 4);
    assert("default"@[0] != "maximum"@[0] && "default"@[0] != "minimum"@[0]);
    assert("maximum"@[1] != "minimum"@[1]);
    assert("enum"@[0] != "type"@[0]);
    lemma_field_schema_lookup(d, "type"@);
    lemma_field_schema_lookup(d, "format"@);
    lemma_field_schema_lookup(d, "minimum"@);
    lemma_field_schema_lookup(d, "maximum"@);
    lemma_field_schema_lookup(d, "default"@);
    lemma_field_schema_lookup(d, "enum"@);
    lemma_field_schema_lookup(d, "items"@);
    if d.enum_values is Some {
        lemma_json_strings_map(d.enum_values->0@);
    }
}

} // verus!
