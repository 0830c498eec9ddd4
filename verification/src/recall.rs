//! Recall: an entity together with its neighbors in one answer. This module holds the
//! decisions of that answer: how many neighbors are read and whether more exist, and the
//! shallow form of a neighbor's data, which keeps only the fields marked `x-embed`.
use vstd::prelude::*;

use crate::entities::{clamp_limit, clamped_limit};
use crate::json::{json_member, json_model, json_model_members, Json, JsonValue};
use crate::metaschema::{FieldDef, MetaSchemaDefinition};
use crate::name_map::lookup;
use crate::relations::DEFAULT_NEIGHBORS_LIMIT;

verus! {

/// Number of neighbors a recall returns when the caller does not ask for a number.
pub const DEFAULT_RECALL_LIMIT: i64 = DEFAULT_NEIGHBORS_LIMIT;

/// The members of `data` named by the fields marked `x-embed`, in field order; a marked
/// field that `data` lacks contributes nothing.
pub open spec fn embedded_members(fields: Seq<(String, FieldDef)>, data: Json) -> Seq<(Seq<char>, Json)>
    decreases fields.len(),
{
    if fields.len() == 0 {
        Seq::empty()
    } else {
        let rest = embedded_members(fields.drop_last(), data);
        let name = fields.last().0@;
        if fields.last().1.x_embed && json_member(data, name) is Some {
            rest.push((name, json_member(data, name)->0))
        } else {
            rest
        }
    }
}

/// The shallow form of an entity's data: an object of its `x-embed` fields. When the
/// schema no longer defines the entity type, or the data is not an object, it is empty.
pub open spec fn shallow_data(definition: MetaSchemaDefinition, entity_type: Seq<char>, data: Json) -> Json {
    match lookup(definition.entity_types@, entity_type) {
        Some(et) => Json::Object(embedded_members(et.fields@, data)),
        None => Json::Object(Seq::empty()),
    }
}

/// `m` is the member `data` has under the name of some field marked `x-embed`.
pub open spec fn from_embedded_field(fields: Seq<(String, FieldDef)>, data: Json, m: (Seq<char>, Json)) -> bool {
    exists|j: int|
        0 <= j < fields.len() && (#[trigger] fields[j]).0@ == m.0 && fields[j].1.x_embed
            && json_member(data, m.0) == Some(m.1)
}

/// Each member kept is an `x-embed` field carrying the value the data has under that name,
/// and each `x-embed` field the data has is kept.
pub proof fn lemma_embedded_members(fields: Seq<(String, FieldDef)>, data: Json)
    ensures
        forall|k: int|
            0 <= k < embedded_members(fields, data).len() ==> from_embedded_field(
                fields,
                data,
                #[trigger] embedded_members(fields, data)[k],
            ),
        forall|j: int|
            0 <= j < fields.len() && (#[trigger] fields[j]).1.x_embed && json_member(
                data,
                fields[j].0@,
            ) is Some ==> embedded_members(fields, data).contains(
                (fields[j].0@, json_member(data, fields[j].0@)->0),
            ),
    decreases fields.len(),
{
    if fields.len() > 0 {
        let init = fields.drop_last();
        lemma_embedded_members(init, data);
        let rest = embedded_members(init, data);
        let all = embedded_members(fields, data);
        assert forall|k: int| 0 <= k < all.len() implies from_embedded_field(fields, data, all[k]) by {
            if k < rest.len() {
                assert(all[k] == rest[k]);
                assert(from_embedded_field(init, data, rest[k]));
                let j = choose|j: int|
                    0 <= j < init.len() && (#[trigger] init[j]).0@ == rest[k].0 && init[j].1.x_embed
                        && json_member(data, rest[k].0) == Some(rest[k].1);
                assert(fields[j] == init[j]);
            } else {
                assert(fields[fields.len() - 1] == fields.last());
            }
        }
        assert forall|j: int|
            0 <= j < fields.len() && (#[trigger] fields[j]).1.x_embed && json_member(
                data,
                fields[j].0@,
            ) is Some implies all.contains((fields[j].0@, json_member(data, fields[j].0@)->0)) by {
            let m = (fields[j].0@, json_member(data, fields[j].0@)->0);
            if j < init.len() {
                assert(init[j] == fields[j]);
                assert(rest.contains(m));
                let k = choose|k: int| 0 <= k < rest.len() && rest[k] == m;
                assert(all[k] == rest[k]);
            } else {
                assert(all[rest.len() as int] == m);
            }
        }
    }
}

/// The shallow form of `data` for an entity of type `entity_type` under `definition`:
/// only the fields marked `x-embed`, with their values, in field order.
pub fn shallow_copy_data(definition: &MetaSchemaDefinition, entity_type: &str, data: &JsonValue) -> (r: JsonValue)
    ensures
        r@ == shallow_data(*definition, entity_type@, data@),
{
    match definition.entity_types.get(entity_type) {
        None => {
            proof {
                assert(json_model_members(Seq::<(String, JsonValue)>::empty()) =~= Seq::empty());
            }
            JsonValue::Object(Vec::new())
        },
        Some(et) => {
            let fields = et.fields.as_slice();
            let mut out: Vec<(String, JsonValue)> = Vec::new();
            let mut i: usize = 0;
            proof {
                assert(json_model_members(out@) =~= embedded_members(fields@.subrange(0, 0), data@));
            }
            while i < fields.len()
                invariant
                    fields@ == et.fields@,
                    i <= fields@.len(),
                    json_model_members(out@) == embedded_members(fields@.subrange(0, i as int), data@),
                decreases fields@.len() - i,
            {
                let ghost prefix = fields@.subrange(0, i + 1);
                proof {
                    assert(prefix.drop_last() =~= fields@.subrange(0, i as int));
                    assert(prefix.last() == fields@[i as int]);
                }
                if fields[i].1.x_embed {
                    match data.get(fields[i].0.as_str()) {
                        Some(v) => {
                            let name = fields[i].0.clone();
                            let value = v.copy();
                            proof {
                                assert(out@.push((name, value)).drop_last() =~= out@);
                            }
                            out.push((name, value));
                        },
                        None => {},
                    }
                }
                i = i + 1;
            }
            proof {
                assert(fields@.subrange(0, fields@.len() as int) =~= fields@);
            }
            JsonValue::Object(out)
        },
    }
}

/// How many neighbors a recall asks for: one more than the clamped limit, so that a full
/// answer shows whether more exist.
pub fn neighbor_fetch_limit(limit: i64) -> (r: i64)
    ensures
        r == clamped_limit(limit) + 1,
        1 <= limit <= 200 ==> r == limit + 1,
{
    clamp_limit(limit) + 1
}

/// Cuts the neighbors read for a recall down to the clamped limit, and says whether any
/// were cut.
pub fn truncate_neighbors<T>(neighbors: Vec<T>, limit: i64) -> (r: (Vec<T>, bool))
    ensures
        r.1 == (neighbors@.len() > clamped_limit(limit)),
        r.0@ == if r.1 {
            neighbors@.subrange(0, clamped_limit(limit) as int)
        } else {
            neighbors@
        },
{
    let limit = clamp_limit(limit);
    let keep = limit as usize;
    let truncated = neighbors.len() > keep;
    let mut kept = neighbors;
    kept.truncate(keep);
    (kept, truncated)
}

} // verus!
