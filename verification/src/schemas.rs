//! Schema registration rules: which version a newly registered definition gets and what
//! is reported about the change, the key that serialises concurrent registrations, and
//! the errors of schema lookups.
use vstd::prelude::*;

use crate::error::{InsertFailure, YorishiroError};
use crate::metaschema::versioning::{compatible, diff_reasons, strings_view};
use crate::metaschema::{diff, MetaSchemaDefinition, VersioningDiff};
use crate::text::{int_decimal, push_char, push_i64_decimal, string_of, uuid_text, uuid_to_text};

verus! {

/// The version and change report a definition is registered with. The first definition
/// of a name becomes version 1 with nothing to report; a later one becomes the version
/// after the active one, with the diff from the active definition to the new one.
pub fn plan_schema_version(previous: Option<(i32, &MetaSchemaDefinition)>, definition: &MetaSchemaDefinition) -> (r: (
    i32,
    VersioningDiff,
))
    requires
        previous matches Some(p) ==> p.0 < i32::MAX,
    ensures
        match previous {
            None => r.0 == 1 && !r.1.is_breaking && r.1.reasons@.len() == 0,
            Some(p) => {
                &&& r.0 == p.0 + 1
                &&& strings_view(r.1.reasons@) == diff_reasons(*p.1, *definition)
                &&& r.1.is_breaking == !compatible(*p.1, *definition)
            },
        },
{
    match previous {
        None => (1, VersioningDiff { is_breaking: false, reasons: Vec::new() }),
        Some((version, old)) => (version + 1, diff(old, definition)),
    }
}

/// The key under which registrations of `name` in a workspace take their advisory lock:
/// the workspace id, a colon, and the name.
pub fn schema_lock_key(workspace_id: u128, name: &str) -> (r: String)
    ensures
        r@ == uuid_text(workspace_id) + seq![':'] + name@,
{
    let mut r = uuid_to_text(workspace_id);
    push_char(&mut r, ':');
    r.append(name);
    r
}

pub open spec fn version_conflict_message(name: Seq<char>, version: i32) -> Seq<char> {
    "schema '"@ + name + "' version "@ + int_decimal(version as int)
        + " already exists (concurrent create?)"@
}

/// The error reported when storing a new schema version fails: the version being taken by
/// a concurrent registration is a `Conflict`; anything else is `Internal`.
pub fn schema_insert_error(failure: InsertFailure, name: &str, version: i32) -> (r: YorishiroError)
    ensures
        match failure {
            InsertFailure::UniqueViolation(_) => r matches YorishiroError::Conflict { message }
                && message@ == version_conflict_message(name@, version),
            InsertFailure::ForeignKeyViolation(d) => r matches YorishiroError::Internal(m) && m@
                == d@,
            InsertFailure::Other(d) => r matches YorishiroError::Internal(m) && m@ == d@,
        },
{
    match failure {
        InsertFailure::UniqueViolation(_) => {
            let mut m = string_of("schema '");
            m.append(name);
            m.append("' version ");
            push_i64_decimal(&mut m, version as i64);
            m.append(" already exists (concurrent create?)");
            YorishiroError::Conflict { message: m }
        },
        InsertFailure::ForeignKeyViolation(d) => YorishiroError::Internal(d),
        InsertFailure::Other(d) => YorishiroError::Internal(d),
    }
}

pub open spec fn no_active_schema_message(name: Seq<char>) -> Seq<char> {
    "no active schema named '"@ + name + "'"@
}

/// The error when a workspace has no active schema of the given name.
pub fn no_active_schema(name: &str) -> (r: YorishiroError)
    ensures
        r matches YorishiroError::NotFound { message } && message@ == no_active_schema_message(name@),
{
    let mut m = string_of("no active schema named '");
    m.append(name);
    m.append("'");
    YorishiroError::NotFound { message: m }
}

pub open spec fn schema_not_found_message(schema_id: u128) -> Seq<char> {
    "schema '"@ + uuid_text(schema_id) + "' was not found"@
}

/// The error when a schema version is not in the workspace.
pub fn schema_not_found(schema_id: u128) -> (r: YorishiroError)
    ensures
        r matches YorishiroError::NotFound { message } && message@ == schema_not_found_message(
            schema_id,
        ),
{
    let mut m = string_of("schema '");
    m.append(uuid_to_text(schema_id).as_str());
    m.append("' was not found");
    YorishiroError::NotFound { message: m }
}

} // verus!
