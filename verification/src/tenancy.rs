//! Tenancy rules: membership roles and the API-key scope each may be issued, the
//! deployment-wide tenant cap and its configuration value, per-tenant workspace caps,
//! decoding stored roles, invite tokens, and password checks at login.
use vstd::prelude::*;
use argon2::{PasswordHasher, PasswordVerifier};

use crate::auth::{ApiKeyScope, scope_rank};
use crate::error::{InsertFailure, YorishiroError};
use crate::name_map::str_eq;
use crate::text::{
    hex_encode, hex_lower, int_decimal, push_i64_decimal, string_of, uuid_text, uuid_to_text,
};

verus! {

/// A user's role within a tenant.
#[derive(Debug, Clone, Copy, PartialEq, Eq, Structural, Hash)]
pub enum MembershipRole {
    Owner,
    Admin,
    Member,
    Viewer,
}

/// Privilege of a role: owner > admin > member > viewer.
pub open spec fn role_rank(r: MembershipRole) -> int {
    match r {
        MembershipRole::Owner => 3,
        MembershipRole::Admin => 2,
        MembershipRole::Member => 1,
        MembershipRole::Viewer => 0,
    }
}

pub open spec fn role_db_text(r: MembershipRole) -> Seq<char> {
    match r {
        MembershipRole::Owner => "owner"@,
        MembershipRole::Admin => "admin"@,
        MembershipRole::Member => "member"@,
        MembershipRole::Viewer => "viewer"@,
    }
}

pub open spec fn role_from_db_text(t: Seq<char>) -> Option<MembershipRole> {
    if t == "owner"@ {
        Some(MembershipRole::Owner)
    } else if t == "admin"@ {
        Some(MembershipRole::Admin)
    } else if t == "member"@ {
        Some(MembershipRole::Member)
    } else if t == "viewer"@ {
        Some(MembershipRole::Viewer)
    } else {
        None
    }
}

/// The highest scope a key issued to a member with this role may carry.
pub open spec fn role_max_scope(r: MembershipRole) -> ApiKeyScope {
    match r {
        MembershipRole::Owner | MembershipRole::Admin => ApiKeyScope::Schema,
        MembershipRole::Member => ApiKeyScope::Write,
        MembershipRole::Viewer => ApiKeyScope::Read,
    }
}

impl MembershipRole {
    /// The value stored for this role in the database.
    pub fn as_db_str(self) -> (r: &'static str)
        ensures
            r@ == role_db_text(self),
    {
        match self {
            MembershipRole::Owner => "owner",
            MembershipRole::Admin => "admin",
            MembershipRole::Member => "member",
            MembershipRole::Viewer => "viewer",
        }
    }

    /// Decodes a stored role; `None` for anything but `owner`/`admin`/`member`/`viewer`.
    pub fn from_db_str(s: &str) -> (r: Option<MembershipRole>)
        ensures
            r == role_from_db_text(s@),
    {
        if str_eq(s, "owner") {
            Some(MembershipRole::Owner)
        } else if str_eq(s, "admin") {
            Some(MembershipRole::Admin)
        } else if str_eq(s, "member") {
            Some(MembershipRole::Member)
        } else if str_eq(s, "viewer") {
            Some(MembershipRole::Viewer)
        } else {
            None
        }
    }

    /// The highest API-key scope a member with this role may be issued.
    pub fn max_scope(self) -> (r: ApiKeyScope)
        ensures
            r == role_max_scope(self),
    {
        match self {
            MembershipRole::Owner | MembershipRole::Admin => ApiKeyScope::Schema,
            MembershipRole::Member => ApiKeyScope::Write,
            MembershipRole::Viewer => ApiKeyScope::Read,
        }
    }
}

/// Roles decode from exactly their own encodings.
pub proof fn lemma_role_db_roundtrip(r: MembershipRole, t: Seq<char>)
    ensures
        role_from_db_text(role_db_text(r)) == Some(r),
        role_from_db_text(t) == Some(r) <==> t == role_db_text(r),
{
    reveal_strlit("owner");
    reveal_strlit("admin");
    reveal_strlit("member");
    reveal_strlit("viewer");
    assert("owner"@ != "admin"@) by {
        assert("owner"@[0] != "admin"@[0]);
    }
    assert("member"@.len() == 6 && "owner"@.len() == 5 && "viewer"@.len() == 6);
    assert("member"@ != "viewer"@) by {
        assert("member"@[0] != "viewer"@[0]);
    }
}

/// A more privileged role may be issued keys of at least the scope a less privileged one
/// may: the scope ceiling follows the role order.
pub proof fn lemma_max_scope_monotone(a: MembershipRole, b: MembershipRole)
    ensures
        role_rank(a) >= role_rank(b) ==> scope_rank(role_max_scope(a)) >= scope_rank(role_max_scope(b)),
{
}

pub open spec fn unknown_role_message(stored: Seq<char>) -> Seq<char> {
    "unknown membership role in database: "@ + stored
}

/// Decodes a stored role; an unknown value is an internal error.
pub fn role_from_db(role: &str) -> (r: Result<MembershipRole, YorishiroError>)
    ensures
        match role_from_db_text(role@) {
            Some(x) => r == Ok::<MembershipRole, YorishiroError>(x),
            None => r matches Err(YorishiroError::Internal(m)) && m@ == unknown_role_message(role@),
        },
{
    match MembershipRole::from_db_str(role) {
        Some(x) => Ok(x),
        None => {
            let mut m = string_of("unknown membership role in database: ");
            m.append(role);
            Err(YorishiroError::Internal(m))
        },
    }
}

/// A user's role in a tenant from the stored membership, if there is one.
pub fn membership_role_from_row(row: Option<&str>) -> (r: Result<Option<MembershipRole>, YorishiroError>)
    ensures
        row is None ==> r == Ok::<Option<MembershipRole>, YorishiroError>(None),
        row matches Some(s) ==> match role_from_db_text(s@) {
            Some(x) => r == Ok::<Option<MembershipRole>, YorishiroError>(Some(x)),
            None => r matches Err(YorishiroError::Internal(m)) && m@ == unknown_role_message(s@),
        },
{
    match row {
        None => Ok(None),
        Some(s) => match role_from_db(s) {
            Ok(x) => Ok(Some(x)),
            Err(e) => Err(e),
        },
    }
}

/// A stored membership joined with its user.
#[derive(Debug, Clone, PartialEq, Eq)]
pub struct MembershipRow {
    pub user_id: u128,
    pub email: String,
    pub display_name: Option<String>,
    pub role: String,
}

/// A tenant member with their role.
#[derive(Debug, Clone, PartialEq, Eq)]
pub struct MembershipRecord {
    pub user_id: u128,
    pub email: String,
    pub display_name: Option<String>,
    pub role: MembershipRole,
}

/// The record for a membership row whose role decodes to `role`.
pub open spec fn membership_record_of(row: MembershipRow, role: MembershipRole, rec: MembershipRecord) -> bool {
    rec.user_id == row.user_id && rec.email@ == row.email@ && rec.display_name == row.display_name
        && rec.role == role
}

/// Decodes membership rows in order; the first row with an unknown role makes the whole
/// listing an internal error.
pub fn membership_records(rows: Vec<MembershipRow>) -> (r: Result<Vec<MembershipRecord>, YorishiroError>)
    ensures
        (forall|i: int| 0 <= i < rows@.len() ==> (#[trigger] role_from_db_text(rows@[i].role@)) is Some)
            <==> r is Ok,
        r matches Ok(recs) ==> recs@.len() == rows@.len() && forall|i: int|
            0 <= i < rows@.len() ==> membership_record_of(
                rows@[i],
                role_from_db_text(rows@[i].role@)->0,
                #[trigger] recs@[i],
            ),
        r matches Err(e) ==> exists|k: int|
            0 <= k < rows@.len() && role_from_db_text(rows@[k].role@) is None && (forall|j: int|
                0 <= j < k ==> (#[trigger] role_from_db_text(rows@[j].role@)) is Some) && (e
                matches YorishiroError::Internal(m) && m@ == unknown_role_message(rows@[k].role@)),
{
    let mut recs: Vec<MembershipRecord> = Vec::new();
    let mut i: usize = 0;
    while i < rows.len()
        invariant
            i <= rows@.len(),
            recs@.len() == i,
            forall|j: int| 0 <= j < i ==> (#[trigger] role_from_db_text(rows@[j].role@)) is Some,
            forall|j: int|
                0 <= j < i ==> membership_record_of(
                    rows@[j],
                    role_from_db_text(rows@[j].role@)->0,
                    #[trigger] recs@[j],
                ),
        decreases rows@.len() - i,
    {
        let row = &rows[i];
        match role_from_db(row.role.as_str()) {
            Ok(role) => {
                recs.push(
                    MembershipRecord {
                        user_id: row.user_id,
                        email: row.email.clone(),
                        display_name: row.display_name.clone(),
                        role,
                    },
                );
            },
            Err(e) => {
                proof {
                    assert(role_from_db_text(rows@[i as int].role@) is None);
                }
                return Err(e);
            },
        }
        i = i + 1;
    }
    Ok(recs)
}

/// The value of a string of decimal digits.
pub open spec fn digits_value(s: Seq<char>) -> int
    decreases s.len(),
{
    if s.len() == 0 {
        0
    } else {
        digits_value(s.drop_last()) * 10 + (s.last() as int - '0' as int)
    }
}

pub open spec fn all_digits(s: Seq<char>) -> bool {
    forall|i: int| 0 <= i < s.len() ==> '0' <= #[trigger] s[i] <= '9'
}

/// How a decimal 32-bit integer reads (as `str::parse::<i32>` does): an optional `+` or
/// `-`, then one or more ASCII digits, the value within `i32`'s range.
pub open spec fn parse_i32_text(s: Seq<char>) -> Option<int> {
    let neg = s.len() > 0 && s[0] == '-';
    let body = if s.len() > 0 && (s[0] == '-' || s[0] == '+') {
        s.drop_first()
    } else {
        s
    };
    if body.len() == 0 || !all_digits(body) {
        None
    } else {
        let v = if neg {
            -digits_value(body)
        } else {
            digits_value(body)
        };
        if i32::MIN <= v <= i32::MAX {
            Some(v)
        } else {
            None
        }
    }
}

proof fn lemma_digits_value_nonneg(s: Seq<char>)
    requires
        all_digits(s),
    ensures
        digits_value(s) >= 0,
    decreases s.len(),
{
    if s.len() > 0 {
        assert(all_digits(s.drop_last())) by {
            assert forall|i: int| 0 <= i < s.drop_last().len() implies '0' <= #[trigger] s.drop_last()[i] <= '9' by {
                assert(s.drop_last()[i] == s[i]);
            }
        }
        lemma_digits_value_nonneg(s.drop_last());
        assert('0' <= s[s.len() - 1] <= '9');
    }
}

/// Reads a decimal `i32` the way `str::parse::<i32>` does.
pub fn parse_i32(s: &str) -> (r: Option<i32>)
    ensures
        match parse_i32_text(s@) {
            Some(v) => r == Some(v as i32),
            None => r is None,
        },
{
    let n = s.unicode_len();
    let mut start: usize = 0;
    let mut neg = false;
    if n > 0 {
        let c = s.get_char(0);
        if c == '-' {
            neg = true;
            start = 1;
        } else if c == '+' {
            start = 1;
        }
    }
    let ghost body = if s@.len() > 0 && (s@[0] == '-' || s@[0] == '+') {
        s@.drop_first()
    } else {
        s@
    };
    proof {
        assert(body =~= s@.subrange(start as int, n as int));
    }
    if start >= n {
        return None;
    }
    let cap: i64 = 2147483649;
    let mut acc: i64 = 0;
    let mut i: usize = start;
    while i < n
        invariant
            n == s@.len(),
            start <= i <= n,
            cap == 2147483649,
            body == s@.subrange(start as int, n as int),
            body == (if s@.len() > 0 && (s@[0] == '-' || s@[0] == '+') {
                s@.drop_first()
            } else {
                s@
            }),
            all_digits(s@.subrange(start as int, i as int)),
            0 <= acc <= cap,
            acc == if digits_value(s@.subrange(start as int, i as int)) >= cap {
                cap as int
            } else {
                digits_value(s@.subrange(start as int, i as int))
            },
        decreases n - i,
    {
        let c = s.get_char(i);
        let code = c as u32;
        if code < 48 || code > 57 {
            proof {
                assert(body[i - start] == c);
                assert(!('0' <= c <= '9'));
                assert(!all_digits(body));
            }
            return None;
        }
        let d = (code - 48) as i64;
        let ghost prev = s@.subrange(start as int, i as int);
        let ghost next = s@.subrange(start as int, i + 1);
        proof {
            assert(next.drop_last() =~= prev);
            assert(next.last() == c);
            assert('0' <= c <= '9');
            assert(all_digits(next)) by {
                assert forall|j: int| 0 <= j < next.len() implies '0' <= #[trigger] next[j] <= '9' by {
                    if j < next.len() - 1 {
                        assert(next[j] == prev[j]);
                    }
                }
            }
            lemma_digits_value_nonneg(prev);
            assert(digits_value(next) == digits_value(prev) * 10 + d);
        }
        let v = acc * 10 + d;
        acc = if v >= cap {
            cap
        } else {
            v
        };
        i = i + 1;
    }
    proof {
        assert(s@.subrange(start as int, n as int) == body);
        assert(all_digits(body));
        lemma_digits_value_nonneg(body);
        assert(neg == (s@.len() > 0 && s@[0] == '-'));
    }
    if neg {
        if acc > 2147483648 {
            None
        } else {
            Some((-acc) as i32)
        }
    } else {
        if acc > 2147483647 {
            None
        } else {
            Some(acc as i32)
        }
    }
}

pub open spec fn max_tenants_message(raw: Seq<char>) -> Seq<char> {
    "YORISHIRO_MAX_TENANTS must be an integer, got '"@ + raw + "'"@
}

/// Interprets the deployment-wide tenant cap setting (`YORISHIRO_MAX_TENANTS`): unset, or
/// `0`, means unlimited; a value that is not an `i32` is a misconfiguration and an internal
/// error rather than unlimited.
pub fn parse_max_tenants(raw: Option<&str>) -> (r: Result<Option<i32>, YorishiroError>)
    ensures
        raw is None ==> r == Ok::<Option<i32>, YorishiroError>(None),
        raw matches Some(t) ==> match parse_i32_text(t@) {
            Some(v) => r == Ok::<Option<i32>, YorishiroError>(
                if v == 0 {
                    None
                } else {
                    Some(v as i32)
                },
            ),
            None => r matches Err(YorishiroError::Internal(m)) && m@ == max_tenants_message(t@),
        },
{
    match raw {
        None => Ok(None),
        Some(t) => match parse_i32(t) {
            Some(0) => Ok(None),
            Some(v) => Ok(Some(v)),
            None => {
                let mut m = string_of("YORISHIRO_MAX_TENANTS must be an integer, got '");
                m.append(t);
                m.append("'");
                Err(YorishiroError::Internal(m))
            },
        },
    }
}

pub open spec fn tenant_limit_message(max: i32) -> Seq<char> {
    "this deployment has reached its tenant limit ("@ + int_decimal(max as int)
        + ", set via YORISHIRO_MAX_TENANTS); raise or unset that variable to create another tenant"@
}

/// Enforces the deployment-wide tenant cap before a tenant is created: no cap always
/// allows; otherwise creation is allowed only while `current_count` is below the cap.
pub fn check_tenant_cap(max_tenants: Option<i32>, current_count: i64) -> (r: Result<(), YorishiroError>)
    ensures
        r is Ok <==> (max_tenants is None || current_count < max_tenants->0),
        r matches Err(e) ==> e matches YorishiroError::Conflict { message } && message@
            == tenant_limit_message(max_tenants->0),
{
    match max_tenants {
        None => Ok(()),
        Some(max) => {
            if current_count >= max as i64 {
                let mut m = string_of("this deployment has reached its tenant limit (");
                push_i64_decimal(&mut m, max as i64);
                m.append(", set via YORISHIRO_MAX_TENANTS); raise or unset that variable to create another tenant");
                Err(YorishiroError::Conflict { message: m })
            } else {
                Ok(())
            }
        },
    }
}

pub open spec fn workspace_limit_message(tenant_id: u128, max: i32) -> Seq<char> {
    "tenant '"@ + uuid_text(tenant_id) + "' has reached its workspace limit ("@ + int_decimal(
        max as int,
    ) + "); raise max_workspaces or delete an existing workspace"@
}

/// Enforces a tenant's workspace cap before a workspace is created: no cap always allows;
/// otherwise creation is allowed only while `current_count` is below the cap.
pub fn check_workspace_cap(tenant_id: u128, max_workspaces: Option<i32>, current_count: i64) -> (r: Result<(), YorishiroError>)
    ensures
        r is Ok <==> (max_workspaces is None || current_count < max_workspaces->0),
        r matches Err(e) ==> e matches YorishiroError::Conflict { message } && message@
            == workspace_limit_message(tenant_id, max_workspaces->0),
{
    match max_workspaces {
        None => Ok(()),
        Some(max) => {
            if current_count >= max as i64 {
                let mut m = string_of("tenant '");
                m.append(uuid_to_text(tenant_id).as_str());
                m.append("' has reached its workspace limit (");
                push_i64_decimal(&mut m, max as i64);
                m.append("); raise max_workspaces or delete an existing workspace");
                Err(YorishiroError::Conflict { message: m })
            } else {
                Ok(())
            }
        },
    }
}

/// A cap is reached for good: once a creation is refused at some count, it is refused at
/// every larger count, and a creation allowed at some count is allowed at every smaller one.
pub proof fn lemma_cap_monotone(max: Option<i32>, a: i64, b: i64)
    requires
        a <= b,
    ensures
        (max is None || b < max->0) ==> (max is None || a < max->0),
{
}

pub open spec fn tenant_not_found_message(tenant_id: u128) -> Seq<char> {
    "tenant '"@ + uuid_text(tenant_id) + "' was not found"@
}

/// The error for a tenant that does not exist.
pub fn tenant_not_found(tenant_id: u128) -> (r: YorishiroError)
    ensures
        r matches YorishiroError::NotFound { message } && message@ == tenant_not_found_message(
            tenant_id,
        ),
{
    let mut m = string_of("tenant '");
    m.append(uuid_to_text(tenant_id).as_str());
    m.append("' was not found");
    YorishiroError::NotFound { message: m }
}

pub open spec fn workspace_not_found_message(workspace_id: u128) -> Seq<char> {
    "workspace '"@ + uuid_text(workspace_id) + "' was not found"@
}

/// The error for a workspace that does not exist.
pub fn workspace_not_found(workspace_id: u128) -> (r: YorishiroError)
    ensures
        r matches YorishiroError::NotFound { message } && message@ == workspace_not_found_message(
            workspace_id,
        ),
{
    let mut m = string_of("workspace '");
    m.append(uuid_to_text(workspace_id).as_str());
    m.append("' was not found");
    YorishiroError::NotFound { message: m }
}

/// The outcome of deleting a workspace, given how many rows the delete removed: none means
/// it did not exist.
pub fn workspace_deletion_outcome(rows_affected: u64, workspace_id: u128) -> (r: Result<(), YorishiroError>)
    ensures
        r is Ok <==> rows_affected > 0,
        r matches Err(e) ==> e matches YorishiroError::NotFound { message } && message@
            == workspace_not_found_message(workspace_id),
{
    if rows_affected == 0 {
        Err(workspace_not_found(workspace_id))
    } else {
        Ok(())
    }
}

pub open spec fn duplicate_email_message(email: Seq<char>) -> Seq<char> {
    "a user with email '"@ + email + "' already exists"@
}

/// The error reported when storing a new user fails: an email already in use is a
/// `Conflict`; anything else is `Internal`.
pub fn user_insert_error(failure: InsertFailure, email: &str) -> (r: YorishiroError)
    ensures
        match failure {
            InsertFailure::UniqueViolation(_) => r matches YorishiroError::Conflict { message }
                && message@ == duplicate_email_message(email@),
            InsertFailure::ForeignKeyViolation(d) => r matches YorishiroError::Internal(m) && m@
                == d@,
            InsertFailure::Other(d) => r matches YorishiroError::Internal(m) && m@ == d@,
        },
{
    match failure {
        InsertFailure::UniqueViolation(_) => {
            let mut m = string_of("a user with email '");
            m.append(email);
            m.append("' already exists");
            YorishiroError::Conflict { message: m }
        },
        InsertFailure::ForeignKeyViolation(d) => YorishiroError::Internal(d),
        InsertFailure::Other(d) => YorishiroError::Internal(d),
    }
}

/// Number of random bytes in an invite token.
pub const INVITE_TOKEN_BYTES: usize = 24;

/// A fresh invite token: 24 random bytes as 48 lowercase hex digits.
pub fn random_invite_token() -> (r: String)
    ensures
        exists|b: Seq<u8>| b.len() == INVITE_TOKEN_BYTES && r@ == hex_lower(b),
{
    let bytes = crate::auth::random_bytes(INVITE_TOKEN_BYTES);
    hex_encode(bytes.as_slice())
}

/// The stored form of an invite token: its SHA-256 digest.
pub fn hash_invite_token(raw: &str) -> (r: Vec<u8>)
    ensures
        r@ == crate::auth::sha256_of(raw@),
        r@.len() == 32,
{
    crate::auth::sha256_digest(raw)
}

/// Whether `password` matches the argon2 `hash`, as `argon2::PasswordVerifier` decides.
pub uninterp spec fn argon2_accepts(password: Seq<char>, hash: Seq<char>) -> bool;

/// Checks `password` against a stored argon2 PHC string: parses it with
/// `password_hash::PasswordHash::new` and verifies with `Argon2::default()`; an unparsable
/// hash never matches.
#[verifier::external_body]
fn verify_password(password: &str, hash: &str) -> (r: bool)
    ensures
        r == argon2_accepts(password@, hash@),
{
    let Ok(parsed) = argon2::PasswordHash::new(hash) else { return false };
    argon2::Argon2::default().verify_password(password.as_bytes(), &parsed).is_ok()
}

/// Hashes a password with argon2 (`Argon2::default()`) under a fresh random salt
/// (`SaltString::generate` with the operating system's generator). The result is a PHC
/// string that verifies against the same password; which salt was drawn is not stated.
#[verifier::external_body]
fn hash_password(password: &str) -> (r: Result<String, YorishiroError>)
    ensures
        r matches Ok(h) ==> argon2_accepts(password@, h@),
        r matches Err(e) ==> e is Internal,
{
    let salt = argon2::password_hash::SaltString::generate(&mut argon2::password_hash::rand_core::OsRng);
    argon2::Argon2::default().hash_password(password.as_bytes(), &salt).map(|h| h.to_string())
        .map_err(|err| YorishiroError::Internal(format!("failed to hash password: {err}")))
}

/// The credential stored for a new user: an argon2 hash of `password` that verifies
/// against it.
pub fn hash_user_password(password: &str) -> (r: Result<String, YorishiroError>)
    ensures
        r matches Ok(h) ==> argon2_accepts(password@, h@),
        r matches Err(e) ==> e is Internal,
{
    hash_password(password)
}

/// The login decision: a login succeeds only for a known user whose stored hash accepts the
/// password.
pub fn login_accepted(stored_hash: Option<&str>, password: &str) -> (r: bool)
    ensures
        r == (stored_hash matches Some(h) && argon2_accepts(password@, h@)),
{
    match stored_hash {
        None => false,
        Some(h) => verify_password(password, h),
    }
}

} // verus!
