//! API-key scopes and the decisions of authentication and authorization: the scope
//! hierarchy, the database encoding of a scope, resolving an authenticated key row into an
//! [`AuthContext`], and enforcing a required scope.
use vstd::prelude::*;
use rand::RngCore;
use sha2::Digest;

use crate::error::YorishiroError;
use crate::name_map::str_eq;
use crate::text::{hex_encode, hex_lower, string_of};

verus! {

/// Permission level held by an API key. A higher scope subsumes lower ones:
/// `Read < Write < Schema`.
#[derive(Debug, Clone, Copy, PartialEq, Eq, Structural, PartialOrd, Ord, Hash)]
pub enum ApiKeyScope {
    Read,
    Write,
    Schema,
}

/// Position of a scope in the hierarchy.
pub open spec fn scope_rank(s: ApiKeyScope) -> int {
    match s {
        ApiKeyScope::Read => 0,
        ApiKeyScope::Write => 1,
        ApiKeyScope::Schema => 2,
    }
}

/// The value stored for a scope in the database `scope` column.
pub open spec fn scope_db_text(s: ApiKeyScope) -> Seq<char> {
    match s {
        ApiKeyScope::Read => "read"@,
        ApiKeyScope::Write => "write"@,
        ApiKeyScope::Schema => "schema"@,
    }
}

/// The scope a database `scope` value decodes to, if any.
pub open spec fn scope_from_db_text(t: Seq<char>) -> Option<ApiKeyScope> {
    if t == "read"@ {
        Some(ApiKeyScope::Read)
    } else if t == "write"@ {
        Some(ApiKeyScope::Write)
    } else if t == "schema"@ {
        Some(ApiKeyScope::Schema)
    } else {
        None
    }
}

/// The name `{:?}` prints for a scope.
pub open spec fn scope_debug_name(s: ApiKeyScope) -> Seq<char> {
    match s {
        ApiKeyScope::Read => "Read"@,
        ApiKeyScope::Write => "Write"@,
        ApiKeyScope::Schema => "Schema"@,
    }
}

impl ApiKeyScope {
    /// The value stored for this scope in the database.
    pub fn as_db_str(self) -> (r: &'static str)
        ensures
            r@ == scope_db_text(self),
    {
        match self {
            ApiKeyScope::Read => "read",
            ApiKeyScope::Write => "write",
            ApiKeyScope::Schema => "schema",
        }
    }

    /// Decodes a database `scope` value; `None` for anything but `read`/`write`/`schema`.
    pub fn from_db_str(s: &str) -> (r: Option<ApiKeyScope>)
        ensures
            r == scope_from_db_text(s@),
    {
        if str_eq(s, "read") {
            Some(ApiKeyScope::Read)
        } else if str_eq(s, "write") {
            Some(ApiKeyScope::Write)
        } else if str_eq(s, "schema") {
            Some(ApiKeyScope::Schema)
        } else {
            None
        }
    }

    /// Whether a key with this scope may perform an operation requiring `required`.
    /// A higher scope subsumes lower ones (a `write` key is also allowed to `read`).
    pub fn satisfies(self, required: ApiKeyScope) -> (r: bool)
        ensures
            r == (scope_rank(self) >= scope_rank(required)),
    {
        self.rank() >= required.rank()
    }

    fn rank(self) -> (r: u8)
        ensures
            r as int == scope_rank(self),
    {
        match self {
            ApiKeyScope::Read => 0,
            ApiKeyScope::Write => 1,
            ApiKeyScope::Schema => 2,
        }
    }

    /// The name `{:?}` prints for this scope.
    pub fn debug_name(self) -> (r: &'static str)
        ensures
            r@ == scope_debug_name(self),
    {
        match self {
            ApiKeyScope::Read => "Read",
            ApiKeyScope::Write => "Write",
            ApiKeyScope::Schema => "Schema",
        }
    }
}

/// Decoding what was encoded gives the scope back, and a stored value decodes to a scope
/// exactly when it is that scope's encoding.
pub proof fn lemma_scope_db_roundtrip(s: ApiKeyScope, t: Seq<char>)
    ensures
        scope_from_db_text(scope_db_text(s)) == Some(s),
        scope_from_db_text(t) == Some(s) <==> t == scope_db_text(s),
{
    reveal_strlit("read");
    reveal_strlit("write");
    reveal_strlit("schema");
    assert("read"@.len() == 4);
    assert("write"@.len() == 5);
    assert("schema"@.len() == 6);
}

/// The scope hierarchy is a total order: every scope satisfies itself, satisfaction is
/// transitive, any two scopes are comparable, and two scopes that satisfy each other are
/// the same scope.
pub proof fn lemma_scope_order(a: ApiKeyScope, b: ApiKeyScope, c: ApiKeyScope)
    ensures
        scope_rank(a) >= scope_rank(a),
        scope_rank(a) >= scope_rank(b) && scope_rank(b) >= scope_rank(c) ==> scope_rank(a)
            >= scope_rank(c),
        scope_rank(a) >= scope_rank(b) || scope_rank(b) >= scope_rank(a),
        scope_rank(a) >= scope_rank(b) && scope_rank(b) >= scope_rank(a) ==> a == b,
        scope_rank(ApiKeyScope::Read) < scope_rank(ApiKeyScope::Write) < scope_rank(
            ApiKeyScope::Schema,
        ),
{
}

/// Workspace, tenant and scope resolved by API-key authentication. Identifiers are the
/// 128-bit values of the database UUIDs.
#[derive(Debug, Clone, PartialEq, Eq)]
pub struct AuthContext {
    pub api_key_id: u128,
    pub workspace_id: u128,
    pub tenant_id: u128,
    pub scope: ApiKeyScope,
    /// The human user this key was issued for, if any.
    pub user_id: Option<u128>,
}

/// The row the key-verification query returns for a matching key.
#[derive(Debug, Clone, PartialEq, Eq)]
pub struct AuthKeyRow {
    pub api_key_id: u128,
    pub workspace_id: u128,
    pub tenant_id: u128,
    pub scope: String,
    pub user_id: Option<u128>,
}

pub open spec fn scope_insufficient_message(required: ApiKeyScope, held: ApiKeyScope) -> Seq<
    char,
> {
    "this operation requires "@ + scope_debug_name(required) + " scope but the API key has "@
        + scope_debug_name(held) + " scope"@
}

pub open spec fn unknown_scope_message(stored: Seq<char>) -> Seq<char> {
    "unknown api key scope in database: "@ + stored
}

/// Enforces that an authenticated context satisfies the required scope.
pub fn require_scope(ctx: &AuthContext, required: ApiKeyScope) -> (r: Result<(), YorishiroError>)
    ensures
        r is Ok <==> scope_rank(ctx.scope) >= scope_rank(required),
        r is Err ==> (r matches Err(YorishiroError::ScopeInsufficient { message, hint })
            && message@ == scope_insufficient_message(required, ctx.scope) && hint@
            == "Reissue an API key with sufficient scope"@),
{
    if ctx.scope.satisfies(required) {
        Ok(())
    } else {
        let mut message = string_of("this operation requires ");
        message.append(required.debug_name());
        message.append(" scope but the API key has ");
        message.append(ctx.scope.debug_name());
        message.append(" scope");
        Err(
            YorishiroError::ScopeInsufficient {
                message,
                hint: string_of("Reissue an API key with sufficient scope"),
            },
        )
    }
}

/// Turns the result of the key-verification query into an authentication outcome: no row
/// means the key is unknown; a row whose stored scope is not a known scope is an internal
/// error.
pub fn resolve_authenticated_key(row: Option<AuthKeyRow>) -> (r: Result<
    AuthContext,
    YorishiroError,
>)
    ensures
        row is None ==> r == Err::<AuthContext, YorishiroError>(YorishiroError::Unauthenticated),
        row matches Some(k) ==> match scope_from_db_text(k.scope@) {
            Some(scope) => r == Ok::<AuthContext, YorishiroError>(
                AuthContext {
                    api_key_id: k.api_key_id,
                    workspace_id: k.workspace_id,
                    tenant_id: k.tenant_id,
                    scope,
                    user_id: k.user_id,
                },
            ),
            None => r matches Err(YorishiroError::Internal(m)) && m@ == unknown_scope_message(
                k.scope@,
            ),
        },
{
    match row {
        None => Err(YorishiroError::Unauthenticated),
        Some(k) => match ApiKeyScope::from_db_str(k.scope.as_str()) {
            Some(scope) => Ok(
                AuthContext {
                    api_key_id: k.api_key_id,
                    workspace_id: k.workspace_id,
                    tenant_id: k.tenant_id,
                    scope,
                    user_id: k.user_id,
                },
            ),
            None => {
                let mut m = string_of("unknown api key scope in database: ");
                m.append(k.scope.as_str());
                Err(YorishiroError::Internal(m))
            },
        },
    }
}

/// The authorization decision for a presented key, given the row its verification
/// returned: unknown keys are `Unauthenticated`, a stored scope that is not a known scope
/// is an internal error, and a key whose scope is below `required` is refused with
/// `ScopeInsufficient`. A context is handed out only when its scope satisfies `required`.
pub fn authorize_key_row(row: Option<AuthKeyRow>, required: ApiKeyScope) -> (r: Result<
    AuthContext,
    YorishiroError,
>)
    ensures
        row is None ==> r == Err::<AuthContext, YorishiroError>(YorishiroError::Unauthenticated),
        row matches Some(k) ==> match scope_from_db_text(k.scope@) {
            None => r matches Err(YorishiroError::Internal(m)) && m@ == unknown_scope_message(
                k.scope@,
            ),
            Some(scope) => if scope_rank(scope) >= scope_rank(required) {
                r == Ok::<AuthContext, YorishiroError>(
                    AuthContext {
                        api_key_id: k.api_key_id,
                        workspace_id: k.workspace_id,
                        tenant_id: k.tenant_id,
                        scope,
                        user_id: k.user_id,
                    },
                )
            } else {
                r matches Err(YorishiroError::ScopeInsufficient { message, hint }) && message@
                    == scope_insufficient_message(required, scope) && hint@
                    == "Reissue an API key with sufficient scope"@
            },
        },
        r matches Ok(ctx) ==> scope_rank(ctx.scope) >= scope_rank(required),
{
    let ctx = resolve_authenticated_key(row)?;
    require_scope(&ctx, required)?;
    Ok(ctx)
}

/// The SHA-256 digest of the UTF-8 encoding of `text`.
pub uninterp spec fn sha256_of(text: Seq<char>) -> Seq<u8>;

/// `sha2::Sha256::digest` of the UTF-8 bytes of `raw`; a SHA-256 digest is 32 bytes.
#[verifier::external_body]
pub(crate) fn sha256_digest(raw: &str) -> (r: Vec<u8>)
    ensures
        r@ == sha256_of(raw@),
        r@.len() == 32,
{
    sha2::Sha256::digest(raw.as_bytes()).to_vec()
}

/// `len` bytes from the thread-local generator (`rand::rng().fill_bytes`). Only the length
/// is stated: the bytes are random.
#[verifier::external_body]
pub(crate) fn random_bytes(len: usize) -> (r: Vec<u8>)
    ensures
        r@.len() == len,
{
    let mut bytes = vec![0u8; len];
    rand::rng().fill_bytes(&mut bytes);
    bytes
}

/// `byte_len` random bytes as lowercase hex, two digits per byte.
pub fn random_hex(byte_len: usize) -> (r: String)
    ensures
        exists|b: Seq<u8>| b.len() == byte_len && r@ == hex_lower(b),
{
    let bytes = random_bytes(byte_len);
    hex_encode(bytes.as_slice())
}

/// The stored form of an API key: the SHA-256 digest of the presented key text.
pub fn hash_key(raw: &str) -> (r: Vec<u8>)
    ensures
        r@ == sha256_of(raw@),
        r@.len() == 32,
{
    sha256_digest(raw)
}

/// Random bytes in the public prefix of a key.
pub const KEY_PREFIX_BYTES: usize = 6;

/// Random bytes in the secret part of a key (192 bits).
pub const KEY_SECRET_BYTES: usize = 24;

/// The text of an API key made from the given random bytes: `ysr_<prefix>_<secret>`, both
/// parts in lowercase hex.
pub open spec fn api_key_text(prefix_bytes: Seq<u8>, secret_bytes: Seq<u8>) -> Seq<char> {
    "ysr_"@ + hex_lower(prefix_bytes) + "_"@ + hex_lower(secret_bytes)
}

/// What issuing a key produces before it is stored: the public prefix, the full key text
/// (shown to the caller once, never stored) and its digest (stored).
#[derive(Debug, Clone, PartialEq, Eq)]
pub struct ApiKeyMaterial {
    pub prefix: String,
    pub plaintext: String,
    pub key_hash: Vec<u8>,
}

/// Composes a key from chosen bytes.
pub fn compose_api_key(prefix_bytes: &[u8], secret_bytes: &[u8]) -> (r: ApiKeyMaterial)
    ensures
        r.prefix@ == "ysr_"@ + hex_lower(prefix_bytes@),
        r.plaintext@ == api_key_text(prefix_bytes@, secret_bytes@),
        r.key_hash@ == sha256_of(r.plaintext@),
{
    let mut prefix = string_of("ysr_");
    prefix.append(hex_encode(prefix_bytes).as_str());
    let mut plaintext = prefix.clone();
    plaintext.append("_");
    plaintext.append(hex_encode(secret_bytes).as_str());
    let key_hash = hash_key(plaintext.as_str());
    ApiKeyMaterial { prefix, plaintext, key_hash }
}

/// Draws a new key of the form `ysr_<prefix>_<secret>`, with a 6-byte prefix and a
/// 24-byte secret, both random; only the secret part is the actual credential.
pub fn generate_api_key() -> (r: ApiKeyMaterial)
    ensures
        exists|p: Seq<u8>, s: Seq<u8>|
            p.len() == KEY_PREFIX_BYTES && s.len() == KEY_SECRET_BYTES && r.prefix@ == "ysr_"@
                + hex_lower(p) && r.plaintext@ == api_key_text(p, s),
        r.key_hash@ == sha256_of(r.plaintext@),
{
    let p = random_bytes(KEY_PREFIX_BYTES);
    let s = random_bytes(KEY_SECRET_BYTES);
    compose_api_key(p.as_slice(), s.as_slice())
}

/// Two hex digits per byte.
pub proof fn lemma_hex_lower_len(b: Seq<u8>)
    ensures
        hex_lower(b).len() == 2 * b.len(),
    decreases b.len(),
{
    if b.len() > 0 {
        lemma_hex_lower_len(b.drop_last());
    }
}

/// Every issued key has the same shape: it starts with its `ysr_` prefix followed by `_`,
/// and is 65 characters long (4 + 12 + 1 + 48).
pub proof fn lemma_api_key_shape(p: Seq<u8>, s: Seq<u8>)
    requires
        p.len() == KEY_PREFIX_BYTES,
        s.len() == KEY_SECRET_BYTES,
    ensures
        api_key_text(p, s).len() == 65,
        api_key_text(p, s).subrange(0, 17) == "ysr_"@ + hex_lower(p) + "_"@,
{
    reveal_strlit("ysr_");
    reveal_strlit("_");
    lemma_hex_lower_len(p);
    lemma_hex_lower_len(s);
    assert(api_key_text(p, s).subrange(0, 17) =~= "ysr_"@ + hex_lower(p) + "_"@);
}

/// A newly issued key as returned to the caller: the key text is only ever available here.
#[derive(Debug, Clone, PartialEq, Eq)]
pub struct CreatedApiKey {
    pub id: u128,
    pub workspace_id: u128,
    pub scope: ApiKeyScope,
    pub user_id: Option<u128>,
    pub plaintext: String,
}

} // verus!
