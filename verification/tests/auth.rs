use yorishiro_core::auth::{
    authorize_key_row, compose_api_key, generate_api_key, hash_key, random_hex,
    require_scope, resolve_authenticated_key, ApiKeyScope, AuthContext, AuthKeyRow,
    KEY_PREFIX_BYTES, KEY_SECRET_BYTES,
};
use yorishiro_core::error::YorishiroError;

fn context(scope: ApiKeyScope) -> AuthContext {
    AuthContext { api_key_id: 1, workspace_id: 2, tenant_id: 3, scope, user_id: None }
}

fn row(scope: &str) -> AuthKeyRow {
    AuthKeyRow {
        api_key_id: 10,
        workspace_id: 20,
        tenant_id: 30,
        scope: scope.to_string(),
        user_id: Some(40),
    }
}

#[test]
fn auth_scope_hierarchy_allows_higher_scopes_to_satisfy_lower_requirements() {
    assert!(ApiKeyScope::Write.satisfies(ApiKeyScope::Read));
    assert!(ApiKeyScope::Schema.satisfies(ApiKeyScope::Write));
    assert!(!ApiKeyScope::Read.satisfies(ApiKeyScope::Write));
    assert!(!ApiKeyScope::Write.satisfies(ApiKeyScope::Schema));
}

#[test]
fn tests_scope_hierarchy_allows_higher_scopes_to_satisfy_lower_requirements() {
    assert!(ApiKeyScope::Write.satisfies(ApiKeyScope::Read));
    assert!(ApiKeyScope::Schema.satisfies(ApiKeyScope::Write));
    assert!(!ApiKeyScope::Read.satisfies(ApiKeyScope::Write));
    assert!(!ApiKeyScope::Write.satisfies(ApiKeyScope::Schema));
}

#[test]
fn every_scope_satisfies_itself_and_read() {
    for scope in [ApiKeyScope::Read, ApiKeyScope::Write, ApiKeyScope::Schema] {
        assert!(scope.satisfies(scope));
        assert!(scope.satisfies(ApiKeyScope::Read));
    }
    assert!(ApiKeyScope::Schema.satisfies(ApiKeyScope::Read));
    assert!(!ApiKeyScope::Read.satisfies(ApiKeyScope::Schema));
}

#[test]
fn scope_db_text_round_trips() {
    for scope in [ApiKeyScope::Read, ApiKeyScope::Write, ApiKeyScope::Schema] {
        assert_eq!(ApiKeyScope::from_db_str(scope.as_db_str()), Some(scope));
    }
    assert_eq!(ApiKeyScope::Read.as_db_str(), "read");
    assert_eq!(ApiKeyScope::Write.as_db_str(), "write");
    assert_eq!(ApiKeyScope::Schema.as_db_str(), "schema");
    assert_eq!(ApiKeyScope::from_db_str("admin"), None);
    assert_eq!(ApiKeyScope::from_db_str("Read"), None);
}

#[test]
fn require_scope_rejects_insufficient_scope_with_a_hint() {
    assert!(require_scope(&context(ApiKeyScope::Write), ApiKeyScope::Read).is_ok());
    let err = require_scope(&context(ApiKeyScope::Read), ApiKeyScope::Write).unwrap_err();
    match err {
        YorishiroError::ScopeInsufficient { message, hint } => {
            assert_eq!(
                message,
                "this operation requires Write scope but the API key has Read scope"
            );
            assert_eq!(hint, "Reissue an API key with sufficient scope");
        }
        other => panic!("expected ScopeInsufficient, got {other:?}"),
    }
}

#[test]
fn unknown_key_is_unauthenticated() {
    assert_eq!(resolve_authenticated_key(None), Err(YorishiroError::Unauthenticated));
    assert_eq!(
        authorize_key_row(None, ApiKeyScope::Read),
        Err(YorishiroError::Unauthenticated)
    );
}

#[test]
fn resolved_key_carries_the_row_identity() {
    let ctx = resolve_authenticated_key(Some(row("write"))).unwrap();
    assert_eq!(ctx.api_key_id, 10);
    assert_eq!(ctx.workspace_id, 20);
    assert_eq!(ctx.tenant_id, 30);
    assert_eq!(ctx.scope, ApiKeyScope::Write);
    assert_eq!(ctx.user_id, Some(40));
}

#[test]
fn unknown_stored_scope_is_an_internal_error() {
    let err = resolve_authenticated_key(Some(row("superuser"))).unwrap_err();
    assert_eq!(
        err,
        YorishiroError::Internal("unknown api key scope in database: superuser".to_string())
    );
}

#[test]
fn authorization_hands_out_only_sufficient_contexts() {
    let ok = authorize_key_row(Some(row("schema")), ApiKeyScope::Write).unwrap();
    assert_eq!(ok.scope, ApiKeyScope::Schema);
    let err = authorize_key_row(Some(row("read")), ApiKeyScope::Schema).unwrap_err();
    assert!(matches!(err, YorishiroError::ScopeInsufficient { .. }));
    let err = authorize_key_row(Some(row("bogus")), ApiKeyScope::Read).unwrap_err();
    assert!(matches!(err, YorishiroError::Internal(_)));
}

#[test]
fn hash_key_is_the_sha256_digest() {
    let digest = hash_key("abc");
    let expected: Vec<u8> = vec![
        0xba, 0x78, 0x16, 0xbf, 0x8f, 0x01, 0xcf, 0xea, 0x41, 0x41, 0x40, 0xde, 0x5d, 0xae, 0x22,
        0x23, 0xb0, 0x03, 0x61, 0xa3, 0x96, 0x17, 0x7a, 0x9c, 0xb4, 0x10, 0xff, 0x61, 0xf2, 0x00,
        0x15, 0xad,
    ];
    assert_eq!(digest, expected);
    assert_ne!(hash_key("abd"), digest);
}

#[test]
fn composed_key_has_the_documented_shape() {
    let key = compose_api_key(&[0x01, 0xab], &[0xff, 0x00, 0x10]);
    assert_eq!(key.prefix, "ysr_01ab");
    assert_eq!(key.plaintext, "ysr_01ab_ff0010");
    assert_eq!(key.key_hash, hash_key("ysr_01ab_ff0010"));
}

#[test]
fn generated_keys_are_fresh_and_well_formed() {
    let a = generate_api_key();
    let b = generate_api_key();
    assert_ne!(a.plaintext, b.plaintext);
    assert_eq!(a.prefix.len(), 4 + 2 * KEY_PREFIX_BYTES);
    assert_eq!(a.plaintext.len(), 4 + 2 * KEY_PREFIX_BYTES + 1 + 2 * KEY_SECRET_BYTES);
    assert!(a.plaintext.starts_with(&a.prefix));
    assert!(a.plaintext.starts_with("ysr_"));
    assert!(a.plaintext[4..]
        .chars()
        .all(|c| c == '_' || c.is_ascii_digit() || ('a'..='f').contains(&c)));
    assert_eq!(a.key_hash, hash_key(&a.plaintext));
}

#[test]
fn random_hex_has_two_digits_per_byte() {
    let h = random_hex(5);
    assert_eq!(h.len(), 10);
    assert!(h.chars().all(|c| c.is_ascii_digit() || ('a'..='f').contains(&c)));
}
