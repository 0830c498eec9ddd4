use yorishiro_core::auth::ApiKeyScope;
use yorishiro_core::error::{InsertFailure, YorishiroError};
use yorishiro_core::tenancy::{
    check_tenant_cap, check_workspace_cap, hash_invite_token, hash_user_password,
    login_accepted, membership_records, membership_role_from_row, parse_i32, parse_max_tenants,
    random_invite_token, role_from_db, tenant_not_found, user_insert_error,
    workspace_deletion_outcome, workspace_not_found, MembershipRole, MembershipRow,
    INVITE_TOKEN_BYTES,
};

const TENANT: u128 = 0x0123_4567_89ab_cdef_0123_4567_89ab_cdef;

#[test]
fn memberships_max_scope_mirrors_role_privilege_order() {
    assert_eq!(MembershipRole::Owner.max_scope(), ApiKeyScope::Schema);
    assert_eq!(MembershipRole::Admin.max_scope(), ApiKeyScope::Schema);
    assert_eq!(MembershipRole::Member.max_scope(), ApiKeyScope::Write);
    assert_eq!(MembershipRole::Viewer.max_scope(), ApiKeyScope::Read);
}

#[test]
fn tenancy_max_scope_mirrors_role_privilege_order() {
    assert_eq!(MembershipRole::Owner.max_scope(), ApiKeyScope::Schema);
    assert_eq!(MembershipRole::Admin.max_scope(), ApiKeyScope::Schema);
    assert_eq!(MembershipRole::Member.max_scope(), ApiKeyScope::Write);
    assert_eq!(MembershipRole::Viewer.max_scope(), ApiKeyScope::Read);
}

#[test]
fn role_db_text_round_trips() {
    for role in [
        MembershipRole::Owner,
        MembershipRole::Admin,
        MembershipRole::Member,
        MembershipRole::Viewer,
    ] {
        assert_eq!(MembershipRole::from_db_str(role.as_db_str()), Some(role));
    }
    assert_eq!(MembershipRole::Owner.as_db_str(), "owner");
    assert_eq!(MembershipRole::Viewer.as_db_str(), "viewer");
    assert_eq!(MembershipRole::from_db_str("root"), None);
}

#[test]
fn unknown_stored_role_is_an_internal_error() {
    assert_eq!(role_from_db("admin"), Ok(MembershipRole::Admin));
    assert_eq!(
        role_from_db("guest"),
        Err(YorishiroError::Internal("unknown membership role in database: guest".to_string()))
    );
    assert_eq!(membership_role_from_row(None), Ok(None));
    assert_eq!(membership_role_from_row(Some("member")), Ok(Some(MembershipRole::Member)));
    assert!(matches!(membership_role_from_row(Some("x")), Err(YorishiroError::Internal(_))));
}

fn membership_row(user_id: u128, role: &str) -> MembershipRow {
    MembershipRow {
        user_id,
        email: format!("user{user_id}@example.com"),
        display_name: None,
        role: role.to_string(),
    }
}

#[test]
fn membership_listing_decodes_rows_in_order() {
    let records =
        membership_records(vec![membership_row(1, "owner"), membership_row(2, "viewer")])
            .unwrap();
    assert_eq!(records.len(), 2);
    assert_eq!(records[0].user_id, 1);
    assert_eq!(records[0].role, MembershipRole::Owner);
    assert_eq!(records[1].email, "user2@example.com");
    assert_eq!(records[1].role, MembershipRole::Viewer);
}

#[test]
fn membership_listing_fails_on_the_first_unknown_role() {
    let err = membership_records(vec![
        membership_row(1, "owner"),
        membership_row(2, "pirate"),
        membership_row(3, "ghost"),
    ])
    .unwrap_err();
    assert_eq!(
        err,
        YorishiroError::Internal("unknown membership role in database: pirate".to_string())
    );
}

#[test]
fn parses_i32_like_rust() {
    assert_eq!(parse_i32("42"), Some(42));
    assert_eq!(parse_i32("-7"), Some(-7));
    assert_eq!(parse_i32("+7"), Some(7));
    assert_eq!(parse_i32("2147483647"), Some(i32::MAX));
    assert_eq!(parse_i32("-2147483648"), Some(i32::MIN));
    assert_eq!(parse_i32("2147483648"), None);
    assert_eq!(parse_i32(""), None);
    assert_eq!(parse_i32("-"), None);
    assert_eq!(parse_i32("12a"), None);
    assert_eq!(parse_i32(" 1"), None);
}

#[test]
fn tenant_cap_setting_must_be_an_integer() {
    assert_eq!(parse_max_tenants(None), Ok(None));
    assert_eq!(parse_max_tenants(Some("5")), Ok(Some(5)));
    assert_eq!(parse_max_tenants(Some("1")), Ok(Some(1)));
    assert_eq!(parse_max_tenants(Some("0")), Ok(None));
    assert_eq!(
        parse_max_tenants(Some("lots")),
        Err(YorishiroError::Internal(
            "YORISHIRO_MAX_TENANTS must be an integer, got 'lots'".to_string()
        ))
    );
}

#[test]
fn tenant_cap_refuses_at_the_limit() {
    assert!(check_tenant_cap(None, 1_000_000).is_ok());
    assert!(check_tenant_cap(Some(3), 2).is_ok());
    assert_eq!(
        check_tenant_cap(Some(3), 3),
        Err(YorishiroError::Conflict {
            message: "this deployment has reached its tenant limit (3, set via \
                      YORISHIRO_MAX_TENANTS); raise or unset that variable to create another tenant"
                .to_string()
        })
    );
    assert!(check_tenant_cap(Some(0), 0).is_err());
}

#[test]
fn workspace_cap_refuses_at_the_limit() {
    assert!(check_workspace_cap(TENANT, None, 99).is_ok());
    assert!(check_workspace_cap(TENANT, Some(2), 1).is_ok());
    assert_eq!(
        check_workspace_cap(TENANT, Some(2), 5),
        Err(YorishiroError::Conflict {
            message: "tenant '01234567-89ab-cdef-0123-456789abcdef' has reached its workspace \
                      limit (2); raise max_workspaces or delete an existing workspace"
                .to_string()
        })
    );
}

#[test]
fn not_found_errors_name_the_identifier() {
    assert_eq!(
        tenant_not_found(TENANT),
        YorishiroError::NotFound {
            message: "tenant '01234567-89ab-cdef-0123-456789abcdef' was not found".to_string()
        }
    );
    assert_eq!(
        workspace_not_found(1),
        YorishiroError::NotFound {
            message: "workspace '00000000-0000-0000-0000-000000000001' was not found".to_string()
        }
    );
    assert_eq!(workspace_deletion_outcome(1, 1), Ok(()));
    assert_eq!(workspace_deletion_outcome(0, 1), Err(workspace_not_found(1)));
}

#[test]
fn duplicate_email_is_a_conflict() {
    assert_eq!(
        user_insert_error(InsertFailure::UniqueViolation("dup".into()), "a@b.c"),
        YorishiroError::Conflict {
            message: "a user with email 'a@b.c' already exists".to_string()
        }
    );
    assert_eq!(
        user_insert_error(InsertFailure::Other("boom".into()), "a@b.c"),
        YorishiroError::Internal("boom".to_string())
    );
}

#[test]
fn invite_tokens_are_random_hex_and_stored_hashed() {
    let a = random_invite_token();
    let b = random_invite_token();
    assert_ne!(a, b);
    assert_eq!(a.len(), 2 * INVITE_TOKEN_BYTES);
    assert!(a.chars().all(|c| c.is_ascii_digit() || ('a'..='f').contains(&c)));
    let h = hash_invite_token(&a);
    assert_eq!(h.len(), 32);
    assert_eq!(h, hash_invite_token(&a));
    assert_ne!(h, hash_invite_token(&b));
    assert_ne!(h, a.as_bytes().to_vec());
}

#[test]
fn login_accepts_only_the_right_password() {
    let hash = hash_user_password("correct horse").unwrap();
    assert_ne!(hash, "correct horse");
    assert!(hash.starts_with("$argon2"));
    assert!(login_accepted(Some(&hash), "correct horse"));
    assert!(!login_accepted(Some(&hash), "wrong horse"));
    assert!(!login_accepted(None, "correct horse"));
    assert!(!login_accepted(Some("not a phc string"), "correct horse"));
}
