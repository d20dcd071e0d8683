use canvas_hub::auth::{
    auth_middleware, get_claims, AuthError, Claims, PartialClaims, PermissionLookup, SessionCheck,
    UserLookup, UserRecord, EXPIRED_AFTER_SECONDS, REISSUE_AFTER_SECONDS,
};
use canvas_hub::canvas_permissions::CanvasPermissions;
use canvas_hub::permission_refresh_list::PermissionRefreshList;
use canvas_hub::websocket_handlers::ws_handler;

fn claims_of_alice(exp: usize, reissue_time: usize) -> Claims {
    let mut canvas_permissions = CanvasPermissions::new();
    canvas_permissions.insert("c1".to_string(), "W".to_string());
    Claims {
        user_id: 11,
        email: "alice@example.org".to_string(),
        display_name: "Alice".to_string(),
        exp,
        reissue_time,
        canvas_permissions,
    }
}

fn assert_refresh_of_alice(check: SessionCheck, exp: usize) {
    match check {
        SessionCheck::Refresh(request) => {
            assert_eq!(request.email, "alice@example.org");
            assert_eq!(request.user_id, Some(11));
            assert_eq!(request.display_name.as_deref(), Some("Alice"));
            assert!(request.canvas_permissions.is_none());
            assert_eq!(request.exp, exp);
        }
        other => panic!("expected a refresh, got {:?}", other),
    }
}

#[test]
fn fresh_session_passes() {
    let mut list = PermissionRefreshList::new();
    let check = auth_middleware(&claims_of_alice(10_000, 1_300), 1_000, &mut list);
    assert!(matches!(check, SessionCheck::Pass));
}

#[test]
fn hard_expired_session_is_rejected_at_the_boundary() {
    let mut list = PermissionRefreshList::new();
    list.mark_user_for_refresh_at(11, 5);
    let check = auth_middleware(&claims_of_alice(1_000, 500), 1_000, &mut list);
    assert!(matches!(check, SessionCheck::Reject(AuthError::MissingCredentials)));
    // a rejected session does not consume the mark
    assert!(list.has_pending_refresh(11));
    let check = auth_middleware(&claims_of_alice(1_000, 500), 2_000, &mut list);
    assert!(matches!(check, SessionCheck::Reject(AuthError::MissingCredentials)));
}

#[test]
fn session_one_second_before_hard_expiry_is_not_rejected() {
    let mut list = PermissionRefreshList::new();
    let check = auth_middleware(&claims_of_alice(1_000, 2_000), 999, &mut list);
    assert!(matches!(check, SessionCheck::Pass));
}

#[test]
fn soft_expired_session_is_refreshed_at_the_boundary() {
    let mut list = PermissionRefreshList::new();
    let check = auth_middleware(&claims_of_alice(10_000, 1_000), 1_000, &mut list);
    assert_refresh_of_alice(check, 10_000);
    let check = auth_middleware(&claims_of_alice(10_000, 1_000), 999, &mut list);
    assert!(matches!(check, SessionCheck::Pass));
}

#[test]
fn marked_session_is_refreshed_once() {
    let mut list = PermissionRefreshList::new();
    list.mark_user_for_refresh_at(11, 900);
    let claims = claims_of_alice(10_000, 5_000);
    assert_refresh_of_alice(auth_middleware(&claims, 1_000, &mut list), 10_000);
    assert!(!list.has_pending_refresh(11));
    assert!(matches!(auth_middleware(&claims, 1_000, &mut list), SessionCheck::Pass));
}

#[test]
fn soft_expired_session_still_consumes_its_mark() {
    let mut list = PermissionRefreshList::new();
    list.mark_user_for_refresh_at(11, 900);
    list.mark_user_for_refresh_at(12, 900);
    let claims = claims_of_alice(10_000, 1_000);
    assert_refresh_of_alice(auth_middleware(&claims, 2_000, &mut list), 10_000);
    assert!(!list.has_pending_refresh(11));
    assert!(list.has_pending_refresh(12));
}

#[test]
fn upgrade_check_only_peeks() {
    let mut list = PermissionRefreshList::new();
    list.mark_user_for_refresh_at(11, 900);
    let claims = claims_of_alice(10_000, 5_000);
    assert_refresh_of_alice(ws_handler(&claims, 1_000, &list), 10_000);
    assert!(list.has_pending_refresh(11));
    assert_refresh_of_alice(ws_handler(&claims, 1_000, &list), 10_000);
    assert!(list.consume_refresh_request(11));
    assert!(matches!(ws_handler(&claims, 1_000, &list), SessionCheck::Pass));
}

#[test]
fn upgrade_check_rejects_and_refreshes_by_time() {
    let list = PermissionRefreshList::new();
    assert!(matches!(
        ws_handler(&claims_of_alice(1_000, 500), 1_000, &list),
        SessionCheck::Reject(AuthError::MissingCredentials)
    ));
    assert_refresh_of_alice(ws_handler(&claims_of_alice(2_000, 500), 1_000, &list), 2_000);
}

#[test]
fn default_partial_claims_expire_a_week_on() {
    let data = PartialClaims::default_at(1_000);
    assert_eq!(EXPIRED_AFTER_SECONDS, 604_800);
    assert_eq!(data.exp, 605_800);
    assert_eq!(data.email, "");
    assert!(data.user_id.is_none());
    assert!(data.display_name.is_none());
    assert!(data.canvas_permissions.is_none());
    assert!(data.needs_user_lookup());
    assert!(data.needs_permission_lookup());
    assert_eq!(data.known_user_id(), Err(AuthError::UserInfoNotFound));
}

#[test]
fn refresh_keeps_hard_expiry_and_moves_soft_expiry() {
    let request = claims_of_alice(10_000, 1_000).refresh_request();
    assert!(!request.needs_user_lookup());
    assert!(request.needs_permission_lookup());
    assert_eq!(request.known_user_id(), Ok(11));
    let rows = vec![
        ("c1".to_string(), "V".to_string()),
        ("c2".to_string(), "M".to_string()),
        ("c1".to_string(), "O".to_string()),
    ];
    let filled = request.with_permission_lookup(PermissionLookup::Found(rows)).unwrap();
    let claims = get_claims(filled, 2_000).unwrap();
    assert_eq!(REISSUE_AFTER_SECONDS, 300);
    assert_eq!(claims.reissue_time, 2_300);
    assert_eq!(claims.exp, 10_000);
    assert_eq!(claims.user_id, 11);
    assert_eq!(claims.email, "alice@example.org");
    assert_eq!(claims.display_name, "Alice");
    assert_eq!(claims.canvas_permissions.len(), 2);
    assert_eq!(claims.permission_on("c1"), "O");
    assert_eq!(claims.permission_on("c2"), "M");
    assert_eq!(claims.permission_on("c3"), "");
}

#[test]
fn failed_permission_lookup_is_a_db_error() {
    let request = claims_of_alice(10_000, 1_000).refresh_request();
    let filled = request.with_permission_lookup(PermissionLookup::StorageError);
    assert!(matches!(filled, Err(AuthError::DbError)));
}

#[test]
fn user_lookup_fills_only_what_is_missing() {
    let mut data = PartialClaims::default_at(0);
    data.email = "bob@example.org".to_string();
    data.display_name = Some("Bobby".to_string());
    let record = UserRecord { user_id: Some(5), display_name: "Robert".to_string() };
    let filled = data.with_user_lookup(UserLookup::Found(record)).unwrap();
    assert_eq!(filled.user_id, Some(5));
    assert_eq!(filled.display_name.as_deref(), Some("Bobby"));
    assert_eq!(filled.email, "bob@example.org");
    assert_eq!(filled.exp, EXPIRED_AFTER_SECONDS);

    let mut data = PartialClaims::default_at(0);
    data.user_id = Some(9);
    let record = UserRecord { user_id: Some(5), display_name: "Robert".to_string() };
    let filled = data.with_user_lookup(UserLookup::Found(record)).unwrap();
    assert_eq!(filled.user_id, Some(9));
    assert_eq!(filled.display_name.as_deref(), Some("Robert"));
}

#[test]
fn user_lookup_errors() {
    let data = PartialClaims::default_at(0);
    assert!(matches!(data.with_user_lookup(UserLookup::NotFound), Err(AuthError::UserInfoNotFound)));
    let data = PartialClaims::default_at(0);
    assert!(matches!(data.with_user_lookup(UserLookup::StorageError), Err(AuthError::DbError)));
}

#[test]
fn incomplete_data_give_user_info_not_found() {
    let data = PartialClaims::default_at(0);
    assert!(matches!(get_claims(data, 0), Err(AuthError::UserInfoNotFound)));

    let record = UserRecord { user_id: None, display_name: "Nobody".to_string() };
    let filled = PartialClaims::default_at(0).with_user_lookup(UserLookup::Found(record)).unwrap();
    assert_eq!(filled.known_user_id(), Err(AuthError::UserInfoNotFound));
    let filled = filled.with_permission_lookup(PermissionLookup::Found(vec![])).unwrap();
    assert!(matches!(get_claims(filled, 0), Err(AuthError::UserInfoNotFound)));

    let mut data = PartialClaims::default_at(0);
    data.user_id = Some(1);
    data.display_name = Some("One".to_string());
    assert!(matches!(get_claims(data, 0), Err(AuthError::UserInfoNotFound)));
}

#[test]
fn auth_errors_report_status_and_sentence() {
    let expected = [
        (AuthError::WrongCredentials, 401, "Wrong credentials"),
        (AuthError::MissingCredentials, 401, "Missing credentials"),
        (AuthError::UserExists, 409, "User already exists"),
        (AuthError::TokenCreation, 500, "Token creation error"),
        (AuthError::PasswordHashingFailed, 500, "Password hashing failed"),
        (AuthError::DbError, 500, "Database error"),
        (AuthError::UserInfoNotFound, 404, "User information not found"),
    ];
    for (error, status, sentence) in expected {
        assert_eq!(error.status_code(), status);
        assert_eq!(error.message(), sentence);
        let (code, body) = error.into_response();
        assert_eq!(code, status);
        assert_eq!(body, format!("{{\"error\":\"{}\"}}", sentence));
    }
}

#[test]
fn claims_clone_is_a_faithful_copy() {
    let claims = claims_of_alice(10, 5);
    let copy = claims.clone();
    assert_eq!(copy.user_id, 11);
    assert_eq!(copy.email, claims.email);
    assert_eq!(copy.display_name, claims.display_name);
    assert_eq!(copy.exp, 10);
    assert_eq!(copy.reissue_time, 5);
    assert_eq!(copy.permission_on("c1"), "W");
    assert_eq!(copy.canvas_permissions.len(), 1);
}

#[test]
fn permission_table_behaves_as_a_map() {
    let mut table = CanvasPermissions::new();
    assert_eq!(table.len(), 0);
    assert!(table.get("a").is_none());
    table.insert("a".to_string(), "V".to_string());
    table.insert("b".to_string(), "W".to_string());
    table.insert("a".to_string(), "M".to_string());
    assert_eq!(table.len(), 2);
    assert_eq!(table.get("a").map(|s| s.as_str()), Some("M"));
    assert_eq!(table.get("b").map(|s| s.as_str()), Some("W"));
    assert!(table.contains_key("a"));
    assert!(!table.contains_key("A"));
    let (id, code) = table.entry(0);
    assert_eq!((id.as_str(), code.as_str()), ("a", "M"));
    let (id, code) = table.entry(1);
    assert_eq!((id.as_str(), code.as_str()), ("b", "W"));
    assert!(table.remove("a"));
    assert!(!table.remove("a"));
    assert_eq!(table.len(), 1);
    assert!(table.get("a").is_none());
    assert_eq!(table.get("b").map(|s| s.as_str()), Some("W"));
}
