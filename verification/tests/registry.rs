use canvas_hub::auth::{AuthError, Claims, PartialClaims};
use canvas_hub::canvas_permissions::CanvasPermissions;
use canvas_hub::identifiable_web_socket::IdentifiableWebSocket;
use canvas_hub::socket_claims_manager::SocketClaimsManager;
use canvas_hub::websocket_handlers::open_connection;

fn claims_with(user_id: i64, name: &str, permissions: &[(&str, &str)]) -> Claims {
    let mut canvas_permissions = CanvasPermissions::new();
    for (canvas, code) in permissions {
        canvas_permissions.insert(canvas.to_string(), code.to_string());
    }
    Claims {
        user_id,
        email: format!("{}@example.org", name),
        display_name: name.to_string(),
        exp: 1_000_000,
        reissue_time: 1_000,
        canvas_permissions,
    }
}

#[test]
fn unknown_user_and_unknown_canvas_have_no_permission() {
    let mut manager = SocketClaimsManager::new();
    assert_eq!(manager.get_permission_level(1, "c1"), "");
    manager.add_connection_and_claims(
        1,
        claims_with(1, "ann", &[("c1", "W")]),
        IdentifiableWebSocket::with_id(100),
    );
    assert_eq!(manager.get_permission_level(1, "c1"), "W");
    assert_eq!(manager.get_permission_level(1, "c2"), "");
    assert_eq!(manager.get_permission_level(2, "c1"), "");
}

#[test]
fn second_connection_does_not_overwrite_cached_claims() {
    let mut manager = SocketClaimsManager::new();
    manager.add_connection_and_claims(
        1,
        claims_with(1, "ann", &[("c1", "O")]),
        IdentifiableWebSocket::with_id(100),
    );
    // a second login brings a stale set of claims
    manager.add_connection_and_claims(
        1,
        claims_with(1, "ann", &[("c1", "V"), ("c9", "C")]),
        IdentifiableWebSocket::with_id(101),
    );
    assert_eq!(manager.get_permission_level(1, "c1"), "O");
    assert_eq!(manager.get_permission_level(1, "c9"), "");
    // both connections are attached to the one entry
    assert!(!manager.remove_connection(1, &IdentifiableWebSocket::with_id(100)));
    assert_eq!(manager.get_permission_level(1, "c1"), "O");
    assert!(manager.remove_connection(1, &IdentifiableWebSocket::with_id(101)));
    assert_eq!(manager.get_permission_level(1, "c1"), "");
}

#[test]
fn attaching_a_connection_twice_attaches_it_once() {
    let mut manager = SocketClaimsManager::new();
    let socket = IdentifiableWebSocket::with_id(100);
    manager.add_connection_and_claims(1, claims_with(1, "ann", &[("c1", "O")]), socket);
    manager.add_connection_and_claims(1, claims_with(1, "ann", &[("c1", "O")]), socket);
    let notices = manager.update_permissions(1, claims_with(1, "ann", &[("c1", "W")]));
    assert_eq!(notices.len(), 1);
    assert!(manager.remove_connection(1, &socket));
}

#[test]
fn update_claims_replaces_wholesale_for_live_users_only() {
    let mut manager = SocketClaimsManager::new();
    assert!(!manager.update_claims(1, claims_with(1, "ann", &[("c1", "O")])));
    assert_eq!(manager.get_permission_level(1, "c1"), "");
    manager.add_connection_and_claims(
        1,
        claims_with(1, "ann", &[("c1", "O"), ("c2", "W")]),
        IdentifiableWebSocket::with_id(100),
    );
    assert!(manager.update_claims(1, claims_with(1, "ann", &[("c3", "M")])));
    assert_eq!(manager.get_permission_level(1, "c1"), "");
    assert_eq!(manager.get_permission_level(1, "c2"), "");
    assert_eq!(manager.get_permission_level(1, "c3"), "M");
    // the connection is still attached
    assert!(manager.remove_connection(1, &IdentifiableWebSocket::with_id(100)));
}

#[test]
fn detach_removes_exactly_that_connection() {
    let mut manager = SocketClaimsManager::new();
    manager.add_connection_and_claims(
        1,
        claims_with(1, "ann", &[("c1", "O")]),
        IdentifiableWebSocket::with_id(100),
    );
    manager.add_connection_and_claims(
        2,
        claims_with(2, "ben", &[("c1", "W")]),
        IdentifiableWebSocket::with_id(200),
    );
    // a connection that is not attached: nothing happens
    assert!(!manager.remove_connection(1, &IdentifiableWebSocket::with_id(999)));
    assert_eq!(manager.get_permission_level(1, "c1"), "O");
    // an unknown user: nothing happens
    assert!(!manager.remove_connection(3, &IdentifiableWebSocket::with_id(100)));
    assert!(manager.remove_connection(1, &IdentifiableWebSocket::with_id(100)));
    assert_eq!(manager.get_permission_level(1, "c1"), "");
    assert_eq!(manager.get_permission_level(2, "c1"), "W");
}

#[test]
fn update_permissions_notifies_every_connection_of_every_canvas() {
    let mut manager = SocketClaimsManager::new();
    manager.add_connection_and_claims(
        1,
        claims_with(1, "ann", &[("c1", "O")]),
        IdentifiableWebSocket::with_id(100),
    );
    manager.add_connection_and_claims(
        1,
        claims_with(1, "ann", &[]),
        IdentifiableWebSocket::with_id(101),
    );
    let notices = manager.update_permissions(1, claims_with(1, "ann", &[("c1", "W"), ("c2", "V")]));
    let seen: Vec<(u128, &str)> =
        notices.iter().map(|n| (n.connection_id, n.text.as_str())).collect();
    assert_eq!(
        seen,
        vec![
            (100, "{\"canvasId\":\"c1\",\"yourPermission\":\"W\"}"),
            (100, "{\"canvasId\":\"c2\",\"yourPermission\":\"V\"}"),
            (101, "{\"canvasId\":\"c1\",\"yourPermission\":\"W\"}"),
            (101, "{\"canvasId\":\"c2\",\"yourPermission\":\"V\"}"),
        ]
    );
    assert_eq!(manager.get_permission_level(1, "c1"), "W");
    assert_eq!(manager.get_permission_level(1, "c2"), "V");
}

#[test]
fn update_permissions_of_an_absent_user_does_nothing() {
    let mut manager = SocketClaimsManager::new();
    let notices = manager.update_permissions(1, claims_with(1, "ann", &[("c1", "W")]));
    assert!(notices.is_empty());
    assert_eq!(manager.get_permission_level(1, "c1"), "");
}

#[test]
fn revoked_canvas_is_simply_absent_after_an_update() {
    let mut manager = SocketClaimsManager::new();
    manager.add_connection_and_claims(
        1,
        claims_with(1, "ann", &[("c1", "O"), ("c2", "W")]),
        IdentifiableWebSocket::with_id(100),
    );
    let notices = manager.update_permissions(1, claims_with(1, "ann", &[("c1", "O")]));
    assert_eq!(notices.len(), 1);
    assert_eq!(manager.get_permission_level(1, "c2"), "");
}

#[test]
fn refresh_request_asks_for_permissions_only() {
    let mut manager = SocketClaimsManager::new();
    assert!(manager.refresh_request(1).is_none());
    manager.add_connection_and_claims(
        1,
        claims_with(1, "ann", &[("c1", "O")]),
        IdentifiableWebSocket::with_id(100),
    );
    let request = manager.refresh_request(1).unwrap();
    assert_eq!(request.user_id, Some(1));
    assert_eq!(request.email, "ann@example.org");
    assert_eq!(request.display_name.as_deref(), Some("ann"));
    assert!(request.canvas_permissions.is_none());
    assert_eq!(request.exp, 1_000_000);
}

#[test]
fn complete_refresh_updates_the_cache_of_a_connected_user() {
    let mut manager = SocketClaimsManager::new();
    manager.add_connection_and_claims(
        1,
        claims_with(1, "ann", &[("c1", "O")]),
        IdentifiableWebSocket::with_id(100),
    );
    let mut table = CanvasPermissions::new();
    table.insert("c2".to_string(), "V".to_string());
    let data = PartialClaims {
        email: "ann@example.org".to_string(),
        user_id: Some(1),
        display_name: Some("Ann".to_string()),
        canvas_permissions: Some(table),
        exp: 9_999,
    };
    let claims = manager.complete_refresh(data, 500).unwrap();
    assert_eq!(claims.reissue_time, 800);
    assert_eq!(claims.exp, 9_999);
    assert_eq!(manager.get_permission_level(1, "c1"), "");
    assert_eq!(manager.get_permission_level(1, "c2"), "V");
}

#[test]
fn complete_refresh_of_a_disconnected_user_issues_claims_and_caches_nothing() {
    let mut manager = SocketClaimsManager::new();
    let data = PartialClaims {
        email: "ann@example.org".to_string(),
        user_id: Some(1),
        display_name: Some("Ann".to_string()),
        canvas_permissions: Some(CanvasPermissions::new()),
        exp: 9_999,
    };
    assert!(manager.complete_refresh(data, 500).is_ok());
    assert_eq!(manager.get_permission_level(1, "c1"), "");
    assert!(manager.refresh_request(1).is_none());
}

#[test]
fn complete_refresh_with_a_gap_changes_nothing() {
    let mut manager = SocketClaimsManager::new();
    manager.add_connection_and_claims(
        1,
        claims_with(1, "ann", &[("c1", "O")]),
        IdentifiableWebSocket::with_id(100),
    );
    let data = PartialClaims {
        email: "ann@example.org".to_string(),
        user_id: Some(1),
        display_name: Some("Ann".to_string()),
        canvas_permissions: None,
        exp: 9_999,
    };
    assert!(matches!(manager.complete_refresh(data, 500), Err(AuthError::UserInfoNotFound)));
    assert_eq!(manager.get_permission_level(1, "c1"), "O");
}

#[test]
fn open_connection_attaches_a_fresh_socket() {
    let mut manager = SocketClaimsManager::new();
    let first = open_connection(&mut manager, claims_with(1, "ann", &[("c1", "O")]));
    let second = open_connection(&mut manager, claims_with(1, "ann", &[("c1", "V")]));
    assert_ne!(first, second);
    assert_eq!(manager.get_permission_level(1, "c1"), "O");
    assert!(!manager.remove_connection(1, &first));
    assert!(manager.remove_connection(1, &second));
}
