use canvas_hub::auth::{auth_middleware, Claims, PermissionLookup, SessionCheck};
use canvas_hub::canvas_manager::{
    CanvasDBInfo, CanvasManager, DropReason, EventOutcome, ModerationToggle, Registration,
};
use canvas_hub::canvas_permissions::CanvasPermissions;
use canvas_hub::event_log::read_events;
use canvas_hub::handlers::{
    after_permission_change, update_canvas_permissions, PermissionChange, UpdatePermissionRequest,
};
use canvas_hub::identifiable_web_socket::IdentifiableWebSocket;
use canvas_hub::permission_refresh_list::PermissionRefreshList;
use canvas_hub::socket_claims_manager::SocketClaimsManager;
use canvas_hub::websocket_handlers::WebSocketEvents;

fn session(user_id: i64, permissions: &[(&str, &str)]) -> Claims {
    let mut canvas_permissions = CanvasPermissions::new();
    for (canvas, code) in permissions {
        canvas_permissions.insert(canvas.to_string(), code.to_string());
    }
    Claims {
        user_id,
        email: format!("u{}@example.org", user_id),
        display_name: format!("U{}", user_id),
        exp: 1_000_000,
        reissue_time: 100_000,
        canvas_permissions,
    }
}

fn submission(canvas: &str, events: &str) -> (WebSocketEvents, String) {
    let raw = format!("{{\"canvasId\":\"{}\",\"eventsForCanvas\":{}}}", canvas, events);
    let events = WebSocketEvents {
        canvas_id: canvas.to_string(),
        events_for_canvas: serde_json::from_str(events).unwrap(),
    };
    (events, raw)
}

#[test]
fn writer_on_a_moderated_canvas_waits_for_the_owner() {
    let mut claims = SocketClaimsManager::new();
    claims.add_connection_and_claims(1, session(1, &[("X", "W")]), IdentifiableWebSocket::with_id(10));
    claims.add_connection_and_claims(2, session(2, &[("X", "O")]), IdentifiableWebSocket::with_id(20));
    let mut hub = CanvasManager::new();
    let stored = Some(Ok(CanvasDBInfo { file_path: "x.jsonl".to_string(), is_moderated: true }));
    hub.register(&claims, "X".to_string(), 1, IdentifiableWebSocket::with_id(10), stored);
    hub.register(&claims, "X".to_string(), 2, IdentifiableWebSocket::with_id(20), None);
    let mut log = String::new();

    // the writer's submission is dropped: nothing to append, nothing to send
    let (events, raw) = submission("X", "[{\"stroke\":1}]");
    let outcome = hub.handle_event(&claims, 1, events, raw);
    assert!(matches!(outcome, EventOutcome::Dropped(DropReason::PermissionDenied)));
    assert_eq!(log, "");

    // the owner lifts moderation, and every subscriber hears of it
    let message = match hub.toggle_moderated_state(&claims, 2, "X") {
        ModerationToggle::Toggled { is_moderated, message } => {
            assert!(!is_moderated);
            message
        }
        other => panic!("{:?}", other),
    };
    assert_eq!(message, "{\"canvasId\":\"X\",\"moderated\":false}");
    let sent = hub.broadcast("X", &message);
    let seen: Vec<(u128, &str)> = sent.iter().map(|m| (m.connection_id, m.text.as_str())).collect();
    assert_eq!(seen, vec![(10, message.as_str()), (20, message.as_str())]);

    // the writer's next submission is appended and sent on verbatim
    let (events, raw) = submission("X", "[{\"stroke\":1},{\"stroke\":2}]");
    match hub.handle_event(&claims, 1, events, raw.clone()) {
        EventOutcome::Accepted { file_path, lines, message } => {
            assert_eq!(file_path, "x.jsonl");
            for line in &lines {
                log.push_str(line);
            }
            assert_eq!(message, raw);
            let sent = hub.broadcast("X", &message);
            assert_eq!(sent.len(), 2);
            assert!(sent.iter().all(|m| m.text == raw));
        }
        other => panic!("{:?}", other),
    }
    assert_eq!(log, "{\"stroke\":1}\n{\"stroke\":2}\n");
    assert_eq!(read_events(&log), vec!["{\"stroke\":1}", "{\"stroke\":2}"]);
}

#[test]
fn revoked_permission_is_gone_after_one_refresh() {
    let mut claims = SocketClaimsManager::new();
    let mut list = PermissionRefreshList::new();
    let mut hub = CanvasManager::new();
    let owner = session(1, &[("Y", "O")]);
    let mut cached = session(2, &[("Y", "W"), ("Z", "V")]);
    claims.add_connection_and_claims(1, owner.clone(), IdentifiableWebSocket::with_id(10));
    claims.add_connection_and_claims(2, cached.clone(), IdentifiableWebSocket::with_id(20));
    let stored = Some(Ok(CanvasDBInfo { file_path: "y.jsonl".to_string(), is_moderated: false }));
    hub.register(&claims, "Y".to_string(), 1, IdentifiableWebSocket::with_id(10), stored);
    hub.register(&claims, "Y".to_string(), 2, IdentifiableWebSocket::with_id(20), None);
    let (events, raw) = submission("Y", "[1]");
    assert!(matches!(hub.handle_event(&claims, 2, events, raw), EventOutcome::Accepted { .. }));

    // the owner revokes the permission
    let request = UpdatePermissionRequest { user_id: 2, permission: String::new() };
    let change = update_canvas_permissions(&owner, "Y", &request, &Some("W".to_string())).unwrap();
    assert_eq!(change, PermissionChange::Remove);
    after_permission_change(&mut list, &mut hub, "Y", 2, change, 5_000);
    assert!(list.has_pending_refresh(2));

    // the next contact of the user triggers the one refresh
    let lookups = &mut 0;
    for now in [5_001, 5_002, 5_003] {
        match auth_middleware(&cached, now, &mut list) {
            SessionCheck::Refresh(request) => {
                *lookups += 1;
                let rows = vec![("Z".to_string(), "V".to_string())];
                let data = request.with_permission_lookup(PermissionLookup::Found(rows)).unwrap();
                cached = claims.complete_refresh(data, now).unwrap();
            }
            SessionCheck::Pass => {}
            other => panic!("{:?}", other),
        }
    }
    assert_eq!(*lookups, 1);
    assert_eq!(cached.permission_on("Y"), "");
    assert_eq!(cached.reissue_time, 5_301);
    assert_eq!(cached.exp, 1_000_000);
    assert_eq!(claims.get_permission_level(2, "Y"), "");
    assert_eq!(claims.get_permission_level(2, "Z"), "V");

    // drawing is denied from the cache alone, and registering again as well
    for _ in 0..3 {
        let (events, raw) = submission("Y", "[1]");
        assert!(matches!(
            hub.handle_event(&claims, 2, events, raw),
            EventOutcome::Dropped(DropReason::PermissionDenied)
        ));
    }
    let outcome = hub.register(&claims, "Y".to_string(), 2, IdentifiableWebSocket::with_id(20), None);
    assert!(matches!(outcome, Registration::Rejected { .. }));
    let receivers: Vec<u128> = hub.broadcast("Y", "m").iter().map(|m| m.connection_id).collect();
    assert_eq!(receivers, vec![10]);
}

#[test]
fn two_registrations_for_a_new_canvas_load_it_once() {
    let mut claims = SocketClaimsManager::new();
    claims.add_connection_and_claims(1, session(1, &[("N", "W")]), IdentifiableWebSocket::with_id(10));
    claims.add_connection_and_claims(2, session(2, &[("N", "V")]), IdentifiableWebSocket::with_id(20));
    let mut hub = CanvasManager::new();
    // both saw the canvas unloaded and both come with an answer of the store
    assert!(!hub.is_loaded("N"));
    let first = Some(Ok(CanvasDBInfo { file_path: "n.jsonl".to_string(), is_moderated: true }));
    let second = Some(Ok(CanvasDBInfo { file_path: "other".to_string(), is_moderated: false }));
    let one = hub.register(&claims, "N".to_string(), 1, IdentifiableWebSocket::with_id(10), first);
    let two = hub.register(&claims, "N".to_string(), 2, IdentifiableWebSocket::with_id(20), second);
    for outcome in [one, two] {
        match outcome {
            Registration::Subscribed { file_path, is_moderated, .. } => {
                assert_eq!(file_path, "n.jsonl");
                assert!(is_moderated);
            }
            other => panic!("{:?}", other),
        }
    }
    let state = hub.canvas("N").unwrap();
    assert_eq!(state.file_path, "n.jsonl");
    assert!(state.is_moderated);
    assert_eq!(state.subscribers.len(), 2);
    assert_eq!(state.subscribers[0].user_id, 1);
    assert_eq!(state.subscribers[1].user_id, 2);
}

#[test]
fn batches_are_written_whole_and_in_order() {
    let mut claims = SocketClaimsManager::new();
    claims.add_connection_and_claims(1, session(1, &[("L", "W")]), IdentifiableWebSocket::with_id(10));
    claims.add_connection_and_claims(2, session(2, &[("L", "M")]), IdentifiableWebSocket::with_id(20));
    let mut hub = CanvasManager::new();
    let stored = Some(Ok(CanvasDBInfo { file_path: "l.jsonl".to_string(), is_moderated: false }));
    hub.register(&claims, "L".to_string(), 1, IdentifiableWebSocket::with_id(10), stored);
    let mut log = String::new();
    for (sender, events) in [(1, "[\"a1\",\"a2\"]"), (2, "[\"b1\"]"), (1, "[]"), (2, "[\"b2\",\"b3\"]")] {
        let (events, raw) = submission("L", events);
        match hub.handle_event(&claims, sender, events, raw) {
            EventOutcome::Accepted { lines, .. } => {
                for line in lines {
                    assert!(line.ends_with('\n'));
                    assert_eq!(line.matches('\n').count(), 1);
                    log.push_str(&line);
                }
            }
            other => panic!("{:?}", other),
        }
    }
    assert_eq!(read_events(&log), vec!["\"a1\"", "\"a2\"", "\"b1\"", "\"b2\"", "\"b3\""]);
}
