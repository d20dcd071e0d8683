use canvas_hub::auth::REISSUE_AFTER_SECONDS;
use canvas_hub::permission_refresh_list::{
    current_timestamp, timestamp_from, PermissionRefreshList, CLEANUP_INTERVAL_SECONDS,
    PRUNE_AGE_SECONDS,
};

#[test]
fn new_ledger_holds_nobody() {
    let list = PermissionRefreshList::new();
    assert!(!list.has_pending_refresh(1));
    assert!(!list.has_pending_refresh(-1));
}

#[test]
fn consume_twice_after_one_mark_is_true_then_false() {
    let mut list = PermissionRefreshList::new();
    list.mark_user_for_refresh_at(7, 1_000);
    assert!(list.consume_refresh_request(7));
    assert!(!list.consume_refresh_request(7));
}

#[test]
fn should_refresh_consumes_like_consume() {
    let mut list = PermissionRefreshList::new();
    list.mark_user_for_refresh(7);
    assert!(list.should_refresh(7));
    assert!(!list.should_refresh(7));
    assert!(!list.has_pending_refresh(7));
}

#[test]
fn peek_does_not_consume() {
    let mut list = PermissionRefreshList::new();
    list.mark_user_for_refresh_at(3, 50);
    assert!(list.has_pending_refresh(3));
    assert!(list.has_pending_refresh(3));
    assert!(list.consume_refresh_request(3));
    assert!(!list.has_pending_refresh(3));
}

#[test]
fn consume_leaves_other_users_marked() {
    let mut list = PermissionRefreshList::new();
    list.mark_user_for_refresh_at(1, 10);
    list.mark_user_for_refresh_at(2, 10);
    assert!(list.consume_refresh_request(1));
    assert!(list.has_pending_refresh(2));
    assert!(!list.consume_refresh_request(99));
    assert!(list.has_pending_refresh(2));
}

#[test]
fn prune_removes_exactly_the_entries_of_full_age() {
    let mut list = PermissionRefreshList::new();
    list.mark_user_for_refresh_at(1, 100);
    list.mark_user_for_refresh_at(2, 400);
    list.mark_user_for_refresh_at(3, 401);
    list.mark_user_for_refresh_at(4, 1_000);
    list.mark_user_for_refresh_at(5, 2_000);
    // at 1000 with max_age 600: ages are 900, 600, 599, 0, and one from the future
    list.prune_old_entries_at(600, 1_000);
    assert!(!list.has_pending_refresh(1));
    assert!(!list.has_pending_refresh(2));
    assert!(list.has_pending_refresh(3));
    assert!(list.has_pending_refresh(4));
    assert!(list.has_pending_refresh(5));
}

#[test]
fn prune_with_age_zero_keeps_only_the_future() {
    let mut list = PermissionRefreshList::new();
    list.mark_user_for_refresh_at(1, 10);
    list.mark_user_for_refresh_at(2, 11);
    list.prune_old_entries_at(0, 10);
    assert!(!list.has_pending_refresh(1));
    assert!(list.has_pending_refresh(2));
}

#[test]
fn prune_of_many_entries() {
    let mut list = PermissionRefreshList::new();
    for user in 0..200i64 {
        list.mark_user_for_refresh_at(user, user as usize);
    }
    list.prune_old_entries_at(50, 200);
    for user in 0..200i64 {
        assert_eq!(list.has_pending_refresh(user), 200 - (user as usize) < 50, "user {}", user);
    }
}

#[test]
fn entry_marked_after_prune_survives() {
    let mut list = PermissionRefreshList::new();
    list.mark_user_for_refresh_at(1, 0);
    list.prune_old_entries_at(600, 1_000);
    list.mark_user_for_refresh_at(1, 1_000);
    assert!(list.has_pending_refresh(1));
    list.prune_old_entries_at(600, 1_000);
    assert!(list.has_pending_refresh(1));
}

#[test]
fn remark_overwrites_the_timestamp() {
    let mut list = PermissionRefreshList::new();
    list.mark_user_for_refresh_at(1, 0);
    list.mark_user_for_refresh_at(1, 900);
    list.prune_old_entries_at(600, 1_000);
    assert!(list.has_pending_refresh(1));
}

#[test]
fn mark_by_the_clock_survives_a_prune_by_the_clock() {
    let mut list = PermissionRefreshList::new();
    list.mark_user_for_refresh(5);
    list.prune_old_entries(PRUNE_AGE_SECONDS);
    assert!(list.has_pending_refresh(5));
}

#[test]
fn prune_by_the_clock_drops_ancient_marks() {
    let mut list = PermissionRefreshList::new();
    list.mark_user_for_refresh_at(5, 1);
    list.prune_old_entries(PRUNE_AGE_SECONDS);
    assert!(!list.has_pending_refresh(5));
}

#[test]
fn windows_have_their_values() {
    assert_eq!(REISSUE_AFTER_SECONDS, 300);
    assert_eq!(CLEANUP_INTERVAL_SECONDS, 300);
    assert_eq!(PRUNE_AGE_SECONDS, 600);
}

#[test]
fn clock_reads_a_time_of_this_century() {
    let now = current_timestamp();
    assert!(now > 1_600_000_000);
    let later = current_timestamp();
    assert!(later >= now);
    assert!(later - now < 60);
}

#[test]
fn reading_of_the_clock_becomes_its_seconds_or_zero() {
    assert_eq!(timestamp_from(Some(0)), 0);
    assert_eq!(timestamp_from(Some(1_700_000_000)), 1_700_000_000);
    assert_eq!(timestamp_from(None), 0);
    let wide: u64 = 0x1_0000_0005;
    assert_eq!(timestamp_from(Some(wide)), wide as usize);
}
