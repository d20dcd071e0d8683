use canvas_hub::permission::{can_draw, can_moderate, PermissionLevel};

#[test]
fn codes_round_trip() {
    for level in [
        PermissionLevel::Viewer,
        PermissionLevel::Writer,
        PermissionLevel::Moderator,
        PermissionLevel::Owner,
        PermissionLevel::Creator,
    ] {
        assert_eq!(PermissionLevel::from_code(level.code()), Some(level));
    }
    assert_eq!(PermissionLevel::from_code(""), None);
    assert_eq!(PermissionLevel::from_code("X"), None);
    assert_eq!(PermissionLevel::from_code("WW"), None);
}

#[test]
fn writer_is_held_back_by_moderation() {
    assert!(can_draw("W", false));
    assert!(!can_draw("W", true));
    assert!(can_draw("M", true));
    assert!(can_draw("O", true));
    assert!(can_draw("C", true));
    assert!(!can_draw("V", false));
    assert!(!can_draw("", false));
}

#[test]
fn only_moderators_and_above_moderate() {
    assert!(!can_moderate("V"));
    assert!(!can_moderate("W"));
    assert!(can_moderate("M"));
    assert!(can_moderate("O"));
    assert!(can_moderate("C"));
    assert!(!can_moderate(""));
}
