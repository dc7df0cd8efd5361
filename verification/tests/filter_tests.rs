use voice_rooms::filter::should_review;

#[test]
fn same_channel_is_not_reviewed() {
    assert!(!should_review(Some(77), Some(77)));
    assert!(!should_review(Some(0), Some(0)));
    assert!(!should_review(Some(u64::MAX), Some(u64::MAX)));
}

#[test]
fn join_is_reviewed() {
    assert!(should_review(None, Some(5)));
}

#[test]
fn leave_is_reviewed() {
    assert!(should_review(Some(5), None));
}

#[test]
fn move_is_reviewed() {
    assert!(should_review(Some(5), Some(6)));
}

#[test]
fn both_channels_unknown_is_reviewed() {
    assert!(should_review(None, None));
}
