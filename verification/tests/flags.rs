use gerritbot::flags::{notification_flags, UserFlag, UserFlags};

#[test]
fn flag_names_round_trip() {
    for flag in notification_flags() {
        let name = flag.name();
        assert_eq!(UserFlag::from_str(&name), Some(flag));
        assert_eq!(UserFlag::from_name(&name), Some(flag));
    }
    assert_eq!(UserFlag::NotifyReviewApprovals.name(), "notify_review_approvals");
    assert_eq!(UserFlag::NotifyReviewComments.name(), "notify_review_comments");
    assert_eq!(UserFlag::NotifyReviewInlineComments.name(), "notify_review_inline_comments");
    assert_eq!(UserFlag::NotifyReviewerAdded.name(), "notify_reviewer_added");
}

#[test]
fn flag_parse_failures() {
    assert_eq!(UserFlag::from_str("unknown_flag"), None);
    assert_eq!(UserFlag::from_str("123"), None);
    assert_eq!(UserFlag::from_str("\""), None);
}

#[test]
fn flag_parse_reads_json_escapes() {
    assert_eq!(UserFlag::from_str("notify_change_merge\\u0064"), Some(UserFlag::NotifyChangeMerged));
}

#[test]
fn default_flags_and_custom_flags() {
    let mut flags = UserFlags::Default;
    assert!(flags.is_default());
    assert!(flags.contains(UserFlag::NotifyReviewApprovals));
    assert!(flags.contains(UserFlag::NotifyReviewInlineComments));
    assert!(flags.contains(UserFlag::NotifyReviewerAdded));
    assert!(!flags.contains(UserFlag::NotifyReviewComments));
    flags.set(UserFlag::NotifyReviewComments, true);
    assert!(!flags.is_default());
    assert!(flags.contains(UserFlag::NotifyReviewComments));
    assert!(flags.contains(UserFlag::NotifyReviewApprovals));
    flags.set(UserFlag::NotifyReviewComments, true);
    flags.set(UserFlag::NotifyReviewComments, false);
    assert!(!flags.contains(UserFlag::NotifyReviewComments));
    flags.reset();
    assert!(flags.is_default());
}
