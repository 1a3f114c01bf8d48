use gerritbot::flags::UserFlag;
use gerritbot::state::State;

#[test]
fn state_test_add_user() {
    let mut state = State::new();
    state.add_user("some@example.com");
    assert_eq!(state.users.len(), 1);
    assert_eq!(state.num_users(), 1);
    assert_eq!(state.users[0].email(), "some@example.com");
    assert_eq!(state.user_index("some@example.com"), Some(0));
    assert_eq!(state.user_index("some@example.com"), Some(0));

    state.add_user("some_2@example.com");
    assert_eq!(state.users.len(), 2);
    assert_eq!(state.num_users(), 2);
    assert_eq!(state.users[1].email(), "some_2@example.com");
    assert_eq!(state.user_index("some_2@example.com"), Some(1));
    assert_eq!(state.user_index("some_2@example.com"), Some(1));

    let user = state.find_user("some@example.com");
    assert!(user.is_some());
    assert_eq!(user.unwrap().email(), "some@example.com");

    let user = state.find_user("some_2@example.com");
    assert!(user.is_some());
    assert_eq!(user.unwrap().email(), "some_2@example.com");
}

#[test]
fn add_invalid_filter_for_existing_user() {
    let mut state = State::new();
    state.add_user("some@example.com");
    let res = state.add_filter("some@example.com", ".some_weard_regex/[");
    assert!(res.is_err());
    assert!(state
        .users
        .iter()
        .any(|u| u.email() == "some@example.com" && u.filter().is_none()));

    let res = state.enable_and_get_filter("some@example.com", true);
    assert!(res.is_none());
    let res = state.enable_and_get_filter("some@example.com", false);
    assert!(res.is_none());
}

#[test]
fn add_valid_filter_for_existing_user() {
    let mut state = State::new();
    state.add_user("some@example.com");

    let res = state.add_filter("some@example.com", ".*some_word.*");
    assert!(res.is_ok());
    assert!(state.users.iter().any(|u| u.email() == "some@example.com"
        && u.filter().map(|f| f.regex.as_str()) == Some(".*some_word.*")));

    {
        let filter = state.get_filter("some@example.com");
        assert_eq!(filter, Some((".*some_word.*", true)));
    }
    let res = state.enable_and_get_filter("some@example.com", false);
    assert_eq!(res, Some(".*some_word.*"));
    assert!(state
        .users
        .iter()
        .any(|u| u.email() == "some@example.com" && u.filter().map(|f| f.enabled) == Some(false)));
    {
        let filter = state.get_filter("some@example.com");
        assert_eq!(filter, Some((".*some_word.*", false)));
    }
    let res = state.enable_and_get_filter("some@example.com", true);
    assert_eq!(res, Some(".*some_word.*"));
    assert!(state
        .users
        .iter()
        .any(|u| u.email() == "some@example.com" && u.filter().map(|f| f.enabled) == Some(true)));
    {
        let filter = state.get_filter("some@example.com");
        assert_eq!(filter, Some((".*some_word.*", true)));
    }
}

#[test]
fn add_valid_filter_for_non_existing_user() {
    let mut state = State::new();
    let res = state.add_filter("some@example.com", ".*some_word.*");
    assert_eq!(res, Ok(()));
    let res = state.enable_and_get_filter("some@example.com", true);
    assert_eq!(res, Some(".*some_word.*"));
    let res = state.enable_and_get_filter("some@example.com", false);
    assert_eq!(res, Some(".*some_word.*"));
}

#[test]
fn add_valid_filter_for_disabled_user() {
    let mut state = State::new();
    state.add_user("some@example.com");
    state.users[0].set_enabled(false);

    let res = state.add_filter("some@example.com", ".*some_word.*");
    assert_eq!(res, Ok(()));
    let res = state.enable_and_get_filter("some@example.com", true);
    assert_eq!(res, Some(".*some_word.*"));
    let res = state.enable_and_get_filter("some@example.com", false);
    assert_eq!(res, Some(".*some_word.*"));
}

#[test]
fn enable_non_configured_filter_for_existing_user() {
    let mut state = State::new();
    state.add_user("some@example.com");

    let res = state.enable_and_get_filter("some@example.com", true);
    assert!(res.is_none());
    let res = state.enable_and_get_filter("some@example.com", false);
    assert!(res.is_none());
}

#[test]
fn invalid_filter_for_new_user_still_adds_the_user() {
    let mut state = State::new();
    let res = state.add_filter("new@example.com", "(unclosed");
    assert!(res.is_err());
    assert_eq!(state.num_users(), 1);
    assert!(state.users[0].filter().is_none());
}

#[test]
fn filtered_messages_follow_the_enabled_filter() {
    let mut state = State::new();
    state.add_user("some@example.com");
    state.add_filter("some@example.com", "Code-Review").unwrap();
    let user = state.find_user("some@example.com").unwrap().clone();
    assert!(state.is_filtered(&user, "+2 (Code-Review)"));
    assert!(!state.is_filtered(&user, "+1 (Verified)"));
    state.enable_and_get_filter("some@example.com", false);
    let user = state.find_user("some@example.com").unwrap().clone();
    assert!(!state.is_filtered(&user, "+2 (Code-Review)"));
}

#[test]
fn enabling_twice_keeps_one_user() {
    let mut state = State::new();
    state.enable("some@example.com", true);
    state.enable("some@example.com", false);
    assert_eq!(state.num_users(), 1);
    assert!(!state.users[0].enabled);
    assert!(!state.users[0].has_flag(UserFlag::NotifyReviewApprovals));
}

#[test]
fn lookups_see_the_latest_duplicate_while_settings_change_the_first() {
    let mut state = State::new();
    state.add_user("dup@example.com");
    state.add_user("dup@example.com");
    state.enable("dup@example.com", false);
    assert!(!state.users[0].enabled);
    assert!(state.users[1].enabled);
    assert!(state.find_user("dup@example.com").unwrap().enabled);
    assert_eq!(state.user_index("dup@example.com"), Some(1));
}

#[test]
fn flags_can_be_set_and_reset() {
    let mut state = State::new();
    let user = state.set_flag("a@example.com", UserFlag::NotifyChangeMerged, true);
    assert!(user.has_flag(UserFlag::NotifyChangeMerged));
    assert!(user.has_flag(UserFlag::NotifyReviewApprovals));
    let user = state.set_flag("a@example.com", UserFlag::NotifyReviewApprovals, false);
    assert!(!user.has_flag(UserFlag::NotifyReviewApprovals));
    assert!(user.has_flag(UserFlag::NotifyChangeMerged));
    let user = state.reset_flags("a@example.com");
    assert!(user.flags.is_default());
    assert!(user.has_flag(UserFlag::NotifyReviewApprovals));
    assert!(!user.has_flag(UserFlag::NotifyChangeMerged));
    assert_eq!(state.num_users(), 1);
}

#[test]
fn loaded_filters_must_compile() {
    let mut state = State::new();
    state.add_user("a@example.com");
    assert!(state.add_filter("a@example.com", "^ok$").is_ok());
    assert!(state.check_filters().is_ok());
    state.users[0].filter = Some(gerritbot::user::Filter {
        regex: "(".to_string(),
        enabled: false,
    });
    assert!(state.check_filters().is_err());
}
