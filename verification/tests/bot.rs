use std::time::Duration;

use gerritbot::bot::{
    gerrit_event_to_action, maybe_has_inline_comments, request_extended_gerrit_info,
    spark_message_to_action, Action, Bot, Builder, MessageInput, Task,
};
use gerritbot::command::Command;
use gerritbot::flags::{notification_flags, UserFlag};
use gerritbot::gerrit_events::{
    Approval, Change, ChangeKey, ChangeMergedEvent, CommentAddedEvent, Event, ExtendedInfo,
    PatchSet, ReviewerAddedEvent, User,
};
use gerritbot::spark::Message;
use gerritbot::state::State;

/// What the message formatter makes of the event below for its owner.
const FORMATTED: &str = "[Some review.](http://localhost/42) ([demo-project](http://localhost/q/project:demo-project+status:open)) 👍 +2 (Code-Review) from [Approver](http://localhost/q/owner:approver@approvers.com+status:open)\n\n> Just a buggy script. FAILURE\n\n> And more problems. FAILURE";

fn account(name: &str, username: &str, email: &str) -> User {
    User {
        name: Some(name.to_string()),
        username: Some(username.to_string()),
        email: Some(email.to_string()),
    }
}

fn patchset() -> PatchSet {
    PatchSet {
        number: 1,
        revision: "49a65998c02eda928559f2d0b586c20bc8e37b10".to_string(),
        parents: vec!["fb1909b4eda306985d2bbce769310e5a50a98cf5".to_string()],
        reference: "refs/changes/42/42/1".to_string(),
        uploader: account("Author", "Author", "author@example.com"),
        created_on: 1494165142,
        author: account("Author", "Author", "author@example.com"),
        is_draft: false,
        kind: "REWORK".to_string(),
        size_insertions: 0,
        size_deletions: 0,
        comments: None,
        approvals: None,
    }
}

fn change() -> Change {
    Change {
        project: "demo-project".to_string(),
        branch: "master".to_string(),
        id: "Ic160fa37fca005fec17a2434aadf0d9dcfbb7b14".to_string(),
        number: 49,
        subject: "Some review.".to_string(),
        topic: None,
        owner: account("Author", "author", "author@example.com"),
        url: "http://localhost/42".to_string(),
        commit_message: "Some review.\n\nChange-Id: Ic160fa37fca005fec17a2434aadf0d9dcfbb7b14\n"
            .to_string(),
        status: "NEW".to_string(),
        current_patch_set: None,
        comments: None,
    }
}

fn get_event() -> CommentAddedEvent {
    CommentAddedEvent {
        author: account("Approver", "approver", "approver@approvers.com"),
        approvals: Some(vec![Approval {
            approval_type: "Code-Review".to_string(),
            description: Some("Code-Review".to_string()),
            value: "2".to_string(),
            old_value: Some("-1".to_string()),
            by: None,
        }]),
        comment: "Patch Set 1: Code-Review+2\n\nJust a buggy script. FAILURE\n\nAnd more problems. FAILURE"
            .to_string(),
        patchset: patchset(),
        change: change(),
        project: "demo-project".to_string(),
        ref_name: "refs/heads/master".to_string(),
        changekey: ChangeKey {
            id: "Ic160fa37fca005fec17a2434aadf0d9dcfbb7b14".to_string(),
        },
        created_on: 1499190282,
    }
}

fn new_bot() -> Bot {
    Builder::new(State::new()).build()
}

fn new_bot_with_msg_cache(capacity: usize, expiration: Duration) -> Bot {
    Builder::new(State::new())
        .with_msg_cache(capacity, expiration.as_millis() as u64)
        .build()
}

/// Runs the bot on a comment and formats what it hands out the way the
/// formatter does, returning the messages that survive the filters.
fn approvals_msgs(bot: &mut Bot, event: CommentAddedEvent) -> Vec<(String, String)> {
    let text = event.change.subject.clone();
    let formatted = FORMATTED.replace("Some review.", &text);
    let tasks = bot.comment_added(Box::new(event));
    let mut out = Vec::new();
    for task in tasks {
        match task {
            Task::Format(job) => {
                assert!(matches!(job.input, MessageInput::CommentAdded(_)));
                for r in job.recipients.iter() {
                    if let Some(resp) = r.finish(Some(formatted.clone())) {
                        out.push((resp.email, resp.message));
                    }
                }
            }
            other => panic!("unexpected task: {:?}", other),
        }
    }
    out
}

fn get_approvals_msg(bot: &mut Bot, event: CommentAddedEvent) -> Option<(String, String)> {
    let mut msgs = approvals_msgs(bot, event);
    assert!(msgs.len() <= 1);
    msgs.pop()
}

#[test]
fn get_approvals_msg_for_empty_bot() {
    // bot does not have the user => no message
    let mut bot = new_bot();
    let res = get_approvals_msg(&mut bot, get_event());
    assert!(res.is_none());
}

#[test]
fn get_approvals_msg_for_same_author_and_approver() {
    // the approval is from the author => no message
    let mut bot = new_bot();
    bot.state.add_user("approver@example.com");
    let res = get_approvals_msg(&mut bot, get_event());
    assert!(res.is_none());
}

#[test]
fn get_approvals_msg_for_user_with_disabled_notifications() {
    // the approval is for the user with disabled notifications => no message
    let mut bot = new_bot();
    bot.state.add_user("author@example.com");
    bot.state.enable("author@example.com", false);
    let res = get_approvals_msg(&mut bot, get_event());
    assert!(res.is_none());
}

#[test]
fn get_approvals_msg_for_user_with_enabled_notifications() {
    // the approval is for the user with enabled notifications => message
    let mut bot = new_bot();
    bot.state.add_user("author@example.com");
    let res = get_approvals_msg(&mut bot, get_event());
    assert!(res.is_some());
    let (email, msg) = res.unwrap();
    assert_eq!(email, "author@example.com");
    assert!(msg.contains("Some review."));
}

#[test]
fn get_approvals_msg_for_user_with_enabled_notifications_and_filter() {
    let mut bot = new_bot();
    bot.state.add_user("author@example.com");

    {
        let res = bot.state.add_filter("author@example.com", ".*Code-Review.*");
        assert!(res.is_ok());
        let res = get_approvals_msg(&mut bot, get_event());
        assert!(res.is_none());
    }
    {
        let res = bot.state.enable_and_get_filter("author@example.com", false);
        assert!(res.is_some());
        let res = get_approvals_msg(&mut bot, get_event());
        assert!(res.is_some());
        let (user, msg) = res.unwrap();
        assert_eq!(user, "author@example.com");
        assert!(msg.contains("Some review."));
    }
    {
        let res = bot.state.enable_and_get_filter("author@example.com", true);
        assert!(res.is_some());
        let res = bot
            .state
            .add_filter("author@example.com", "some_non_matching_filter");
        assert!(res.is_ok());
        let res = get_approvals_msg(&mut bot, get_event());
        assert!(res.is_some());
        let (email, msg) = res.unwrap();
        assert_eq!(email, "author@example.com");
        assert!(msg.contains("Some review."));
    }
}

#[test]
fn get_approvals_msg_for_quickly_repeated_event() {
    // same approval twice within a second => first a message, then nothing
    let mut bot = new_bot_with_msg_cache(10, Duration::from_secs(1));
    bot.state.add_user("author@example.com");
    {
        let res = get_approvals_msg(&mut bot, get_event());
        assert!(res.is_some());
        let (email, msg) = res.unwrap();
        assert_eq!(email, "author@example.com");
        assert!(msg.contains("Some review."));
    }
    {
        let res = get_approvals_msg(&mut bot, get_event());
        assert!(res.is_none());
    }
}

#[test]
fn get_approvals_msg_for_slowly_repeated_event() {
    // same approval twice, more than the expiration apart => two messages
    let mut bot = new_bot_with_msg_cache(10, Duration::from_millis(50));
    bot.state.add_user("author@example.com");
    {
        let res = get_approvals_msg(&mut bot, get_event());
        assert!(res.is_some());
        let (email, msg) = res.unwrap();
        assert_eq!(email, "author@example.com");
        assert!(msg.contains("Some review."));
    }
    let start = std::time::Instant::now();
    while start.elapsed() < Duration::from_millis(200) {}
    {
        let res = get_approvals_msg(&mut bot, get_event());
        assert!(res.is_some());
        let (email, msg) = res.unwrap();
        assert_eq!(email, "author@example.com");
        assert!(msg.contains("Some review."));
    }
}

#[test]
fn get_approvals_msg_for_bot_with_low_msgs_capacity() {
    // capacity 1: A, B, A are all announced
    let mut bot = new_bot_with_msg_cache(1, Duration::from_secs(1));
    bot.state.add_user("author@example.com");
    {
        let mut event = get_event();
        event.change.subject = String::from("A");
        let res = get_approvals_msg(&mut bot, event);
        assert!(res.is_some());
    }
    {
        let mut event = get_event();
        event.change.subject = String::from("B");
        let res = get_approvals_msg(&mut bot, event);
        assert!(res.is_some());
    }
    {
        let mut event = get_event();
        event.change.subject = String::from("A");
        let res = get_approvals_msg(&mut bot, event);
        assert!(res.is_some());
    }
}

#[test]
fn test_maybe_has_inline_comments() {
    let mut event = get_event();
    event.comment = "PatchSet 666: (2 comments)".to_string();
    assert!(maybe_has_inline_comments(&event));

    event.comment = "Nope, colleague comment!".to_string();
    assert!(!maybe_has_inline_comments(&event));
}

#[test]
fn one_inline_comment_is_announced_too() {
    let mut event = get_event();
    event.comment = "Patch Set 1:\n\n(1 comment)".to_string();
    assert!(maybe_has_inline_comments(&event));
}

#[test]
fn comment_without_votes_is_announced_every_time() {
    let mut bot = new_bot_with_msg_cache(10, Duration::from_secs(60));
    bot.state.add_user("author@example.com");
    let mut event = get_event();
    event.approvals = None;
    assert!(get_approvals_msg(&mut bot, event.clone()).is_some());
    assert!(get_approvals_msg(&mut bot, event).is_some());
}

#[test]
fn repeated_event_for_another_subject_is_announced() {
    let mut bot = new_bot_with_msg_cache(10, Duration::from_secs(60));
    bot.state.add_user("author@example.com");
    assert!(get_approvals_msg(&mut bot, get_event()).is_some());
    let mut event = get_event();
    event.change.subject = "Another change.".to_string();
    assert!(get_approvals_msg(&mut bot, event).is_some());
}

#[test]
fn owner_comment_goes_to_voters_who_want_responses() {
    let mut bot = new_bot();
    bot.state.add_user("approver@approvers.com");
    bot.state
        .set_flag("approver@approvers.com", UserFlag::NotifyReviewResponses, true);
    let mut event = get_event();
    event.author = account("Author", "author", "author@example.com");
    event.patchset.approvals = Some(vec![Approval {
        approval_type: "Code-Review".to_string(),
        description: None,
        value: "1".to_string(),
        old_value: None,
        by: Some(account("Approver", "approver", "approver@approvers.com")),
    }]);
    let tasks = bot.comment_added(Box::new(event));
    assert_eq!(tasks.len(), 1);
    match &tasks[0] {
        Task::Format(job) => {
            assert_eq!(job.recipients.len(), 1);
            assert_eq!(job.recipients[0].email, "approver@approvers.com");
            assert!(job.recipients[0].filter.is_none());
        }
        other => panic!("unexpected task: {:?}", other),
    }
}

#[test]
fn owner_comment_skips_voters_without_the_flag() {
    let mut bot = new_bot();
    bot.state.add_user("approver@approvers.com");
    let mut event = get_event();
    event.author = account("Author", "author", "author@example.com");
    event.patchset.approvals = Some(vec![Approval {
        approval_type: "Code-Review".to_string(),
        description: None,
        value: "1".to_string(),
        old_value: None,
        by: Some(account("Approver", "approver", "approver@approvers.com")),
    }]);
    let tasks = bot.comment_added(Box::new(event));
    assert!(tasks.is_empty());
}

fn reviewer_added_event() -> ReviewerAddedEvent {
    ReviewerAddedEvent {
        reviewer: account("Invitee", "invitee", "invitee@example.com"),
        patchset: patchset(),
        change: change(),
        project: "demo-project".to_string(),
        ref_name: "refs/heads/master".to_string(),
        changekey: ChangeKey {
            id: "Ic160fa37fca005fec17a2434aadf0d9dcfbb7b14".to_string(),
        },
        created_on: 1499190282,
    }
}

#[test]
fn invitation_is_announced_once() {
    let mut bot = new_bot_with_msg_cache(10, Duration::from_secs(60));
    bot.state.add_user("invitee@example.com");
    let tasks = bot.reviewer_added(Box::new(reviewer_added_event()));
    assert_eq!(tasks.len(), 1);
    match &tasks[0] {
        Task::Format(job) => {
            assert!(matches!(job.input, MessageInput::ReviewerAdded(_)));
            assert_eq!(job.recipients[0].email, "invitee@example.com");
        }
        other => panic!("unexpected task: {:?}", other),
    }
    let tasks = bot.reviewer_added(Box::new(reviewer_added_event()));
    assert!(tasks.is_empty());
}

#[test]
fn invitation_of_unknown_user_is_ignored() {
    let mut bot = new_bot();
    let tasks = bot.reviewer_added(Box::new(reviewer_added_event()));
    assert!(tasks.is_empty());
}

#[test]
fn merged_change_goes_to_owner_with_the_flag() {
    let mut bot = new_bot();
    bot.state.add_user("author@example.com");
    bot.state
        .set_flag("author@example.com", UserFlag::NotifyChangeMerged, true);
    let event = ChangeMergedEvent {
        submitter: account("Approver", "approver", "approver@approvers.com"),
        new_rev: "abc".to_string(),
        patchset: patchset(),
        change: change(),
        project: "demo-project".to_string(),
        ref_name: "refs/heads/master".to_string(),
        changekey: ChangeKey { id: "I1".to_string() },
        created_on: 1,
    };
    let tasks = bot.change_merged(Box::new(event));
    assert_eq!(tasks.len(), 1);
    match &tasks[0] {
        Task::Format(job) => assert_eq!(job.recipients[0].email, "author@example.com"),
        other => panic!("unexpected task: {:?}", other),
    }
}

#[test]
fn status_counts_enabled_users() {
    let mut bot = new_bot();
    bot.state.add_user("a@example.com");
    bot.state.add_user("b@example.com");
    bot.state.enable("b@example.com", false);
    match bot.status_for("a@example.com") {
        Task::Format(job) => match job.input {
            MessageInput::Status {
                user_enabled,
                enabled_user_count,
            } => {
                assert!(user_enabled);
                assert_eq!(enabled_user_count, 1);
            }
            other => panic!("unexpected input: {:?}", other),
        },
        other => panic!("unexpected task: {:?}", other),
    }
    match bot.status_for("nobody@example.com") {
        Task::Format(job) => match job.input {
            MessageInput::Status { user_enabled, .. } => assert!(!user_enabled),
            other => panic!("unexpected input: {:?}", other),
        },
        other => panic!("unexpected task: {:?}", other),
    }
}

#[test]
fn enable_command_adds_user_and_saves() {
    let mut bot = new_bot();
    let tasks = bot.update(Action::RunCommand {
        sender: "some@example.com".to_string(),
        command: Command::Enable,
    });
    assert_eq!(bot.state.num_users(), 1);
    assert!(bot.state.users[0].has_any_flag(&notification_flags()));
    assert_eq!(tasks.len(), 2);
    assert!(matches!(tasks[0], Task::Save));
    match &tasks[1] {
        Task::Reply(r) => {
            assert_eq!(r.email, "some@example.com");
            assert_eq!(r.message, "Got it! Happy reviewing!");
        }
        other => panic!("unexpected task: {:?}", other),
    }
}

#[test]
fn disable_command_silences_user() {
    let mut bot = new_bot();
    bot.state.add_user("some@example.com");
    let tasks = bot.run_command("some@example.com".to_string(), Command::Disable);
    assert!(!bot.state.users[0].has_any_flag(&notification_flags()));
    match &tasks[1] {
        Task::Reply(r) => assert_eq!(r.message, "Got it! I will stay silent."),
        other => panic!("unexpected task: {:?}", other),
    }
}

#[test]
fn filter_commands_answer() {
    let mut bot = new_bot();
    let tasks = bot.run_command("u@example.com".to_string(), Command::FilterStatus);
    match &tasks[0] {
        Task::Reply(r) => assert_eq!(r.message, "No filter is configured for you."),
        other => panic!("unexpected task: {:?}", other),
    }
    let tasks = bot.run_command(
        "u@example.com".to_string(),
        Command::FilterAdd("abc.*".to_string()),
    );
    match &tasks[0] {
        Task::Reply(r) => assert_eq!(r.message, "Filter successfully added and enabled."),
        other => panic!("unexpected task: {:?}", other),
    }
    let tasks = bot.run_command("u@example.com".to_string(), Command::FilterStatus);
    match &tasks[0] {
        Task::Reply(r) => assert_eq!(
            r.message,
            "The following filter is configured for you: `abc.*`. It is **enabled**."
        ),
        other => panic!("unexpected task: {:?}", other),
    }
    let tasks = bot.run_command("u@example.com".to_string(), Command::FilterEnable(false));
    match &tasks[1] {
        Task::Reply(r) => assert_eq!(r.message, "Filter successfully disabled."),
        other => panic!("unexpected task: {:?}", other),
    }
    let tasks = bot.run_command("u@example.com".to_string(), Command::FilterEnable(true));
    match &tasks[1] {
        Task::Reply(r) => assert_eq!(
            r.message,
            "Filter successfully enabled. The following filter is configured: abc.*"
        ),
        other => panic!("unexpected task: {:?}", other),
    }
    let tasks = bot.run_command(
        "u@example.com".to_string(),
        Command::FilterAdd("[".to_string()),
    );
    match &tasks[0] {
        Task::Reply(r) => assert!(r.message.starts_with("Your provided filter is invalid.")),
        other => panic!("unexpected task: {:?}", other),
    }
}

#[test]
fn enable_filter_without_filter_is_refused() {
    let mut bot = new_bot();
    let tasks = bot.run_command("u@example.com".to_string(), Command::FilterEnable(true));
    match &tasks[1] {
        Task::Reply(r) => assert_eq!(
            r.message,
            "Cannot enable filter since there is none configured. User `filter <regex>` to add a new filter."
        ),
        other => panic!("unexpected task: {:?}", other),
    }
    let tasks = bot.run_command("u@example.com".to_string(), Command::FilterEnable(false));
    match &tasks[1] {
        Task::Reply(r) => assert_eq!(
            r.message,
            "No need to disable the filter since there is none configured."
        ),
        other => panic!("unexpected task: {:?}", other),
    }
}

#[test]
fn set_flag_command_answers_with_flag_name() {
    let mut bot = new_bot();
    let tasks = bot.run_command(
        "u@example.com".to_string(),
        Command::SetFlag(UserFlag::NotifyChangeMerged, true),
    );
    assert!(bot.state.users[0].has_flag(UserFlag::NotifyChangeMerged));
    match &tasks[1] {
        Task::Reply(r) => assert_eq!(r.message, "Flag notify_change_merged **enabled**"),
        other => panic!("unexpected task: {:?}", other),
    }
}

#[test]
fn unknown_message_gets_greeting() {
    let message = Message::test_message(
        "u@example.com".to_string(),
        "pid".to_string(),
        "what is this".to_string(),
    );
    let action = spark_message_to_action(message);
    assert!(matches!(action, Action::UnknownCommand { .. }));
    let mut bot = new_bot();
    let tasks = bot.update(action);
    match &tasks[0] {
        Task::Format(job) => {
            assert!(matches!(job.input, MessageInput::Greeting));
            assert_eq!(job.input.format_function(), "format_greeting");
        }
        other => panic!("unexpected task: {:?}", other),
    }
}

#[test]
fn known_message_becomes_command() {
    let message = Message::test_message(
        "u@example.com".to_string(),
        "pid".to_string(),
        "  Filter Enable ".to_string(),
    );
    match spark_message_to_action(message) {
        Action::RunCommand { sender, command } => {
            assert_eq!(sender, "u@example.com");
            assert!(matches!(command, Command::FilterEnable(true)));
        }
        other => panic!("unexpected action: {:?}", other),
    }
}

#[test]
fn extended_info_for_comment_of_owner() {
    let mut event = get_event();
    event.author = account("Author", "author", "author@example.com");
    event.comment = "Patch Set 1:\n\n(3 comments)".to_string();
    let info = request_extended_gerrit_info(&Event::CommentAdded(event));
    assert_eq!(
        info,
        vec![
            ExtendedInfo::InlineComments,
            ExtendedInfo::AllApprovals,
            ExtendedInfo::SubmitRecords
        ]
    );
}

#[test]
fn extended_info_skips_bots_and_other_authors() {
    let mut event = get_event();
    event.author = account("CI", "ci-bot", "ci@example.com");
    event.comment = "(3 comments)".to_string();
    let info = request_extended_gerrit_info(&Event::CommentAdded(event));
    assert_eq!(info, vec![ExtendedInfo::SubmitRecords]);
    let info = request_extended_gerrit_info(&Event::ReviewerAdded(reviewer_added_event()));
    assert!(info.is_empty());
}

#[test]
fn gerrit_event_becomes_action() {
    let action = gerrit_event_to_action(Event::ReviewerAdded(reviewer_added_event()));
    assert!(matches!(action, Some(Action::ReviewerAdded(_))));
}
