use gerritbot::gerrit::{Approval, Change, ChangeKey, Event, EventType, PatchSet, User as Account};
use gerritbot::spark_bot::{format_approval_value, update, Action, Bot, Task, User, HELP_MSG};

#[test]
fn bot_test_add_user() {
    let mut bot = Bot::new();
    bot.add_user("some_person_id", "some@example.com");
    assert_eq!(bot.users.len(), 1);
    assert_eq!(bot.users[0].spark_person_id, "some_person_id");
    assert_eq!(bot.users[0].email, "some@example.com");
    assert!(bot.users[0].enabled);
}

#[test]
fn test_status_for() {
    let mut bot = Bot::new();
    bot.add_user("some_person_id", "some@example.com");

    let resp = bot.status_for("some_person_id");
    assert!(resp.contains("enabled"));

    bot.users[0].enabled = false;
    let resp = bot.status_for("some_person_id");
    assert!(resp.contains("disabled"));

    let resp = bot.status_for("some_non_existent_id");
    assert!(resp.contains("disabled"));
}

#[test]
fn enable_non_existent_user() {
    let test = |enable| {
        let mut bot = Bot::new();
        let num_users = bot.num_users();
        bot.enable("some_person_id", "some@example.com", enable);
        assert!(bot
            .users
            .iter()
            .position(|u| {
                u.spark_person_id == "some_person_id"
                    && u.email == "some@example.com"
                    && u.enabled == enable
            })
            .is_some());
        assert!(bot.num_users() == num_users + 1);
    };
    test(true);
    test(false);
}

#[test]
fn enable_existent_user() {
    let test = |enable| {
        let mut bot = Bot::new();
        bot.users.push(User::new(
            String::from("some_person_id"),
            String::from("some@example.com"),
        ));
        let num_users = bot.num_users();

        bot.enable("some_person_id", "some@example.com", enable);
        assert!(bot
            .users
            .iter()
            .position(|u| {
                u.spark_person_id == "some_person_id"
                    && u.email == "some@example.com"
                    && u.enabled == enable
            })
            .is_some());
        assert!(bot.num_users() == num_users);
    };
    test(true);
    test(false);
}

#[test]
fn status_text_counts_other_users() {
    let mut bot = Bot::new();
    bot.add_user("a", "a@example.com");
    bot.add_user("b", "b@example.com");
    bot.add_user("c", "c@example.com");
    assert_eq!(
        bot.status_for("b"),
        "Notifications for you are **enabled**. Besides you, I am notifying another 2 user(s)."
    );
}

#[test]
fn approval_values_get_icons() {
    assert_eq!(format_approval_value("2", "Code-Review"), "\u{1F44D} +2");
    assert_eq!(format_approval_value("+1", "Verified"), "\u{1F44D} +1");
    assert_eq!(format_approval_value("0", "Code-Review"), "\u{1F449} 0");
    assert_eq!(format_approval_value("-1", "Code-Review"), "\u{1F44E} -1");
    assert_eq!(format_approval_value("-128", "Code-Review"), "\u{1F44E} -128");
    assert_eq!(format_approval_value("1", "WaitForVerification"), "\u{231B} +1");
    assert_eq!(format_approval_value("junk", "Code-Review"), "\u{1F449} 0");
    assert_eq!(format_approval_value("128", "Code-Review"), "\u{1F449} 0");
    assert_eq!(format_approval_value("", "Code-Review"), "\u{1F449} 0");
}

fn account(username: &str, email: &str) -> Account {
    Account {
        name: None,
        username: username.to_string(),
        email: Some(email.to_string()),
    }
}

fn event(approvals: Vec<Approval>) -> Event {
    let owner = account("author", "author@example.com");
    Event {
        author: Some(account("approver", "approver@example.com")),
        uploader: None,
        approvals: Some(approvals),
        reviewer: None,
        comment: None,
        patchset: PatchSet {
            number: 1,
            revision: "r".to_string(),
            parents: vec![],
            reference: "refs/changes/1/1/1".to_string(),
            uploader: owner.clone(),
            created_on: 0,
            author: owner.clone(),
            is_draft: false,
            kind: "REWORK".to_string(),
            size_insertions: 0,
            size_deletions: 0,
            comments: None,
        },
        change: Change {
            project: "p".to_string(),
            branch: "master".to_string(),
            id: "I1".to_string(),
            number: 1,
            subject: "Some review.".to_string(),
            topic: None,
            owner,
            url: "http://localhost/42".to_string(),
            commit_message: "Some review.".to_string(),
            status: "NEW".to_string(),
            current_patch_set: None,
            comments: None,
        },
        project: "p".to_string(),
        ref_name: "refs/heads/master".to_string(),
        changekey: ChangeKey { id: "I1".to_string() },
        event_type: EventType::CommentAdded,
        created_on: 0,
    }
}

fn approval(kind: &str, value: &str, old: Option<&str>) -> Approval {
    Approval {
        approval_type: kind.to_string(),
        description: kind.to_string(),
        value: value.to_string(),
        old_value: old.map(|s| s.to_string()),
    }
}

#[test]
fn approvals_message_for_owner() {
    let mut bot = Bot::new();
    bot.add_user("pid", "author@example.com");
    let ev = event(vec![
        approval("Code-Review", "2", Some("-1")),
        approval("Verified", "0", None),
        approval("Verified", "1", None),
    ]);
    let (user, msg) = bot.get_approvals_msg(ev).expect("a message");
    assert_eq!(user.spark_person_id, "pid");
    assert_eq!(
        msg,
        "[Some review.](http://localhost/42) \u{1F44D} +2 (Code-Review) from approver\n\n[Some review.](http://localhost/42) \u{1F44D} +1 (Verified) from approver"
    );
}

#[test]
fn unchanged_votes_are_not_announced() {
    let mut bot = Bot::new();
    bot.add_user("pid", "author@example.com");
    let ev = event(vec![approval("Code-Review", "1", Some("1"))]);
    assert!(bot.get_approvals_msg(ev).is_none());
}

#[test]
fn disabled_owner_is_not_told() {
    let mut bot = Bot::new();
    bot.add_user("pid", "author@example.com");
    bot.enable("pid", "author@example.com", false);
    let ev = event(vec![approval("Code-Review", "2", None)]);
    assert!(bot.get_approvals_msg(ev).is_none());
}

#[test]
fn update_runs_actions() {
    let bot = Bot::new();
    let (bot, task) = update(
        Action::Enable("pid".to_string(), "author@example.com".to_string()),
        bot,
    );
    assert_eq!(bot.num_users(), 1);
    match task {
        Some(Task::ReplyAndSave(r)) => {
            assert_eq!(r.person_id, "pid");
            assert_eq!(r.message, "Got it! Happy reviewing!");
        }
        other => panic!("unexpected task: {:?}", other),
    }
    let (bot, task) = update(Action::Help("pid".to_string()), bot);
    match task {
        Some(Task::Reply(r)) => assert_eq!(r.message, HELP_MSG),
        other => panic!("unexpected task: {:?}", other),
    }
    let ev = event(vec![approval("Code-Review", "-2", None)]);
    let (bot, task) = update(Action::UpdateApprovals(ev), bot);
    match task {
        Some(Task::Reply(r)) => {
            assert_eq!(r.person_id, "pid");
            assert!(r.message.contains("\u{1F44E} -2"));
        }
        other => panic!("unexpected task: {:?}", other),
    }
    let (_bot, task) = update(Action::NoOp, bot);
    assert!(task.is_none());
}

#[test]
fn stream_events_become_actions() {
    let ev = event(vec![approval("Code-Review", "2", None)]);
    assert!(matches!(ev.clone().into_action(), Action::UpdateApprovals(_)));
    let mut no_votes = ev.clone();
    no_votes.approvals = None;
    assert!(matches!(no_votes.into_action(), Action::NoOp));
    let mut invited = ev;
    invited.event_type = EventType::ReviewerAdded;
    assert!(matches!(invited.into_action(), Action::NoOp));
}
