use gerritbot::bot::{Builder, Recipient, Task};
use gerritbot::command::Command;
use gerritbot::flags::UserFlag;
use gerritbot::state::State;
use gerritbot::user::{Filter, User};

fn emails(state: &State) -> Vec<String> {
    state.users.iter().map(|u| u.email.clone()).collect()
}

#[test]
fn enabling_twice_is_enabling_once() {
    let mut state = State::new();
    state.add_user("a@example.com");
    state.enable("a@example.com", false);
    let once = format!("{:?}", state.users);
    state.enable("a@example.com", false);
    assert_eq!(format!("{:?}", state.users), once);
}

#[test]
fn settings_are_seen_by_lookups() {
    let mut state = State::new();
    state.enable("a@example.com", false);
    assert!(!state.find_user("a@example.com").unwrap().enabled);
    state.set_flag("a@example.com", UserFlag::NotifyChangeAbandoned, true);
    assert!(state
        .find_user("a@example.com")
        .unwrap()
        .flags
        .contains(UserFlag::NotifyChangeAbandoned));
    assert!(state.add_filter("a@example.com", "^WIP").is_ok());
    assert_eq!(state.get_filter("a@example.com"), Some(("^WIP", true)));
    assert_eq!(state.enable_and_get_filter("a@example.com", false), Some("^WIP"));
    assert_eq!(state.get_filter("a@example.com"), Some(("^WIP", false)));
    assert_eq!(state.enable_and_get_filter("b@example.com", true), None);
    assert_eq!(state.get_filter("b@example.com"), None);
}

#[test]
fn commands_keep_emails_unique() {
    let mut bot = Builder::new(State::new()).build();
    let commands = vec![
        Command::Enable,
        Command::Disable,
        Command::FilterAdd("x".to_string()),
        Command::FilterAdd("[".to_string()),
        Command::FilterEnable(true),
        Command::SetFlag(UserFlag::NotifyReviewComments, true),
        Command::Status,
    ];
    for command in commands {
        let tasks = bot.run_command("a@example.com".to_string(), command);
        // every command is answered, last, to its sender
        match tasks.last().unwrap() {
            Task::Reply(r) => assert_eq!(r.email, "a@example.com"),
            Task::Format(job) => {
                assert_eq!(job.recipients.len(), 1);
                assert_eq!(job.recipients[0].email, "a@example.com");
            }
            Task::Save => panic!("the last task is no answer"),
        }
    }
    assert_eq!(emails(&bot.state), vec!["a@example.com".to_string()]);
}

#[test]
fn white_space_around_commands_is_ignored() {
    for (text, padded) in [("status", " \t status \u{3000}\n"), ("filter a b", "\u{a0}filter a b ")] {
        let plain = format!("{:?}", Command::from_str(text));
        assert_eq!(format!("{:?}", Command::from_str(padded)), plain);
    }
}

#[test]
fn recipient_filter_agrees_with_state() {
    let state = State::new();
    let user = User {
        spark_person_id: None,
        email: "a@example.com".to_string(),
        flags: Default::default(),
        enabled: true,
        filter: Some(Filter {
            regex: "Verified".to_string(),
            enabled: true,
        }),
    };
    let recipient = Recipient {
        email: user.email.clone(),
        flags: None,
        filter: Some("Verified".to_string()),
    };
    for msg in ["+1 (Verified)", "+2 (Code-Review)"] {
        let held = recipient.finish(Some(msg.to_string())).is_none();
        assert_eq!(held, state.is_filtered(&user, msg));
    }
}

#[test]
fn trimmed_text_is_the_same_command() {
    for text in ["  Enable\n", "FILTER disable", "filter  x ", "nonsense", "\tfilter\t"] {
        assert_eq!(
            format!("{:?}", Command::from_str(text)),
            format!("{:?}", Command::from_str(text.trim()))
        );
    }
    assert!(Command::from_str("nonsense").is_err());
    assert!(Command::from_str("filter\nx").is_err());
}

#[test]
fn reached_states_have_unique_emails() {
    let mut state = State::new();
    state.add_user("a@example.com");
    state.enable("b@example.com", false);
    state.set_flag("a@example.com", UserFlag::NotifyChangeMerged, true);
    state.reset_flags("b@example.com");
    assert!(state.add_filter("c@example.com", "x").is_ok());
    assert_eq!(state.enable_and_get_filter("c@example.com", false), Some("x"));
    let mut all = emails(&state);
    all.sort();
    all.dedup();
    assert_eq!(all.len(), state.num_users());
    for email in ["a@example.com", "b@example.com", "c@example.com"] {
        let first = state.users.iter().position(|u| u.email == email);
        assert_eq!(state.user_index(email), first);
    }
}
