use gerritbot::gerrit::{Change, ChangeDetails, PatchSet, User};
use gerritbot::session::{
    get_patch_set_query, FetchAction, FetchEvent, Fetcher, Runner, RunnerAction, RunnerEvent,
    stream_events_command, StreamAction, StreamEvent, Streamer,
};

fn step(r: Runner, e: RunnerEvent) -> (Runner, RunnerAction) {
    assert!(r.accepts(&e));
    r.step(e)
}

#[test]
fn runner_runs_a_command() {
    let (r, a) = Runner::start();
    assert!(matches!(a, RunnerAction::ReceiveRequest));
    let (r, a) = step(r, RunnerEvent::Request(Some("gerrit version".to_string())));
    assert!(matches!(a, RunnerAction::OpenChannel));
    let (r, a) = step(r, RunnerEvent::ChannelOpened(Ok(())));
    match a {
        RunnerAction::Exec(c) => assert_eq!(c, "gerrit version"),
        other => panic!("unexpected action: {:?}", other),
    }
    let (r, a) = step(r, RunnerEvent::Executed(Ok(())));
    assert!(matches!(a, RunnerAction::ReadOutput));
    let (r, a) = step(r, RunnerEvent::OutputRead(Ok("gerrit version 3.1".to_string())));
    assert!(matches!(a, RunnerAction::CloseChannel));
    let (r, a) = step(r, RunnerEvent::ChannelClosed(Ok(0)));
    match a {
        RunnerAction::Reply(Ok(out)) => assert_eq!(out, "gerrit version 3.1"),
        other => panic!("unexpected action: {:?}", other),
    }
    let (r, a) = step(r, RunnerEvent::Replied(true));
    assert!(matches!(a, RunnerAction::ReceiveRequest));
    let (r, a) = step(r, RunnerEvent::Request(None));
    assert!(matches!(a, RunnerAction::Stop));
    assert!(matches!(r, Runner::Stopped));
    assert!(!r.accepts(&RunnerEvent::Request(None)));
}

#[test]
fn runner_reconnects_when_no_channel_opens() {
    let (r, _) = Runner::start();
    let (r, _) = step(r, RunnerEvent::Request(Some("ls".to_string())));
    let (r, a) = step(r, RunnerEvent::ChannelOpened(Err("broken pipe".to_string())));
    assert!(matches!(a, RunnerAction::Reconnect));
    let (r, a) = step(r, RunnerEvent::Reconnected(Ok(())));
    assert!(matches!(a, RunnerAction::OpenChannel));
    let (_, a) = step(r, RunnerEvent::ChannelOpened(Ok(())));
    match a {
        RunnerAction::Exec(c) => assert_eq!(c, "ls"),
        other => panic!("unexpected action: {:?}", other),
    }
}

#[test]
fn runner_reports_failures() {
    let (r, _) = Runner::start();
    let (r, _) = step(r, RunnerEvent::Request(Some("ls".to_string())));
    let (r, _) = step(r, RunnerEvent::ChannelOpened(Ok(())));
    let (r, a) = step(r, RunnerEvent::Executed(Err("denied".to_string())));
    match a {
        RunnerAction::Reply(Err(m)) => assert_eq!(m, "failed to request exec channel: denied"),
        other => panic!("unexpected action: {:?}", other),
    }
    let (r, _) = step(r, RunnerEvent::Replied(true));
    let (r, _) = step(r, RunnerEvent::Request(Some("ls".to_string())));
    let (r, _) = step(r, RunnerEvent::ChannelOpened(Ok(())));
    let (r, _) = step(r, RunnerEvent::Executed(Ok(())));
    let (r, a) = step(r, RunnerEvent::OutputRead(Err("eof".to_string())));
    match a {
        RunnerAction::Reply(Err(m)) => assert_eq!(m, "failed to read from channel: eof"),
        other => panic!("unexpected action: {:?}", other),
    }
    let (r, _) = step(r, RunnerEvent::Replied(true));
    let (r, _) = step(r, RunnerEvent::Request(Some("ls".to_string())));
    let (r, _) = step(r, RunnerEvent::ChannelOpened(Ok(())));
    let (r, _) = step(r, RunnerEvent::Executed(Ok(())));
    let (r, _) = step(r, RunnerEvent::OutputRead(Ok(String::new())));
    let (r, a) = step(r, RunnerEvent::ChannelClosed(Ok(-2)));
    match a {
        RunnerAction::Reply(Err(m)) => assert_eq!(m, "command exited with status -2"),
        other => panic!("unexpected action: {:?}", other),
    }
    let (r, _) = step(r, RunnerEvent::Replied(true));
    let (r, _) = step(r, RunnerEvent::Request(Some("ls".to_string())));
    let (r, _) = step(r, RunnerEvent::ChannelOpened(Ok(())));
    let (r, _) = step(r, RunnerEvent::Executed(Ok(())));
    let (r, _) = step(r, RunnerEvent::OutputRead(Ok(String::new())));
    let (r, a) = step(r, RunnerEvent::ChannelClosed(Err("timeout".to_string())));
    match a {
        RunnerAction::Reply(Err(m)) => assert_eq!(m, "failed to close command channel: timeout"),
        other => panic!("unexpected action: {:?}", other),
    }
    let (_, a) = step(r, RunnerEvent::Replied(false));
    assert!(matches!(a, RunnerAction::Stop));
}

#[test]
fn runner_stops_when_reconnecting_fails() {
    let (r, _) = Runner::start();
    let (r, _) = step(r, RunnerEvent::Request(Some("ls".to_string())));
    let (r, _) = step(r, RunnerEvent::ChannelOpened(Err("gone".to_string())));
    let (r, a) = step(r, RunnerEvent::Reconnected(Err("gave up".to_string())));
    assert!(matches!(a, RunnerAction::Stop));
    assert!(matches!(r, Runner::Stopped));
}

fn sstep(s: Streamer, e: StreamEvent) -> (Streamer, StreamAction) {
    assert!(s.accepts(&e));
    s.step(e)
}

#[test]
fn streamer_forwards_lines_and_reconnects() {
    let (s, a) = Streamer::start();
    assert!(matches!(a, StreamAction::Connect));
    let (s, a) = sstep(s, StreamEvent::Connected(Ok(())));
    assert!(matches!(a, StreamAction::OpenChannel));
    let (s, a) = sstep(s, StreamEvent::ChannelOpened(Ok(())));
    match a {
        StreamAction::Exec(c) => assert_eq!(c, stream_events_command()),
        other => panic!("unexpected action: {:?}", other),
    }
    let (s, a) = sstep(s, StreamEvent::Started(Ok(())));
    assert!(matches!(a, StreamAction::ReadLine));
    let (s, a) = sstep(s, StreamEvent::LineRead(Some(Ok("{}".to_string()))));
    match a {
        StreamAction::Forward(l) => assert_eq!(l, "{}"),
        other => panic!("unexpected action: {:?}", other),
    }
    let (s, a) = sstep(s, StreamEvent::Forwarded(true));
    assert!(matches!(a, StreamAction::ReadLine));
    let (s, a) = sstep(s, StreamEvent::LineRead(None));
    assert!(matches!(a, StreamAction::Connect));
    let (s, _) = sstep(s, StreamEvent::Connected(Ok(())));
    let (s, _) = sstep(s, StreamEvent::ChannelOpened(Ok(())));
    let (s, _) = sstep(s, StreamEvent::Started(Ok(())));
    let (s, a) = sstep(s, StreamEvent::LineRead(Some(Err(()))));
    assert!(matches!(a, StreamAction::Connect));
    let (s, _) = sstep(s, StreamEvent::Connected(Ok(())));
    let (s, _) = sstep(s, StreamEvent::ChannelOpened(Ok(())));
    let (s, _) = sstep(s, StreamEvent::Started(Ok(())));
    let (s, _) = sstep(s, StreamEvent::LineRead(Some(Ok("x".to_string()))));
    let (_, a) = sstep(s, StreamEvent::Forwarded(false));
    assert!(matches!(a, StreamAction::Connect));
}

#[test]
fn streamer_terminates_on_setup_failures() {
    let (s, _) = Streamer::start();
    let (s, a) = sstep(s, StreamEvent::Connected(Err("refused".to_string())));
    match a {
        StreamAction::Terminate(m) => assert_eq!(m, "Could not connect to Gerrit: refused"),
        other => panic!("unexpected action: {:?}", other),
    }
    assert!(matches!(s, Streamer::Stopped));

    let (s, _) = Streamer::start();
    let (s, _) = sstep(s, StreamEvent::Connected(Ok(())));
    let (_, a) = sstep(s, StreamEvent::ChannelOpened(Err("no".to_string())));
    match a {
        StreamAction::Terminate(m) => assert_eq!(m, "Could not open SSH channel: no"),
        other => panic!("unexpected action: {:?}", other),
    }

    let (s, _) = Streamer::start();
    let (s, _) = sstep(s, StreamEvent::Connected(Ok(())));
    let (s, _) = sstep(s, StreamEvent::ChannelOpened(Ok(())));
    let (_, a) = sstep(s, StreamEvent::Started(Err("denied".to_string())));
    match a {
        StreamAction::Terminate(m) => assert_eq!(
            m,
            "Could not execute gerrit stream-event command over ssh: denied"
        ),
        other => panic!("unexpected action: {:?}", other),
    }
}

fn account() -> User {
    User {
        name: None,
        username: "admin".to_string(),
        email: Some("admin@example.com".to_string()),
    }
}

fn patchset(number: u32) -> PatchSet {
    PatchSet {
        number,
        revision: "r".to_string(),
        parents: vec![],
        reference: "refs/changes/01/1/1".to_string(),
        uploader: account(),
        created_on: 0,
        author: account(),
        is_draft: false,
        kind: "REWORK".to_string(),
        size_insertions: 2,
        size_deletions: -2,
        comments: None,
    }
}

fn request() -> ChangeDetails {
    ChangeDetails {
        user: "u@example.com".to_string(),
        message: "hello".to_string(),
        change: Change {
            project: "gerritbot-rs".to_string(),
            branch: "master".to_string(),
            id: "If70442f674c595a59f3e44280570e760ba3584c4".to_string(),
            number: 1,
            subject: "Bump version to 0.6.0".to_string(),
            topic: None,
            owner: account(),
            url: "http://localhost:8080/1".to_string(),
            commit_message: "Bump version".to_string(),
            status: "NEW".to_string(),
            current_patch_set: None,
            comments: None,
        },
    }
}

#[test]
fn stream_command_names_event_types_in_kebab_case() {
    let c = stream_events_command();
    assert!(c.starts_with("gerrit stream-events -s comment-added -s "));
    assert!(c.ends_with("er-added"));
    assert_eq!(c.split(" -s ").count(), 3);
    assert_eq!(c.len(), "gerrit stream-events -s comment-added -s ".len() + 14);
}

#[test]
fn patch_set_query_names_the_change() {
    assert_eq!(
        get_patch_set_query("I1"),
        "gerrit query --format JSON --current-patch-set --comments I1"
    );
}

#[test]
fn fetcher_completes_the_change() {
    let (f, a) = Fetcher::start(request());
    assert!(matches!(a, FetchAction::OpenChannel));
    assert!(f.accepts(&FetchEvent::ChannelOpened(Ok(()))));
    let (f, a) = f.step(FetchEvent::ChannelOpened(Ok(())));
    match a {
        FetchAction::Fetch(q) => assert_eq!(
            q,
            "gerrit query --format JSON --current-patch-set --comments If70442f674c595a59f3e44280570e760ba3584c4"
        ),
        other => panic!("unexpected action: {:?}", other),
    }
    let (_, a) = f.step(FetchEvent::Fetched(Some(patchset(3))));
    match a {
        FetchAction::Finish(Ok(details)) => {
            assert_eq!(details.user, "u@example.com");
            assert_eq!(details.message, "hello");
            assert_eq!(details.change.current_patch_set.map(|p| p.number), Some(3));
            assert_eq!(details.change.subject, "Bump version to 0.6.0");
        }
        other => panic!("unexpected action: {:?}", other),
    }
}

#[test]
fn fetcher_reconnects_once() {
    let (f, _) = Fetcher::start(request());
    let (f, a) = f.step(FetchEvent::ChannelOpened(Err("lost".to_string())));
    assert!(matches!(a, FetchAction::Reconnect));
    let (f, a) = f.step(FetchEvent::Reconnected(Ok(())));
    assert!(matches!(a, FetchAction::OpenChannel));
    let (_, a) = f.step(FetchEvent::ChannelOpened(Err("still lost".to_string())));
    match a {
        FetchAction::Finish(Err(m)) => assert_eq!(
            m,
            "Failed to reconnect to Gerrit over SSH for sending commands: still lost"
        ),
        other => panic!("unexpected action: {:?}", other),
    }

    let (f, _) = Fetcher::start(request());
    let (f, _) = f.step(FetchEvent::ChannelOpened(Err("lost".to_string())));
    let (_, a) = f.step(FetchEvent::Reconnected(Err("refused".to_string())));
    match a {
        FetchAction::Finish(Err(m)) => assert_eq!(m, "Failed to reconnect to Gerrit over SSH: refused"),
        other => panic!("unexpected action: {:?}", other),
    }
}

#[test]
fn fetcher_without_patch_set_keeps_none() {
    let (f, _) = Fetcher::start(request());
    let (f, _) = f.step(FetchEvent::ChannelOpened(Ok(())));
    let (_, a) = f.step(FetchEvent::Fetched(None));
    match a {
        FetchAction::Finish(Ok(details)) => assert!(details.change.current_patch_set.is_none()),
        other => panic!("unexpected action: {:?}", other),
    }
}
