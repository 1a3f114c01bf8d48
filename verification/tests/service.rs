use std::time::Duration;

use gerritbot::config::{BotConfig, GerritConfig};
use gerritbot::rate_limit::RateLimiter;
use gerritbot::spark::{
    is_own_message, message_webhook, reject_webhook_request, webhooks_to_replace, CreateMessageParameters,
    CreateMessageTarget, EventType, ResourceType, Webhook, METHOD_NOT_ALLOWED, NOT_FOUND,
    UNSUPPORTED_MEDIA_TYPE,
};
use gerritbot::sqs::delete_batch_entries;
use gerritbot::gerrit_events::{ChangeKey, ReviewerAddedEvent};

#[test]
fn webhook_accepts_json_posts_to_root() {
    assert_eq!(
        reject_webhook_request("/", "POST", Some(b"application/json".as_slice())),
        None
    );
    assert_eq!(
        reject_webhook_request("/", "POST", Some(b"application/json; charset=utf-8".as_slice())),
        None
    );
}

#[test]
fn webhook_refusals() {
    assert_eq!(
        reject_webhook_request("/other", "POST", Some(b"application/json".as_slice())),
        Some(NOT_FOUND)
    );
    assert_eq!(
        reject_webhook_request("/", "GET", Some(b"application/json".as_slice())),
        Some(METHOD_NOT_ALLOWED)
    );
    assert_eq!(
        reject_webhook_request("/", "POST", Some(b"text/plain".as_slice())),
        Some(UNSUPPORTED_MEDIA_TYPE)
    );
    assert_eq!(reject_webhook_request("/", "POST", None), Some(UNSUPPORTED_MEDIA_TYPE));
    assert_eq!(NOT_FOUND, 404);
    assert_eq!(METHOD_NOT_ALLOWED, 405);
    assert_eq!(UNSUPPORTED_MEDIA_TYPE, 415);
}

#[test]
fn markdown_message_parameters() {
    let p = CreateMessageParameters::markdown(
        CreateMessageTarget::PersonEmail("a@example.com".to_string()),
        "**hi**".to_string(),
    );
    assert!(p.text.is_none());
    assert_eq!(p.markdown.as_deref(), Some("**hi**"));
}

#[test]
fn sqs_delete_entries_skip_missing_handles() {
    let handles = vec![
        Some("h0".to_string()),
        None,
        Some("h2".to_string()),
        Some("h3".to_string()),
    ];
    let entries = delete_batch_entries(&handles);
    assert_eq!(entries.len(), 3);
    assert_eq!(entries[0].id, "0");
    assert_eq!(entries[0].receipt_handle, "h0");
    assert_eq!(entries[1].id, "1");
    assert_eq!(entries[1].receipt_handle, "h2");
    assert_eq!(entries[2].id, "2");
    assert_eq!(entries[2].receipt_handle, "h3");
    assert!(delete_batch_entries(&[]).is_empty());
}

#[test]
fn sqs_delete_entries_count_past_nine() {
    let handles: Vec<Option<String>> = (0..12).map(|i| Some(format!("h{}", i))).collect();
    let entries = delete_batch_entries(&handles);
    assert_eq!(entries[10].id, "10");
    assert_eq!(entries[11].id, "11");
}

#[test]
fn message_cache_settings() {
    let config = BotConfig {
        msg_expiration: 600,
        msg_capacity: 100,
        format_script: None,
    };
    assert_eq!(config.message_cache(), Some((100, 600)));
    let config = BotConfig {
        msg_expiration: 0,
        msg_capacity: 100,
        format_script: None,
    };
    assert_eq!(config.message_cache(), None);
    let config = BotConfig {
        msg_expiration: 600,
        msg_capacity: 0,
        format_script: None,
    };
    assert_eq!(config.message_cache(), None);
}

#[test]
fn key_path_without_tilde_is_kept() {
    let mut config = GerritConfig {
        host: "localhost:29418".to_string(),
        username: "bot".to_string(),
        priv_key_path: "/etc/keys/id_rsa".to_string(),
    };
    config.expand_priv_key_path();
    assert_eq!(config.priv_key_path, "/etc/keys/id_rsa");
    assert_eq!(config.host, "localhost:29418");
}

#[test]
fn key_path_with_tilde_keeps_the_rest() {
    let mut config = GerritConfig {
        host: "localhost:29418".to_string(),
        username: "bot".to_string(),
        priv_key_path: "~/.ssh/id_rsa".to_string(),
    };
    config.expand_priv_key_path();
    assert!(config.priv_key_path.ends_with("/.ssh/id_rsa"));
    assert!(!config.priv_key_path.starts_with('~'));
}

fn reviewer_added(subject: &str) -> ReviewerAddedEvent {
    let user = gerritbot::gerrit_events::User {
        name: None,
        username: None,
        email: None,
    };
    ReviewerAddedEvent {
        reviewer: user.clone(),
        patchset: gerritbot::gerrit_events::PatchSet {
            number: 1,
            revision: String::new(),
            parents: vec![],
            reference: String::new(),
            uploader: user.clone(),
            created_on: 0,
            author: user.clone(),
            is_draft: false,
            kind: String::new(),
            size_insertions: 0,
            size_deletions: 0,
            comments: None,
            approvals: None,
        },
        change: gerritbot::gerrit_events::Change {
            project: String::new(),
            branch: String::new(),
            id: String::new(),
            number: 1,
            subject: subject.to_string(),
            topic: None,
            owner: user,
            url: String::new(),
            commit_message: String::new(),
            status: String::new(),
            current_patch_set: None,
            comments: None,
        },
        project: String::new(),
        ref_name: String::new(),
        changekey: ChangeKey { id: String::new() },
        created_on: 0,
    }
}

#[test]
fn limiter_without_cache_never_holds_back() {
    let mut rl = RateLimiter::new();
    let e = reviewer_added("A");
    assert!(!rl.limit(0, "A", &e));
    assert!(!rl.limit(0, "A", &e));
}

#[test]
fn limiter_holds_back_repeats_per_user_and_subject() {
    let mut rl = RateLimiter::with_expiry_duration_and_capacity(Duration::from_secs(60).as_millis() as u64, 10);
    let e = reviewer_added("A");
    assert!(!rl.limit(0, "A", &e));
    assert!(rl.limit(0, "A", &e));
    assert!(!rl.limit(1, "A", &e));
    assert!(!rl.limit(0, "B", &e));
}

fn hook(id: &str, resource: ResourceType, event: EventType) -> Webhook {
    Webhook {
        id: id.to_string(),
        name: "h".to_string(),
        target_url: "https://example.com/".to_string(),
        resource,
        event,
    }
}

#[test]
fn only_message_webhooks_are_replaced() {
    let hooks = vec![
        hook("a", ResourceType::Messages, EventType::Created),
        hook("b", ResourceType::Rooms, EventType::Created),
        hook("c", ResourceType::Messages, EventType::Deleted),
        hook("d", ResourceType::Messages, EventType::Created),
    ];
    assert_eq!(webhooks_to_replace(&hooks), vec!["a".to_string(), "d".to_string()]);
    let reg = message_webhook("https://bot.example.com/");
    assert_eq!(reg.name, "gerritbot");
    assert_eq!(reg.target_url, "https://bot.example.com/");
    assert_eq!(reg.resource, ResourceType::Messages);
    assert_eq!(reg.event, EventType::Created);
}

#[test]
fn own_messages_are_recognised() {
    assert!(is_own_message("bot-id", "bot-id"));
    assert!(!is_own_message("person-id", "bot-id"));
}

#[test]
fn single_line_cache_forgets_older_lines() {
    let mut rl = RateLimiter::with_expiry_duration_and_capacity(Duration::from_secs(60).as_millis() as u64, 1);
    let a = reviewer_added("A");
    let b = reviewer_added("B");
    assert!(!rl.limit(0, "A", &a));
    assert!(rl.limit(0, "A", &a));
    assert!(!rl.limit(0, "B", &b));
    assert!(!rl.limit(0, "A", &a));
}
