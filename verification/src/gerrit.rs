//! Gerrit stream events in the flat form `gerrit stream-events` prints them.

use vstd::prelude::*;

verus! {

/// Gerrit user name.
pub type Username = String;

/// A Gerrit account.
#[derive(Clone, Debug)]
pub struct User {
    pub name: Option<String>,
    pub username: Username,
    pub email: Option<String>,
}

/// A vote on a label.
#[derive(Clone, Debug)]
pub struct Approval {
    pub approval_type: String,
    pub description: String,
    pub value: String,
    pub old_value: Option<String>,
}

#[derive(Clone, Debug)]
pub struct PatchSet {
    pub number: u32,
    pub revision: String,
    pub parents: Vec<String>,
    pub reference: String,
    pub uploader: User,
    pub created_on: u32,
    pub author: User,
    pub is_draft: bool,
    pub kind: String,
    pub size_insertions: i32,
    pub size_deletions: i32,
    pub comments: Option<Vec<InlineComment>>,
}

/// A comment on a line of a file.
#[derive(Clone, Debug)]
pub struct InlineComment {
    pub file: String,
    pub line: u32,
    pub reviewer: User,
    pub message: String,
}

#[derive(Clone, Debug)]
pub struct Change {
    pub project: String,
    pub branch: String,
    pub id: String,
    pub number: u32,
    pub subject: String,
    pub topic: Option<String>,
    pub owner: User,
    pub url: String,
    pub commit_message: String,
    pub status: String,
    pub current_patch_set: Option<PatchSet>,
    pub comments: Option<Vec<Comment>>,
}

/// A review message on a change.
#[derive(Clone, Debug)]
pub struct Comment {
    pub timestamp: u64,
    pub reviewer: User,
    pub message: String,
}

#[derive(Clone, Debug)]
pub struct ChangeKey {
    pub id: String,
}

/// The kinds of events the stream is asked for.
#[derive(Copy, Clone, Debug, PartialEq, Eq, Structural)]
pub enum EventType {
    ReviewerAdded,
    CommentAdded,
}

/// A stream event: only comments and invitations to a change are taken, by design.
#[derive(Clone, Debug)]
pub struct Event {
    pub author: Option<User>,
    pub uploader: Option<User>,
    pub approvals: Option<Vec<Approval>>,
    pub reviewer: Option<User>,
    pub comment: Option<String>,
    pub patchset: PatchSet,
    pub change: Change,
    pub project: String,
    pub ref_name: String,
    pub changekey: ChangeKey,
    pub event_type: EventType,
    pub created_on: u32,
}

impl Event {
    /// The action of the person-id bot for this event: votes in a comment
    /// are announced; that bot has no action for anything else, invitations
    /// to a change included.
    pub fn into_action(self) -> (r: crate::spark_bot::Action)
        ensures
            (self.event_type == EventType::CommentAdded && self.approvals is Some) ==> r == crate::spark_bot::Action::UpdateApprovals(self),
            !(self.event_type == EventType::CommentAdded && self.approvals is Some) ==> r is NoOp,
    {
        if self.event_type == EventType::CommentAdded && self.approvals.is_some() {
            crate::spark_bot::Action::UpdateApprovals(self)
        } else {
            crate::spark_bot::Action::NoOp
        }
    }
}

/// A change fetched again for a user, with the message that asked for it.
#[derive(Clone, Debug)]
pub struct ChangeDetails {
    pub user: String,
    pub message: String,
    pub change: Change,
}

} // verus!
