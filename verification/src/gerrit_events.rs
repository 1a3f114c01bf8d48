//! Gerrit stream events, one type per kind of event the bot reacts to.

use vstd::prelude::*;

verus! {

/// A Gerrit account as it appears in events.
#[derive(Clone, Debug)]
pub struct User {
    pub name: Option<String>,
    pub username: Option<String>,
    pub email: Option<String>,
}

/// A vote on a label, such as `Code-Review +2`.
#[derive(Clone, Debug)]
pub struct Approval {
    pub approval_type: String,
    pub description: Option<String>,
    pub value: String,
    pub old_value: Option<String>,
    pub by: Option<User>,
}

/// A comment on a line of a file.
#[derive(Clone, Debug)]
pub struct InlineComment {
    pub file: String,
    pub line: u32,
    pub reviewer: User,
    pub message: String,
}

#[derive(Clone, Debug)]
pub struct PatchSet {
    pub number: u32,
    pub revision: String,
    pub parents: Vec<String>,
    pub reference: String,
    pub uploader: User,
    pub created_on: u32,
    pub author: User,
    pub is_draft: bool,
    pub kind: String,
    pub size_insertions: i32,
    pub size_deletions: i32,
    pub comments: Option<Vec<InlineComment>>,
    pub approvals: Option<Vec<Approval>>,
}

/// A review message on a change.
#[derive(Clone, Debug)]
pub struct Comment {
    pub timestamp: u64,
    pub reviewer: User,
    pub message: String,
}

#[derive(Clone, Debug)]
pub struct Change {
    pub project: String,
    pub branch: String,
    pub id: String,
    pub number: u32,
    pub subject: String,
    pub topic: Option<String>,
    pub owner: User,
    pub url: String,
    pub commit_message: String,
    pub status: String,
    pub current_patch_set: Option<PatchSet>,
    pub comments: Option<Vec<Comment>>,
}

#[derive(Clone, Debug)]
pub struct ChangeKey {
    pub id: String,
}

/// Someone commented on a change, possibly with votes.
#[derive(Clone, Debug)]
pub struct CommentAddedEvent {
    pub author: User,
    pub approvals: Option<Vec<Approval>>,
    pub comment: String,
    pub patchset: PatchSet,
    pub change: Change,
    pub project: String,
    pub ref_name: String,
    pub changekey: ChangeKey,
    pub created_on: u32,
}

/// Someone was invited to a change.
#[derive(Clone, Debug)]
pub struct ReviewerAddedEvent {
    pub reviewer: User,
    pub patchset: PatchSet,
    pub change: Change,
    pub project: String,
    pub ref_name: String,
    pub changekey: ChangeKey,
    pub created_on: u32,
}

/// A change was merged.
#[derive(Clone, Debug)]
pub struct ChangeMergedEvent {
    pub submitter: User,
    pub new_rev: String,
    pub patchset: PatchSet,
    pub change: Change,
    pub project: String,
    pub ref_name: String,
    pub changekey: ChangeKey,
    pub created_on: u32,
}

/// A change was abandoned.
#[derive(Clone, Debug)]
pub struct ChangeAbandonedEvent {
    pub abandoner: User,
    pub reason: Option<String>,
    pub patchset: PatchSet,
    pub change: Change,
    pub project: String,
    pub ref_name: String,
    pub changekey: ChangeKey,
    pub created_on: u32,
}

/// The events the bot subscribes to.
#[derive(Clone, Debug)]
pub enum Event {
    CommentAdded(CommentAddedEvent),
    ReviewerAdded(ReviewerAddedEvent),
    ChangeMerged(ChangeMergedEvent),
    ChangeAbandoned(ChangeAbandonedEvent),
}

/// Additional information that can be queried from Gerrit for an event.
#[derive(Copy, Clone, Debug, PartialEq, Eq, Structural)]
pub enum ExtendedInfo {
    InlineComments,
    AllApprovals,
    SubmitRecords,
}

} // verus!
