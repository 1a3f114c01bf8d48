//! Build information the bot reports on request.

use vstd::prelude::*;

verus! {

/// What the `version` command reports.
#[derive(Clone, Debug)]
pub struct VersionInfo {
    pub package_name: String,
    pub package_version: String,
    pub git_commit_id: String,
    pub ci_commit_id: Option<String>,
    pub target_triple: String,
    pub build_date: String,
    pub rustc_version: String,
}

} // verus!
