//! The bot's configuration.

use vstd::prelude::*;

verus! {

/// How to reach Gerrit.
#[derive(Clone, Debug)]
pub struct GerritConfig {
    pub host: String,
    pub username: String,
    pub priv_key_path: String,
}

/// Settings of the bot itself.
#[derive(Clone, Debug)]
pub struct BotConfig {
    /// Seconds for which a sent notification is not repeated.
    pub msg_expiration: u64,
    /// Number of sent notifications remembered.
    pub msg_capacity: usize,
    /// A formatting script to use in place of the default one.
    pub format_script: Option<String>,
}

/// Something that a home directory followed by `rest` may look like.
pub open spec fn ends_with(s: Seq<char>, rest: Seq<char>) -> bool {
    rest.len() <= s.len() && s.subrange(s.len() - rest.len(), s.len() as int) == rest
}

/// A path that `shellexpand::tilde` may expand: a leading `~`, alone or
/// before a separator (a backslash counts as one on Windows only).
pub open spec fn expandable(path: Seq<char>) -> bool {
    path.len() > 0 && path[0] == '~' && (path.len() == 1 || path[1] == '/' || path[1] == '\\')
}

/// `shellexpand::tilde`: replaces a leading `~` (alone, or before a
/// separator) by the home directory. Claimed, of every outcome: other paths
/// come back unchanged; an expandable path comes back unchanged (no home
/// directory) or ends with what followed the `~`. Which home directory is
/// used depends on the environment and is not stated.
#[verifier::external_body]
fn expand_tilde(path: &str) -> (r: String)
    ensures
        !expandable(path@) ==> r@ == path@,
        r@ == path@ || ends_with(r@, path@.drop_first()),
{
    shellexpand::tilde(path).into_owned()
}

impl GerritConfig {
    /// Expands a leading `~` in the private key path to the home directory.
    pub fn expand_priv_key_path(&mut self)
        ensures
            final(self).host == old(self).host,
            final(self).username == old(self).username,
            !expandable(old(self).priv_key_path@) ==> final(self).priv_key_path@ == old(self).priv_key_path@,
            final(self).priv_key_path@ == old(self).priv_key_path@
                || ends_with(final(self).priv_key_path@, old(self).priv_key_path@.drop_first()),
    {
        self.priv_key_path = expand_tilde(self.priv_key_path.as_str());
    }
}

impl BotConfig {
    /// The message cache to use, as capacity and expiration in seconds:
    /// none where either setting is zero.
    pub fn message_cache(&self) -> (r: Option<(usize, u64)>)
        ensures
            r == (if self.msg_expiration != 0 && self.msg_capacity != 0 {
                Some((self.msg_capacity, self.msg_expiration))
            } else {
                None
            }),
    {
        if self.msg_expiration != 0 && self.msg_capacity != 0 {
            Some((self.msg_capacity, self.msg_expiration))
        } else {
            None
        }
    }
}

} // verus!
