//! A user of the bot and the settings kept for them.

use vstd::prelude::*;

use crate::flags::{UserFlag, UserFlags};

verus! {

/// A message filter: messages matching the regular expression are not sent
/// while the filter is enabled.
#[derive(Clone, Debug)]
pub struct Filter {
    /// The regular expression, in `regex` crate syntax.
    pub regex: String,
    pub enabled: bool,
}

/// A user known to the bot, identified by email.
#[derive(Clone, Debug)]
pub struct User {
    /// Legacy attribute, kept so it survives loading and saving.
    pub spark_person_id: Option<String>,
    /// Email of the user; assumed to be the same in Spark and Gerrit.
    pub email: String,
    pub flags: UserFlags,
    pub enabled: bool,
    pub filter: Option<Filter>,
}

/// `u` is a user just created for `email`: enabled, default flags, no filter.
pub open spec fn is_fresh_user(u: User, email: Seq<char>) -> bool {
    &&& u.spark_person_id is None
    &&& u.email@ == email
    &&& u.flags is Default
    &&& u.enabled
    &&& u.filter is None
}

/// The user has at least one of `flags` and is enabled.
pub open spec fn has_any_flag_spec(u: User, flags: Seq<UserFlag>) -> bool {
    u.enabled && exists|i: int| 0 <= i < flags.len() && u.flags@.contains(#[trigger] flags[i])
}

/// The user is enabled and has `flag`.
pub open spec fn has_flag_spec(u: User, flag: UserFlag) -> bool {
    u.enabled && u.flags@.contains(flag)
}

impl User {
    /// A new enabled user with the default flags and no filter.
    pub fn new(email: String) -> (u: User)
        ensures
            is_fresh_user(u, email@),
    {
        User { spark_person_id: None, email, filter: None, enabled: true, flags: UserFlags::Default }
    }

    pub fn email(&self) -> (r: &str)
        ensures
            r@ == self.email@,
    {
        self.email.as_str()
    }

    /// Whether the user is enabled and has any of the given flags.
    pub fn has_any_flag(&self, flags: &[UserFlag]) -> (r: bool)
        ensures
            r == has_any_flag_spec(*self, flags@),
    {
        if !self.enabled {
            return false;
        }
        let mut i: usize = 0;
        while i < flags.len()
            invariant
                self.enabled,
                i <= flags@.len(),
                forall|j: int| 0 <= j < i ==> !self.flags@.contains(#[trigger] flags@[j]),
            decreases flags@.len() - i,
        {
            if self.flags.contains(flags[i]) {
                assert(self.flags@.contains(flags@[i as int]));
                return true;
            }
            i = i + 1;
        }
        false
    }

    /// Whether the user is enabled and has the given flag.
    pub fn has_flag(&self, flag: UserFlag) -> (r: bool)
        ensures
            r == has_flag_spec(*self, flag),
    {
        let one = [flag];
        let r = self.has_any_flag(&one);
        assert(one@[0] == flag);
        r
    }

    pub fn filter(&self) -> (r: Option<&Filter>)
        ensures
            r is Some == self.filter is Some,
            r matches Some(f) ==> self.filter == Some(*f),
    {
        self.filter.as_ref()
    }

    pub fn set_enabled(&mut self, enabled: bool)
        ensures
            *final(self) == (User { enabled, ..*old(self) }),
    {
        self.enabled = enabled;
    }

    pub fn reset_flags(&mut self)
        ensures
            final(self).flags is Default,
            *final(self) == (User { flags: final(self).flags, ..*old(self) }),
    {
        self.flags.reset();
    }

    pub fn set_flag(&mut self, flag: UserFlag, value: bool)
        ensures
            final(self).flags is Custom,
            final(self).flags@ == (if value { old(self).flags@.insert(flag) } else { old(self).flags@.remove(flag) }),
            *final(self) == (User { flags: final(self).flags, ..*old(self) }),
    {
        self.flags.set(flag, value);
    }

    pub fn set_filter(&mut self, filter: Filter)
        ensures
            *final(self) == (User { filter: Some(filter), ..*old(self) }),
    {
        self.filter = Some(filter);
    }

    /// Enables or disables the filter, if there is one.
    pub fn set_filter_enabled(&mut self, enabled: bool)
        ensures
            *final(self) == (User {
                filter: match old(self).filter {
                    Some(f) => Some(Filter { enabled, ..f }),
                    None => None,
                },
                ..*old(self)
            }),
    {
        match &mut self.filter {
            Some(f) => {
                f.enabled = enabled;
            },
            None => {},
        }
    }
}

} // verus!
