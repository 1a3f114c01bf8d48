//! The bot's persistent state: the users and their settings.

use vstd::prelude::*;

use crate::flags::UserFlag;
use crate::pattern::{check_regex, regex_compiles, regex_is_match, regex_matches};
use crate::text::string_from;
use crate::user::{is_fresh_user, Filter, User};

verus! {

/// Users in the order they were added. Emails are meant to be unique, but
/// nothing forces them to be: lookups by email see the latest user with that
/// email, while the settings commands act on the earliest one.
#[derive(Clone, Debug)]
pub struct State {
    pub users: Vec<User>,
}

/// Some user has this email.
pub open spec fn has_user(users: Seq<User>, email: Seq<char>) -> bool {
    exists|i: int| 0 <= i < users.len() && #[trigger] users[i].email@ == email
}

/// `i` is the first position of a user with this email.
pub open spec fn is_first_match(users: Seq<User>, email: Seq<char>, i: int) -> bool {
    &&& 0 <= i < users.len()
    &&& users[i].email@ == email
    &&& forall|j: int| 0 <= j < i ==> #[trigger] users[j].email@ != email
}

/// `i` is the last position of a user with this email.
pub open spec fn is_last_match(users: Seq<User>, email: Seq<char>, i: int) -> bool {
    &&& 0 <= i < users.len()
    &&& users[i].email@ == email
    &&& forall|j: int| i < j < users.len() ==> #[trigger] users[j].email@ != email
}

/// First position of a user with this email (meaningful when there is one).
pub open spec fn first_match(users: Seq<User>, email: Seq<char>) -> int {
    choose|i: int| is_first_match(users, email, i)
}

/// Last position of a user with this email (meaningful when there is one).
pub open spec fn last_match(users: Seq<User>, email: Seq<char>) -> int {
    choose|i: int| is_last_match(users, email, i)
}

/// The position the settings commands act on: the first user with this
/// email, or a new user at the end.
pub open spec fn target(users: Seq<User>, email: Seq<char>) -> int {
    if has_user(users, email) {
        first_match(users, email)
    } else {
        users.len() as int
    }
}

/// `new` is `old` after making sure a user with `email` exists, changing at
/// most the user at the target position.
pub open spec fn only_target_changed(old: Seq<User>, new: Seq<User>, email: Seq<char>) -> bool {
    &&& new.len() == (if has_user(old, email) { old.len() } else { old.len() + 1 })
    &&& forall|j: int| 0 <= j < old.len() && j != target(old, email) ==> new[j] == old[j]
}

/// `u` is the target user before the change: the existing one, or a fresh one.
pub open spec fn target_before(old: Seq<User>, email: Seq<char>, u: User) -> bool {
    if has_user(old, email) {
        u == old[first_match(old, email)]
    } else {
        is_fresh_user(u, email)
    }
}

/// The user a lookup by email finds: the last one with that email.
pub open spec fn lookup(users: Seq<User>, email: Seq<char>) -> Option<User> {
    if has_user(users, email) {
        Some(users[last_match(users, email)])
    } else {
        None
    }
}

/// The filter a lookup by email reports: its pattern and whether it is enabled.
pub open spec fn filter_of(users: Seq<User>, email: Seq<char>) -> Option<(Seq<char>, bool)> {
    match lookup(users, email) {
        Some(u) => match u.filter {
            Some(f) => Some((f.regex@, f.enabled)),
            None => None,
        },
        None => None,
    }
}

/// A message to `u` is held back by the user's filter.
pub open spec fn filtered(u: User, msg: Seq<char>) -> bool {
    match u.filter {
        Some(f) => f.enabled && regex_compiles(f.regex@) && regex_matches(f.regex@, msg),
        None => false,
    }
}

/// Every stored filter is a regular expression that compiles.
pub open spec fn filters_compile(users: Seq<User>) -> bool {
    forall|i: int| 0 <= i < users.len() ==> (#[trigger] users[i].filter matches Some(f) ==> regex_compiles(f.regex@))
}

/// `new` is `old` after turning notifications for `email` on or off: the
/// target user (an existing one, or a fresh one) changes only in that.
pub open spec fn enable_result(old: Seq<User>, new: Seq<User>, email: Seq<char>, enabled: bool) -> bool {
    &&& only_target_changed(old, new, email)
    &&& exists|b: User| #![trigger target_before(old, email, b)]
        target_before(old, email, b) && new[target(old, email)] == (User { enabled, ..b })
}

/// `new` is `old` after resetting the flags of the user with `email` to the
/// defaults: the target user changes only in its flags.
pub open spec fn reset_flags_result(old: Seq<User>, new: Seq<User>, email: Seq<char>) -> bool {
    &&& only_target_changed(old, new, email)
    &&& new[target(old, email)].flags is Default
    &&& exists|b: User| #![trigger target_before(old, email, b)]
        target_before(old, email, b) && new[target(old, email)] == (User { flags: new[target(old, email)].flags, ..b })
}

/// `new` is `old` with a user for `email` appended, as `add_user` leaves it.
pub open spec fn add_user_result(old: Seq<User>, new: Seq<User>, email: Seq<char>) -> bool {
    &&& new.len() == old.len() + 1
    &&& new.subrange(0, old.len() as int) == old
    &&& new[old.len() as int].email@ == email
}

/// An operation on the users.
pub enum StateOp {
    /// `add_user` of an email no user has yet.
    AddNewUser { email: Seq<char> },
    Enable { email: Seq<char>, enabled: bool },
    SetFlag { email: Seq<char>, flag: UserFlag, value: bool },
    ResetFlags { email: Seq<char> },
    /// `add_filter` of a pattern.
    AddFilter { email: Seq<char>, pattern: Seq<char> },
    /// `enable_and_get_filter`, and the pattern it reported.
    EnableFilter { email: Seq<char>, enabled: bool, reported: Option<Seq<char>> },
}

/// `new` is `old` after the operation, as its function states.
pub open spec fn state_step(old: Seq<User>, new: Seq<User>, op: StateOp) -> bool {
    match op {
        StateOp::AddNewUser { email } => !has_user(old, email) && add_user_result(old, new, email),
        StateOp::Enable { email, enabled } => enable_result(old, new, email, enabled),
        StateOp::SetFlag { email, flag, value } => set_flag_result(old, new, email, flag, value),
        StateOp::ResetFlags { email } => reset_flags_result(old, new, email),
        StateOp::AddFilter { email, pattern } => add_filter_result(old, new, email, pattern, regex_compiles(pattern)),
        StateOp::EnableFilter { email, enabled, reported } => filter_enable_result(old, new, email, enabled, reported),
    }
}

/// `states` are the users after each of `ops`, starting without users.
pub open spec fn state_run(states: Seq<Seq<User>>, ops: Seq<StateOp>) -> bool {
    &&& states.len() == ops.len() + 1
    &&& states[0].len() == 0
    &&& forall|i: int| #![trigger ops[i]] 0 <= i < ops.len() ==> state_step(states[i], states[i + 1], ops[i])
}

/// `new` is `old` after setting (`value`) or clearing one flag of the user
/// with `email`: the target user changes only in its flags.
pub open spec fn set_flag_result(old: Seq<User>, new: Seq<User>, email: Seq<char>, flag: UserFlag, value: bool) -> bool {
    &&& only_target_changed(old, new, email)
    &&& exists|b: User| #![trigger target_before(old, email, b)]
        target_before(old, email, b)
        && new[target(old, email)].flags@ == (if value { b.flags@.insert(flag) } else { b.flags@.remove(flag) })
        && new[target(old, email)] == (User { flags: new[target(old, email)].flags, ..b })
}

/// `new` is `old` after adding the filter `pattern` for `email`: the target
/// user exists afterwards, and gets the pattern as an enabled filter where
/// it compiles (`ok`), and is otherwise unchanged.
pub open spec fn add_filter_result(old: Seq<User>, new: Seq<User>, email: Seq<char>, pattern: Seq<char>, ok: bool) -> bool {
    &&& only_target_changed(old, new, email)
    &&& exists|b: User| #![trigger target_before(old, email, b)]
        target_before(old, email, b) && new[target(old, email)] == (if ok {
            User { filter: Some(Filter { regex: new[target(old, email)].filter->0.regex, enabled: true }), ..b }
        } else {
            b
        })
    &&& ok ==> new[target(old, email)].filter->0.regex@ == pattern
}

/// `new` is `old` after enabling or disabling the filter that a lookup by
/// `email` finds, and `pattern` is what is reported: nothing changes and
/// nothing is reported where there is no such filter.
pub open spec fn filter_enable_result(old: Seq<User>, new: Seq<User>, email: Seq<char>, enabled: bool, pattern: Option<Seq<char>>) -> bool {
    match filter_of(old, email) {
        Some((p, _)) => {
            let i = last_match(old, email);
            let u = old[i];
            &&& pattern == Some(p)
            &&& new == old.update(i, User { filter: Some(Filter { enabled, ..u.filter->0 }), ..u })
        },
        None => pattern is None && new == old,
    }
}

/// No email occurs twice.
pub open spec fn unique_emails(users: Seq<User>) -> bool {
    forall|i: int, j: int| 0 <= i < users.len() && 0 <= j < users.len() && #[trigger] users[i].email@ == #[trigger] users[j].email@ ==> i == j
}

/// At most one user has this email.
pub open spec fn at_most_one(users: Seq<User>, email: Seq<char>) -> bool {
    forall|i: int, j: int| 0 <= i < users.len() && 0 <= j < users.len() && #[trigger] users[i].email@ == email && #[trigger] users[j].email@ == email ==> i == j
}

pub(crate) proof fn lemma_first_match_unique(users: Seq<User>, email: Seq<char>, i: int)
    requires
        is_first_match(users, email, i),
    ensures
        has_user(users, email),
        first_match(users, email) == i,
{
    assert(users[i].email@ == email);
    let k = first_match(users, email);
    assert(is_first_match(users, email, k));
    if k < i {
        assert(users[k].email@ != email);
    }
    if i < k {
        assert(users[i].email@ != email);
    }
}

pub(crate) proof fn lemma_last_match_unique(users: Seq<User>, email: Seq<char>, i: int)
    requires
        is_last_match(users, email, i),
    ensures
        has_user(users, email),
        last_match(users, email) == i,
{
    assert(users[i].email@ == email);
    let k = last_match(users, email);
    assert(is_last_match(users, email, k));
    if k < i {
        assert(users[i].email@ != email);
    }
    if i < k {
        assert(users[k].email@ != email);
    }
}

proof fn find_first_match(users: Seq<User>, email: Seq<char>, k: int) -> (i: int)
    requires
        has_user(users, email),
        0 <= k <= users.len(),
        forall|j: int| 0 <= j < k ==> #[trigger] users[j].email@ != email,
    ensures
        is_first_match(users, email, i),
    decreases users.len() - k,
{
    if k == users.len() {
        let w = choose|w: int| 0 <= w < users.len() && #[trigger] users[w].email@ == email;
        assert(users[w].email@ != email);
        k
    } else if users[k].email@ == email {
        k
    } else {
        find_first_match(users, email, k + 1)
    }
}

proof fn find_last_match(users: Seq<User>, email: Seq<char>, k: int) -> (i: int)
    requires
        has_user(users, email),
        0 <= k <= users.len(),
        forall|j: int| k <= j < users.len() ==> #[trigger] users[j].email@ != email,
    ensures
        is_last_match(users, email, i),
    decreases k,
{
    if k == 0 {
        let w = choose|w: int| 0 <= w < users.len() && #[trigger] users[w].email@ == email;
        assert(users[w].email@ != email);
        k
    } else if users[k - 1].email@ == email {
        k - 1
    } else {
        find_last_match(users, email, k - 1)
    }
}

/// Where some user has the email, the first and the last matches are what
/// their names say.
pub(crate) proof fn lemma_matches(users: Seq<User>, email: Seq<char>)
    requires
        has_user(users, email),
    ensures
        is_first_match(users, email, first_match(users, email)),
        is_last_match(users, email, last_match(users, email)),
{
    let i = find_first_match(users, email, 0);
    lemma_first_match_unique(users, email, i);
    let k = find_last_match(users, email, users.len() as int);
    lemma_last_match_unique(users, email, k);
}

/// The user a settings command acts on has the command's email afterwards,
/// and where that email occurred at most once, a lookup finds that user.
pub(crate) proof fn lemma_target_found(old: Seq<User>, new: Seq<User>, email: Seq<char>, b: User)
    requires
        only_target_changed(old, new, email),
        target_before(old, email, b),
        new[target(old, email)].email@ == b.email@,
    ensures
        b.email@ == email,
        0 <= target(old, email) < new.len(),
        at_most_one(old, email) ==> lookup(new, email) == Some(new[target(old, email)]),
{
    let t = target(old, email);
    if has_user(old, email) {
        lemma_matches(old, email);
    }
    if at_most_one(old, email) {
        assert forall|j: int| t < j < new.len() implies #[trigger] new[j].email@ != email by {
            if has_user(old, email) {
                assert(new[j] == old[j]);
                if old[j].email@ == email {
                    assert(old[t].email@ == email);
                }
            }
        }
        lemma_last_match_unique(new, email, t);
    }
}

/// A settings command keeps emails unique.
pub(crate) proof fn lemma_target_keeps_unique(old: Seq<User>, new: Seq<User>, email: Seq<char>, b: User)
    requires
        unique_emails(old),
        only_target_changed(old, new, email),
        target_before(old, email, b),
        new[target(old, email)].email@ == b.email@,
    ensures
        unique_emails(new),
{
    let t = target(old, email);
    lemma_target_found(old, new, email, b);
    if has_user(old, email) {
        lemma_matches(old, email);
    }
    assert forall|i: int, j: int| 0 <= i < new.len() && 0 <= j < new.len() && #[trigger] new[i].email@ == #[trigger] new[j].email@ implies i == j by {
        if i != t && j != t {
            assert(new[i] == old[i] && new[j] == old[j]);
        } else if i == t && j != t {
            assert(new[j] == old[j]);
            if has_user(old, email) {
                assert(old[t].email@ == email);
            } else {
                assert(old[j].email@ == email);
            }
        } else if j == t && i != t {
            assert(new[i] == old[i]);
            if has_user(old, email) {
                assert(old[t].email@ == email);
            } else {
                assert(old[i].email@ == email);
            }
        }
    }
}

/// Position of the first user with this email.
fn first_index_of(users: &Vec<User>, email: &str) -> (r: Option<usize>)
    ensures
        r is Some == has_user(users@, email@),
        r matches Some(i) ==> i == first_match(users@, email@) && is_first_match(users@, email@, i as int),
{
    let mut i: usize = 0;
    while i < users.len()
        invariant
            i <= users@.len(),
            forall|j: int| 0 <= j < i ==> #[trigger] users@[j].email@ != email@,
        decreases users@.len() - i,
    {
        if crate::text::str_equal(users[i].email.as_str(), email) {
            proof {
                lemma_first_match_unique(users@, email@, i as int);
            }
            return Some(i);
        }
        i = i + 1;
    }
    None
}

/// Position of the last user with this email.
fn last_index_of(users: &Vec<User>, email: &str) -> (r: Option<usize>)
    ensures
        r is Some == has_user(users@, email@),
        r matches Some(i) ==> i == last_match(users@, email@) && is_last_match(users@, email@, i as int),
{
    let mut k: usize = users.len();
    while k > 0
        invariant
            k <= users@.len(),
            forall|j: int| k <= j < users@.len() ==> #[trigger] users@[j].email@ != email@,
        decreases k,
    {
        if crate::text::str_equal(users[k - 1].email.as_str(), email) {
            proof {
                lemma_last_match_unique(users@, email@, k - 1);
            }
            return Some(k - 1);
        }
        k = k - 1;
    }
    None
}

impl State {
    /// A state without users.
    pub fn new() -> (s: State)
        ensures
            s.users@.len() == 0,
    {
        State { users: Vec::new() }
    }

    pub fn num_users(&self) -> (n: usize)
        ensures
            n == self.users@.len(),
    {
        self.users.len()
    }

    /// Appends a new user with the given email. This does not check whether
    /// a user with the same email exists already.
    pub fn add_user(&mut self, email: &str) -> (u: &mut User)
        ensures
            final(self).users@.len() == old(self).users@.len() + 1,
            final(self).users@.subrange(0, old(self).users@.len() as int) == old(self).users@,
            is_fresh_user(*u, email@),
            *final(u) == final(self).users@[old(self).users@.len() as int],
    {
        self.users.push(User::new(string_from(email)));
        let n = self.users.len() - 1;
        proof {
            assert(self.users@.subrange(0, old(self).users@.len() as int) =~= old(self).users@);
        }
        &mut self.users[n]
    }

    /// Position of the user that the settings commands act on, adding the
    /// user first where nobody has this email.
    fn find_or_add_user_by_email(&mut self, email: &str) -> (i: usize)
        ensures
            i == target(old(self).users@, email@),
            i < final(self).users@.len(),
            only_target_changed(old(self).users@, final(self).users@, email@),
            target_before(old(self).users@, email@, final(self).users@[i as int]),
    {
        match first_index_of(&self.users, email) {
            Some(i) => i,
            None => {
                self.users.push(User::new(string_from(email)));
                self.users.len() - 1
            },
        }
    }

    /// Position of the user that lookups by email find.
    pub fn user_index(&self, email: &str) -> (r: Option<usize>)
        ensures
            r is Some == has_user(self.users@, email@),
            r matches Some(i) ==> i == last_match(self.users@, email@) && is_last_match(self.users@, email@, i as int),
    {
        last_index_of(&self.users, email)
    }

    /// The user with this email, if any.
    pub fn find_user(&self, email: &str) -> (r: Option<&User>)
        ensures
            r is Some == has_user(self.users@, email@),
            r matches Some(u) ==> lookup(self.users@, email@) == Some(*u),
    {
        match last_index_of(&self.users, email) {
            Some(i) => Some(&self.users[i]),
            None => None,
        }
    }

    /// Resets the user's flags to the defaults, adding the user if needed.
    pub fn reset_flags(&mut self, email: &str) -> (u: &User)
        ensures
            reset_flags_result(old(self).users@, final(self).users@, email@),
            *u == final(self).users@[target(old(self).users@, email@)],
    {
        let i = self.find_or_add_user_by_email(email);
        let ghost b = self.users@[i as int];
        self.users[i].reset_flags();
        assert(target_before(old(self).users@, email@, b));
        &self.users[i]
    }

    /// Sets or clears one flag of the user, adding the user if needed.
    pub fn set_flag(&mut self, email: &str, flag: UserFlag, value: bool) -> (u: &User)
        ensures
            set_flag_result(old(self).users@, final(self).users@, email@, flag, value),
            *u == final(self).users@[target(old(self).users@, email@)],
    {
        let i = self.find_or_add_user_by_email(email);
        let ghost b = self.users@[i as int];
        self.users[i].set_flag(flag, value);
        assert(target_before(old(self).users@, email@, b));
        &self.users[i]
    }

    /// Enables or disables all notifications for the user, adding the user if needed.
    pub fn enable(&mut self, email: &str, enabled: bool) -> (u: &User)
        ensures
            enable_result(old(self).users@, final(self).users@, email@, enabled),
            *u == final(self).users@[target(old(self).users@, email@)],
    {
        let i = self.find_or_add_user_by_email(email);
        let ghost b = self.users@[i as int];
        self.users[i].set_enabled(enabled);
        assert(target_before(old(self).users@, email@, b));
        &self.users[i]
    }

    /// Sets an enabled filter for the user, adding the user first where
    /// nobody has this email. A pattern that does not compile is refused,
    /// and no filter changes (the user is still added).
    pub fn add_filter(&mut self, email: &str, filter: &str) -> (r: Result<(), regex::Error>)
        ensures
            r is Ok <==> regex_compiles(filter@),
            add_filter_result(old(self).users@, final(self).users@, email@, filter@, r is Ok),
    {
        let i = self.find_or_add_user_by_email(email);
        let ghost b = self.users@[i as int];
        assert(target_before(old(self).users@, email@, b));
        match check_regex(filter) {
            Ok(()) => {
                self.users[i].set_filter(Filter { regex: string_from(filter), enabled: true });
                Ok(())
            },
            Err(e) => Err(e),
        }
    }

    /// The filter of the user with this email: its pattern and whether it is
    /// enabled, where the user exists and has a filter.
    pub fn get_filter(&self, email: &str) -> (r: Option<(&str, bool)>)
        ensures
            r is Some == filter_of(self.users@, email@) is Some,
            r matches Some(p) ==> filter_of(self.users@, email@) == Some((p.0@, p.1)),
    {
        match self.find_user(email) {
            Some(u) => match &u.filter {
                Some(f) => Some((f.regex.as_str(), f.enabled)),
                None => None,
            },
            None => None,
        }
    }

    /// Enables or disables the filter of the user with this email and returns
    /// its pattern, where the user exists and has a filter; `None` otherwise,
    /// and then nothing changes.
    pub fn enable_and_get_filter(&mut self, email: &str, enabled: bool) -> (r: Option<&str>)
        ensures
            filter_enable_result(old(self).users@, final(self).users@, email@, enabled, match r {
                Some(p) => Some(p@),
                None => None,
            }),
    {
        match last_index_of(&self.users, email) {
            Some(i) => {
                if self.users[i].filter.is_some() {
                    self.users[i].set_filter_enabled(enabled);
                    proof {
                        assert(final(self).users@ =~= old(self).users@.update(
                            i as int,
                            User { filter: Some(Filter { enabled, ..old(self).users@[i as int].filter->0 }), ..old(self).users@[i as int] },
                        ));
                    }
                    match &self.users[i].filter {
                        Some(f) => Some(f.regex.as_str()),
                        None => None,
                    }
                } else {
                    None
                }
            },
            None => None,
        }
    }

    /// Checks that every stored filter is a regular expression that compiles,
    /// as loading a saved state requires; the first error is returned.
    pub fn check_filters(&self) -> (r: Result<(), regex::Error>)
        ensures
            r is Ok <==> filters_compile(self.users@),
    {
        let mut i: usize = 0;
        while i < self.users.len()
            invariant
                i <= self.users@.len(),
                forall|j: int| 0 <= j < i ==> (#[trigger] self.users@[j].filter matches Some(f) ==> regex_compiles(f.regex@)),
            decreases self.users@.len() - i,
        {
            match &self.users[i].filter {
                Some(f) => {
                    match check_regex(f.regex.as_str()) {
                        Ok(()) => {},
                        Err(e) => {
                            return Err(e);
                        },
                    }
                },
                None => {},
            }
            i = i + 1;
        }
        Ok(())
    }

    /// All users, in the order they were added.
    pub fn users(&self) -> (r: &[User])
        ensures
            r@ == self.users@,
    {
        self.users.as_slice()
    }

    /// Whether the user's enabled filter holds back a message with this text.
    pub fn is_filtered(&self, user: &User, msg: &str) -> (r: bool)
        ensures
            r == filtered(*user, msg@),
    {
        match &user.filter {
            Some(f) => f.enabled && regex_is_match(f.regex.as_str(), msg),
            None => false,
        }
    }
}

impl Default for State {
    fn default() -> (s: State)
        ensures
            s.users@.len() == 0,
    {
        State::new()
    }
}

} // verus!
