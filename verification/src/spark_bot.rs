//! A bot that tells Webex Teams users, known by their Spark person id,
//! about votes on their Gerrit changes.

use vstd::prelude::*;

use crate::gerrit;
use crate::text::{chars_of, contains_chars, contains_seq, decimal, push_decimal, push_signed_decimal, push_str, signed_decimal, str_equal, string_from};

verus! {

/// Spark id of a person.
pub type PersonId = String;
/// Email of a person.
pub type Email = String;

/// A user of the bot.
#[derive(Clone, Debug)]
pub struct User {
    pub spark_person_id: PersonId,
    /// Email of the user; assumed to be the same in Spark and Gerrit.
    pub email: Email,
    pub enabled: bool,
}

impl User {
    /// A new, enabled user.
    pub fn new(person_id: PersonId, email: Email) -> (u: User)
        ensures
            u.spark_person_id == person_id,
            u.email == email,
            u.enabled,
    {
        User { spark_person_id: person_id, email, enabled: true }
    }
}

/// The state of the bot: its users, in the order they were added.
#[derive(Clone, Debug)]
pub struct Bot {
    pub users: Vec<User>,
}

/// `c` is an ASCII decimal digit.
pub open spec fn is_digit(c: char) -> bool {
    '0' <= c && c <= '9'
}

/// The number a run of decimal digits denotes.
pub open spec fn digits_value(d: Seq<char>) -> int
    decreases d.len(),
{
    if d.len() == 0 {
        0
    } else {
        10 * digits_value(d.drop_last()) + ((d.last() as u32) as int - 48)
    }
}

/// A non-empty run of decimal digits.
pub open spec fn all_digits(d: Seq<char>) -> bool {
    d.len() > 0 && forall|i: int| 0 <= i < d.len() ==> is_digit(#[trigger] d[i])
}

/// `i8::from_str`: an optional `+` or `-`, then decimal digits, denoting a
/// number in the range of `i8`.
pub open spec fn parse_i8(s: Seq<char>) -> Option<i8> {
    let neg = s.len() > 0 && s[0] == '-';
    let signed = s.len() > 0 && (s[0] == '-' || s[0] == '+');
    let d = if signed { s.drop_first() } else { s };
    if all_digits(d) {
        let v = if neg { -digits_value(d) } else { digits_value(d) };
        if -128 <= v && v <= 127 {
            Some(v as i8)
        } else {
            None
        }
    } else {
        None
    }
}

proof fn lemma_digits_value_nonneg(d: Seq<char>)
    requires
        forall|i: int| 0 <= i < d.len() ==> is_digit(#[trigger] d[i]),
    ensures
        digits_value(d) >= 0,
    decreases d.len(),
{
    if d.len() > 0 {
        assert forall|i: int| 0 <= i < d.drop_last().len() implies is_digit(#[trigger] d.drop_last()[i]) by {
            assert(d.drop_last()[i] == d[i]);
        }
        lemma_digits_value_nonneg(d.drop_last());
        assert(is_digit(d[d.len() - 1]));
    }
}

fn digit_value(c: char) -> (r: u32)
    requires
        is_digit(c),
    ensures
        r as int == (c as u32) as int - 48,
        r < 10,
{
    (c as u32) - 48
}

/// Reads a vote value the way `i8::from_str` does.
fn parse_vote(s: &[char]) -> (r: Option<i8>)
    ensures
        r == parse_i8(s@),
{
    let mut start: usize = 0;
    let mut neg = false;
    if s.len() > 0 && s[0] == '-' {
        neg = true;
        start = 1;
    } else if s.len() > 0 && s[0] == '+' {
        start = 1;
    }
    let ghost d = s@.subrange(start as int, s@.len() as int);
    proof {
        if start == 1 {
            assert(d =~= s@.drop_first());
        } else {
            assert(d =~= s@);
        }
    }
    if start == s.len() {
        return None;
    }
    let mut v: u32 = 0;
    let mut overflow = false;
    let mut i: usize = start;
    while i < s.len()
        invariant
            start <= i <= s@.len(),
            start < s@.len(),
            d == s@.subrange(start as int, s@.len() as int),
            d == (if s@.len() > 0 && (s@[0] == '-' || s@[0] == '+') { s@.drop_first() } else { s@ }),
            neg == (s@.len() > 0 && s@[0] == '-'),
            forall|j: int| start <= j < i ==> is_digit(#[trigger] s@[j]),
            !overflow ==> v == digits_value(s@.subrange(start as int, i as int)) && v <= 128,
            overflow ==> digits_value(s@.subrange(start as int, i as int)) > 128,
        decreases s@.len() - i,
    {
        let c = s[i];
        if !('0' <= c && c <= '9') {
            proof {
                assert(d[i - start] == c);
            }
            return None;
        }
        let ghost pre = s@.subrange(start as int, i as int);
        let ghost post = s@.subrange(start as int, i + 1);
        proof {
            assert(post.drop_last() == pre);
            assert(post.last() == c);
            assert forall|j: int| 0 <= j < pre.len() implies is_digit(#[trigger] pre[j]) by {
                assert(pre[j] == s@[start + j]);
            }
            lemma_digits_value_nonneg(pre);
        }
        let dv = digit_value(c);
        if !overflow {
            let nv = v * 10 + dv;
            if nv > 128 {
                overflow = true;
            } else {
                v = nv;
            }
        }
        i = i + 1;
    }
    proof {
        assert(s@.subrange(start as int, s@.len() as int) == d);
        assert forall|j: int| 0 <= j < d.len() implies is_digit(#[trigger] d[j]) by {
            assert(d[j] == s@[start + j]);
        }
        assert(all_digits(d));
    }
    if overflow {
        None
    } else if neg {
        Some((0 - (v as i32)) as i8)
    } else if v <= 127 {
        Some(v as i8)
    } else {
        None
    }
}

/// The text of a vote value: an icon (an hourglass for labels waiting for
/// verification, else thumbs up, pointing or down by the sign), then the
/// number, with `+` in front of positive ones. Unreadable values count as 0.
pub open spec fn approval_value_text(value: Seq<char>, approval_type: Seq<char>) -> Seq<char> {
    let v: int = match parse_i8(value) {
        Some(x) => x as int,
        None => 0,
    };
    let icon = if contains_seq(approval_type, "WaitForVerification"@) {
        "\u{231B}"@
    } else if v > 0 {
        "\u{1F44D}"@
    } else if v == 0 {
        "\u{1F449}"@
    } else {
        "\u{1F44E}"@
    };
    icon + " "@ + (if v > 0 { "+"@ } else { ""@ }) + signed_decimal(v)
}

/// Formats a vote value with an icon and its sign.
pub fn format_approval_value(value: &str, approval_type: &str) -> (r: String)
    ensures
        r@ == approval_value_text(value@, approval_type@),
{
    let vc = chars_of(value);
    let v: i8 = match parse_vote(vc.as_slice()) {
        Some(x) => x,
        None => 0,
    };
    let tc = chars_of(approval_type);
    let wc = chars_of("WaitForVerification");
    let icon = if contains_chars(tc.as_slice(), wc.as_slice()) {
        "\u{231B}"
    } else if v > 0 {
        "\u{1F44D}"
    } else if v == 0 {
        "\u{1F449}"
    } else {
        "\u{1F44E}"
    };
    let mut r = String::new();
    push_str(&mut r, icon);
    push_str(&mut r, " ");
    push_str(&mut r, if v > 0 { "+" } else { "" });
    push_signed_decimal(&mut r, v as i64);
    assert(r@ =~= approval_value_text(value@, approval_type@));
    r
}

/// A vote is worth announcing: it is not zero and, where an earlier value is
/// known, it changed.
pub open spec fn shown(a: gerrit::Approval) -> bool {
    match a.old_value {
        Some(ov) => ov@ != a.value@ && a.value@ != "0"@,
        None => a.value@ != "0"@,
    }
}

/// The line announcing one vote.
pub open spec fn approval_text(change: gerrit::Change, approver: Seq<char>, a: gerrit::Approval) -> Seq<char> {
    "["@ + change.subject@ + "]("@ + change.url@ + ") "@ + approval_value_text(a.value@, a.approval_type@)
        + " ("@ + a.approval_type@ + ") from "@ + approver
}

/// The lines announcing the votes worth announcing, in order.
pub open spec fn approval_texts(change: gerrit::Change, approver: Seq<char>, v: Seq<gerrit::Approval>) -> Seq<Seq<char>>
    decreases v.len(),
{
    if v.len() == 0 {
        seq![]
    } else {
        approval_texts(change, approver, v.drop_last()) + (if shown(v.last()) {
            seq![approval_text(change, approver, v.last())]
        } else {
            seq![]
        })
    }
}

/// `parts` joined with `sep` between them.
pub open spec fn join(parts: Seq<Seq<char>>, sep: Seq<char>) -> Seq<char>
    decreases parts.len(),
{
    if parts.len() == 0 {
        seq![]
    } else if parts.len() == 1 {
        parts[0]
    } else {
        join(parts.drop_last(), sep) + sep + parts.last()
    }
}

/// Some user has this Spark person id.
pub open spec fn has_person(users: Seq<User>, pid: Seq<char>) -> bool {
    exists|i: int| 0 <= i < users.len() && #[trigger] users[i].spark_person_id@ == pid
}

/// `i` is the first position of a user with this person id.
pub open spec fn is_first_person(users: Seq<User>, pid: Seq<char>, i: int) -> bool {
    &&& 0 <= i < users.len()
    &&& users[i].spark_person_id@ == pid
    &&& forall|j: int| 0 <= j < i ==> #[trigger] users[j].spark_person_id@ != pid
}

/// First position of a user with this person id.
pub open spec fn first_person(users: Seq<User>, pid: Seq<char>) -> int {
    choose|i: int| is_first_person(users, pid, i)
}

/// Some user has this email.
pub open spec fn has_email(users: Seq<User>, email: Seq<char>) -> bool {
    exists|i: int| 0 <= i < users.len() && #[trigger] users[i].email@ == email
}

/// `i` is the first position of a user with this email.
pub open spec fn is_first_email(users: Seq<User>, email: Seq<char>, i: int) -> bool {
    &&& 0 <= i < users.len()
    &&& users[i].email@ == email
    &&& forall|j: int| 0 <= j < i ==> #[trigger] users[j].email@ != email
}

/// First position of a user with this email.
pub open spec fn first_email(users: Seq<User>, email: Seq<char>) -> int {
    choose|i: int| is_first_email(users, email, i)
}

/// The users after enabling or disabling the user with this person id:
/// the first such user changes, or a new one is added with this email.
pub open spec fn enable_result(old: Seq<User>, new: Seq<User>, pid: Seq<char>, email: Seq<char>, enabled: bool) -> bool {
    if has_person(old, pid) {
        let i = first_person(old, pid);
        new == old.update(i, User { enabled, ..old[i] })
    } else {
        &&& new.len() == old.len() + 1
        &&& new.drop_last() == old
        &&& new.last().spark_person_id@ == pid
        &&& new.last().email@ == email
        &&& new.last().enabled == enabled
    }
}

/// Whether notifications are on for this person.
pub open spec fn person_enabled(users: Seq<User>, pid: Seq<char>) -> bool {
    has_person(users, pid) && users[first_person(users, pid)].enabled
}

/// The status message for a person.
pub open spec fn status_text(users: Seq<User>, pid: Seq<char>) -> Seq<char> {
    "Notifications for you are **"@ + (if person_enabled(users, pid) { "enabled"@ } else { "disabled"@ })
        + "**. Besides you, I am notifying another "@ + decimal((users.len() - 1) as nat) + " user(s)."@
}

/// Who is told about the votes of an event, and the message: the owner of
/// the change, when the votes are not the owner's own, the owner's email
/// belongs to an enabled user, and some vote is worth announcing.
pub open spec fn approvals_message(users: Seq<User>, event: gerrit::Event) -> Option<(int, Seq<char>)> {
    let approver = event.author->0.username@;
    if approver == event.change.owner.username@ {
        None
    } else {
        match event.change.owner.email {
            None => None,
            Some(e) => if !has_email(users, e@) || !users[first_email(users, e@)].enabled {
                None
            } else {
                match event.approvals {
                    None => None,
                    Some(v) => {
                        let parts = approval_texts(event.change, approver, v@);
                        if parts.len() == 0 {
                            None
                        } else {
                            Some((first_email(users, e@), join(parts, "\n\n"@)))
                        }
                    },
                }
            },
        }
    }
}

pub(crate) proof fn lemma_first_person(users: Seq<User>, pid: Seq<char>, i: int)
    requires
        is_first_person(users, pid, i),
    ensures
        has_person(users, pid),
        first_person(users, pid) == i,
{
    assert(users[i].spark_person_id@ == pid);
    let k = first_person(users, pid);
    if k < i {
        assert(users[k].spark_person_id@ != pid);
    }
    if i < k {
        assert(users[i].spark_person_id@ != pid);
    }
}

proof fn find_first_person(users: Seq<User>, pid: Seq<char>, k: int) -> (i: int)
    requires
        has_person(users, pid),
        0 <= k <= users.len(),
        forall|j: int| 0 <= j < k ==> #[trigger] users[j].spark_person_id@ != pid,
    ensures
        is_first_person(users, pid, i),
    decreases users.len() - k,
{
    if k == users.len() {
        let w = choose|w: int| 0 <= w < users.len() && #[trigger] users[w].spark_person_id@ == pid;
        assert(users[w].spark_person_id@ != pid);
        k
    } else if users[k].spark_person_id@ == pid {
        k
    } else {
        find_first_person(users, pid, k + 1)
    }
}

/// Where some user has the person id, the first one is what its name says.
pub(crate) proof fn lemma_first_person_exists(users: Seq<User>, pid: Seq<char>)
    requires
        has_person(users, pid),
    ensures
        is_first_person(users, pid, first_person(users, pid)),
{
    let i = find_first_person(users, pid, 0);
    lemma_first_person(users, pid, i);
}

proof fn lemma_first_email(users: Seq<User>, email: Seq<char>, i: int)
    requires
        is_first_email(users, email, i),
    ensures
        has_email(users, email),
        first_email(users, email) == i,
{
    assert(users[i].email@ == email);
    let k = first_email(users, email);
    if k < i {
        assert(users[k].email@ != email);
    }
    if i < k {
        assert(users[i].email@ != email);
    }
}

/// Appends the line announcing a vote.
fn push_approval_text(out: &mut String, change: &gerrit::Change, approver: &str, a: &gerrit::Approval)
    ensures
        final(out)@ == old(out)@ + approval_text(*change, approver@, *a),
{
    push_str(out, "[");
    push_str(out, change.subject.as_str());
    push_str(out, "](");
    push_str(out, change.url.as_str());
    push_str(out, ") ");
    let v = format_approval_value(a.value.as_str(), a.approval_type.as_str());
    push_str(out, v.as_str());
    push_str(out, " (");
    push_str(out, a.approval_type.as_str());
    push_str(out, ") from ");
    push_str(out, approver);
    assert(final(out)@ =~= old(out)@ + approval_text(*change, approver@, *a));
}

fn is_shown(a: &gerrit::Approval) -> (r: bool)
    ensures
        r == shown(*a),
{
    match &a.old_value {
        Some(ov) => !str_equal(ov.as_str(), a.value.as_str()) && !str_equal(a.value.as_str(), "0"),
        None => !str_equal(a.value.as_str(), "0"),
    }
}

/// The message announcing the votes worth announcing, with a blank line
/// between them, and how many there are.
fn approvals_text(change: &gerrit::Change, approver: &str, approvals: &Vec<gerrit::Approval>) -> (r: (String, usize))
    ensures
        r.0@ == join(approval_texts(*change, approver@, approvals@), "\n\n"@),
        r.1 == approval_texts(*change, approver@, approvals@).len(),
{
    let mut out = String::new();
    let mut count: usize = 0;
    let mut i: usize = 0;
    while i < approvals.len()
        invariant
            i <= approvals@.len(),
            count <= i,
            count == approval_texts(*change, approver@, approvals@.subrange(0, i as int)).len(),
            out@ == join(approval_texts(*change, approver@, approvals@.subrange(0, i as int)), "\n\n"@),
        decreases approvals@.len() - i,
    {
        let ghost pre = approvals@.subrange(0, i as int);
        let ghost post = approvals@.subrange(0, i + 1);
        let ghost texts = approval_texts(*change, approver@, pre);
        proof {
            assert(post.drop_last() == pre);
            assert(post.last() == approvals@[i as int]);
        }
        let a = &approvals[i];
        if is_shown(a) {
            if count > 0 {
                push_str(&mut out, "\n\n");
            }
            push_approval_text(&mut out, change, approver, a);
            count = count + 1;
            proof {
                let t = approval_text(*change, approver@, *a);
                assert(approval_texts(*change, approver@, post) == texts.push(t));
                assert(texts.push(t).drop_last() == texts);
                if texts.len() == 0 {
                    assert(out@ =~= t);
                }
            }
        } else {
            assert(approval_texts(*change, approver@, post) =~= texts);
        }
        i = i + 1;
    }
    assert(approvals@.subrange(0, approvals@.len() as int) == approvals@);
    (out, count)
}

impl Bot {
    /// A bot without users.
    pub fn new() -> (b: Bot)
        ensures
            b.users@.len() == 0,
    {
        Bot { users: Vec::new() }
    }

    /// Appends a new, enabled user.
    pub fn add_user(&mut self, person_id: &str, email: &str) -> (u: &mut User)
        ensures
            final(self).users@.len() == old(self).users@.len() + 1,
            final(self).users@.drop_last() == old(self).users@,
            u.spark_person_id@ == person_id@,
            u.email@ == email@,
            u.enabled,
            *final(u) == final(self).users@.last(),
    {
        self.users.push(User::new(string_from(person_id), string_from(email)));
        let n = self.users.len() - 1;
        proof {
            assert(self.users@.drop_last() =~= old(self).users@);
        }
        &mut self.users[n]
    }

    fn first_index_of_person(&self, person_id: &str) -> (r: Option<usize>)
        ensures
            r is Some == has_person(self.users@, person_id@),
            r matches Some(i) ==> i == first_person(self.users@, person_id@) && is_first_person(self.users@, person_id@, i as int),
    {
        let mut i: usize = 0;
        while i < self.users.len()
            invariant
                i <= self.users@.len(),
                forall|j: int| 0 <= j < i ==> #[trigger] self.users@[j].spark_person_id@ != person_id@,
            decreases self.users@.len() - i,
        {
            if str_equal(self.users[i].spark_person_id.as_str(), person_id) {
                proof {
                    lemma_first_person(self.users@, person_id@, i as int);
                }
                return Some(i);
            }
            i = i + 1;
        }
        None
    }

    fn first_index_of_email(&self, email: &str) -> (r: Option<usize>)
        ensures
            r is Some == has_email(self.users@, email@),
            r matches Some(i) ==> i == first_email(self.users@, email@) && is_first_email(self.users@, email@, i as int),
    {
        let mut i: usize = 0;
        while i < self.users.len()
            invariant
                i <= self.users@.len(),
                forall|j: int| 0 <= j < i ==> #[trigger] self.users@[j].email@ != email@,
            decreases self.users@.len() - i,
        {
            if str_equal(self.users[i].email.as_str(), email) {
                proof {
                    lemma_first_email(self.users@, email@, i as int);
                }
                return Some(i);
            }
            i = i + 1;
        }
        None
    }

    /// Position of the first user with this person id, adding a user with
    /// this id and email where there is none.
    pub fn find_or_add_user(&mut self, person_id: &str, email: &str) -> (i: usize)
        ensures
            i < final(self).users@.len(),
            has_person(old(self).users@, person_id@) ==> final(self).users@ == old(self).users@
                && i == first_person(old(self).users@, person_id@),
            !has_person(old(self).users@, person_id@) ==> final(self).users@.len() == old(self).users@.len() + 1
                && final(self).users@.drop_last() == old(self).users@
                && i == old(self).users@.len()
                && final(self).users@.last().spark_person_id@ == person_id@
                && final(self).users@.last().email@ == email@
                && final(self).users@.last().enabled,
    {
        match self.first_index_of_person(person_id) {
            Some(i) => i,
            None => {
                self.add_user(person_id, email);
                self.users.len() - 1
            },
        }
    }

    /// Turns notifications on or off for a person, adding the person first
    /// where needed.
    pub fn enable(&mut self, person_id: &str, email: &str, enabled: bool) -> (u: &User)
        ensures
            enable_result(old(self).users@, final(self).users@, person_id@, email@, enabled),
            u.enabled == enabled,
    {
        let i = self.find_or_add_user(person_id, email);
        self.users[i].enabled = enabled;
        proof {
            if !has_person(old(self).users@, person_id@) {
                assert(self.users@.drop_last() =~= old(self).users@);
            }
        }
        &self.users[i]
    }

    pub fn num_users(&self) -> (n: usize)
        ensures
            n == self.users@.len(),
    {
        self.users.len()
    }

    /// The status message for a person: whether notifications are on, and how
    /// many other users there are. The bot must have a user.
    pub fn status_for(&self, person_id: &str) -> (r: String)
        requires
            self.users@.len() > 0,
        ensures
            r@ == status_text(self.users@, person_id@),
    {
        let enabled = match self.first_index_of_person(person_id) {
            Some(i) => self.users[i].enabled,
            None => false,
        };
        let mut r = String::new();
        push_str(&mut r, "Notifications for you are **");
        push_str(&mut r, if enabled { "enabled" } else { "disabled" });
        push_str(&mut r, "**. Besides you, I am notifying another ");
        push_decimal(&mut r, (self.num_users() - 1) as u64);
        push_str(&mut r, " user(s).");
        assert(r@ =~= status_text(self.users@, person_id@));
        r
    }

    /// The message about the votes of an event and whom it is for, if anybody.
    /// The event must have an author.
    pub fn get_approvals_msg(&self, event: gerrit::Event) -> (r: Option<(&User, String)>)
        requires
            event.author is Some,
        ensures
            r is Some == approvals_message(self.users@, event) is Some,
            r matches Some((u, m)) ==> {
                let (i, text) = approvals_message(self.users@, event)->0;
                &&& *u == self.users@[i]
                &&& m@ == text
            },
    {
        let approver = match &event.author {
            Some(a) => &a.username,
            None => return None,
        };
        if str_equal(approver.as_str(), event.change.owner.username.as_str()) {
            return None;
        }
        let owner_email = match &event.change.owner.email {
            Some(e) => e,
            None => return None,
        };
        let i = match self.first_index_of_email(owner_email.as_str()) {
            Some(i) => i,
            None => return None,
        };
        if !self.users[i].enabled {
            return None;
        }
        match &event.approvals {
            Some(approvals) => {
                let (msg, count) = approvals_text(&event.change, approver.as_str(), approvals);
                if count == 0 {
                    None
                } else {
                    Some((&self.users[i], msg))
                }
            },
            None => None,
        }
    }
}

/// An action for the bot.
#[derive(Debug)]
pub enum Action {
    Enable(PersonId, Email),
    Disable(PersonId, Email),
    UpdateApprovals(gerrit::Event),
    Help(PersonId),
    Unknown(PersonId),
    Status(PersonId),
    NoOp,
}

/// A message to send to a person.
#[derive(Debug)]
pub struct Response {
    pub person_id: PersonId,
    pub message: String,
}

impl Response {
    pub fn new(person_id: PersonId, message: String) -> (r: Response)
        ensures
            r.person_id == person_id,
            r.message == message,
    {
        Response { person_id, message }
    }
}

/// What to do after an action.
#[derive(Debug)]
pub enum Task {
    Reply(Response),
    ReplyAndSave(Response),
}

/// The greeting for messages the bot does not understand.
pub const GREETINGS_MSG: &'static str = "Hi. I am GerritBot (**in a very early alpha**). I can watch Gerrit reviews for you, and notify you about new +1/-1's.

To enable notifications, just type in 'enable'. A small note: your email in Spark and in Gerrit has to be the same. Otherwise, I can't match your accounts.

For more information, type in **help**.

By the way, my icon is made by
[ Madebyoliver ](http://www.flaticon.com/authors/madebyoliver)
from
[ www.flaticon.com ](http://www.flaticon.com)
and is licensed by
[ CC 3.0 BY](http://creativecommons.org/licenses/by/3.0/).
";

/// The list of commands.
pub const HELP_MSG: &'static str = "Commands:

`enable` I will start notifying you.

`disable` I will stop notifying you.

`status` Show if I am notifying you, and a little bit more information. \u{1F609}

`help` This message
";

/// A task as a mathematical value: the recipient, the message, and whether
/// the state is saved too.
pub struct TaskView {
    pub person_id: Seq<char>,
    pub message: Seq<char>,
    pub save: bool,
}

impl View for Task {
    type V = TaskView;

    open spec fn view(&self) -> TaskView {
        match self {
            Task::Reply(r) => TaskView { person_id: r.person_id@, message: r.message@, save: false },
            Task::ReplyAndSave(r) => TaskView { person_id: r.person_id@, message: r.message@, save: true },
        }
    }
}

/// What an action does: the users afterwards and the task.
pub open spec fn update_result(old: Seq<User>, new: Seq<User>, action: Action, task: Option<TaskView>) -> bool {
    match action {
        Action::Enable(pid, email) => enable_result(old, new, pid@, email@, true)
            && task == Some(TaskView { person_id: pid@, message: "Got it! Happy reviewing!"@, save: true }),
        Action::Disable(pid, email) => enable_result(old, new, pid@, email@, false)
            && task == Some(TaskView { person_id: pid@, message: "Got it! I will stay silent."@, save: true }),
        Action::UpdateApprovals(event) => new == old && task == match approvals_message(old, event) {
            Some((i, text)) => Some(TaskView { person_id: old[i].spark_person_id@, message: text, save: false }),
            None => None,
        },
        Action::Help(pid) => new == old && task == Some(TaskView { person_id: pid@, message: HELP_MSG@, save: false }),
        Action::Unknown(pid) => new == old && task == Some(TaskView { person_id: pid@, message: GREETINGS_MSG@, save: false }),
        Action::Status(pid) => new == old && task == Some(TaskView { person_id: pid@, message: status_text(old, pid@), save: false }),
        Action::NoOp => new == old && task is None,
    }
}

/// An action may be taken: votes come with an author, and a status request
/// needs a user to count.
pub open spec fn action_allowed(bot: Bot, action: Action) -> bool {
    match action {
        Action::UpdateApprovals(event) => event.author is Some,
        Action::Status(_) => bot.users@.len() > 0,
        _ => true,
    }
}

/// Reacts to an action: returns the new state of the bot and what to do.
pub fn update(action: Action, bot: Bot) -> (r: (Bot, Option<Task>))
    requires
        action_allowed(bot, action),
    ensures
        update_result(bot.users@, r.0.users@, action, match r.1 {
            Some(t) => Some(t@),
            None => None,
        }),
{
    let mut bot = bot;
    let task = match action {
        Action::Enable(person_id, email) => {
            bot.enable(person_id.as_str(), email.as_str(), true);
            Some(Task::ReplyAndSave(Response::new(person_id, string_from("Got it! Happy reviewing!"))))
        },
        Action::Disable(person_id, email) => {
            bot.enable(person_id.as_str(), email.as_str(), false);
            Some(Task::ReplyAndSave(Response::new(person_id, string_from("Got it! I will stay silent."))))
        },
        Action::UpdateApprovals(event) => match bot.get_approvals_msg(event) {
            Some((user, message)) => Some(Task::Reply(Response::new(user.spark_person_id.clone(), message))),
            None => None,
        },
        Action::Help(person_id) => Some(Task::Reply(Response::new(person_id, string_from(HELP_MSG)))),
        Action::Unknown(person_id) => Some(Task::Reply(Response::new(person_id, string_from(GREETINGS_MSG)))),
        Action::Status(person_id) => {
            let status = bot.status_for(person_id.as_str());
            Some(Task::Reply(Response::new(person_id, status)))
        },
        Action::NoOp => None,
    };
    (bot, task)
}

} // verus!
