//! Per-user notification flags.

use vstd::prelude::*;

use crate::text::{chars_equal, chars_of, push_str, string_from};

verus! {

/// A kind of notification a user can ask for.
#[derive(Copy, Clone, Debug, PartialEq, Eq, Structural, Hash)]
pub enum UserFlag {
    /// User wants notification messages for reviews with approvals.
    NotifyReviewApprovals,
    /// User wants notification messages for review comments without approvals.
    NotifyReviewComments,
    /// User wants notification messages for reviews with inline comments.
    NotifyReviewInlineComments,
    /// User wants notification messages when invited to a change.
    NotifyReviewerAdded,
    /// User wants notification messages for responses to their own review comments.
    NotifyReviewResponses,
    /// User wants notification messages for merged changes.
    NotifyChangeMerged,
    /// User wants notification messages for abandoned changes.
    NotifyChangeAbandoned,
}

/// The external (snake case) name of a flag.
pub open spec fn flag_name(f: UserFlag) -> Seq<char> {
    match f {
        UserFlag::NotifyReviewApprovals => "notify_review_approvals"@,
        UserFlag::NotifyReviewComments => "notify_review_comments"@,
        UserFlag::NotifyReviewInlineComments => "notify_review_inline_comments"@,
        UserFlag::NotifyReviewerAdded => "notify_reviewer_added"@,
        UserFlag::NotifyReviewResponses => "notify_review_responses"@,
        UserFlag::NotifyChangeMerged => "notify_change_merged"@,
        UserFlag::NotifyChangeAbandoned => "notify_change_abandoned"@,
    }
}

/// The flag whose external name is `s`, if any.
pub open spec fn flag_from_name(s: Seq<char>) -> Option<UserFlag> {
    if s == "notify_review_approvals"@ {
        Some(UserFlag::NotifyReviewApprovals)
    } else if s == "notify_review_comments"@ {
        Some(UserFlag::NotifyReviewComments)
    } else if s == "notify_review_inline_comments"@ {
        Some(UserFlag::NotifyReviewInlineComments)
    } else if s == "notify_reviewer_added"@ {
        Some(UserFlag::NotifyReviewerAdded)
    } else if s == "notify_review_responses"@ {
        Some(UserFlag::NotifyReviewResponses)
    } else if s == "notify_change_merged"@ {
        Some(UserFlag::NotifyChangeMerged)
    } else if s == "notify_change_abandoned"@ {
        Some(UserFlag::NotifyChangeAbandoned)
    } else {
        None
    }
}

/// The name of JSON's decoding of a string literal: the string that the JSON
/// text `json` denotes, or `None` where `json` is not a JSON string.
pub uninterp spec fn json_string_value(json: Seq<char>) -> Option<Seq<char>>;

/// Decodes a JSON string literal with `serde_json::from_str::<String>`.
/// The contract claims only that the result is the string the JSON text
/// denotes, a function of the text alone; JSON's escape rules are not spelled out.
#[verifier::external_body]
fn decode_json_string(json: &str) -> (r: Option<String>)
    ensures
        r matches Some(v) ==> json_string_value(json@) == Some(v@),
        r is None ==> json_string_value(json@) is None,
{
    serde_json::from_str::<String>(json).ok()
}

impl UserFlag {
    /// The external name of the flag, as it is shown to users and stored.
    pub fn name(&self) -> (r: String)
        ensures
            r@ == flag_name(*self),
    {
        let s: &str = match self {
            UserFlag::NotifyReviewApprovals => "notify_review_approvals",
            UserFlag::NotifyReviewComments => "notify_review_comments",
            UserFlag::NotifyReviewInlineComments => "notify_review_inline_comments",
            UserFlag::NotifyReviewerAdded => "notify_reviewer_added",
            UserFlag::NotifyReviewResponses => "notify_review_responses",
            UserFlag::NotifyChangeMerged => "notify_change_merged",
            UserFlag::NotifyChangeAbandoned => "notify_change_abandoned",
        };
        string_from(s)
    }

    /// The flag with the given external name.
    pub fn from_name(name: &str) -> (r: Option<UserFlag>)
        ensures
            r == flag_from_name(name@),
    {
        let n = chars_of(name);
        let c0 = chars_of("notify_review_approvals");
        if chars_equal(n.as_slice(), c0.as_slice()) {
            return Some(UserFlag::NotifyReviewApprovals);
        }
        let c1 = chars_of("notify_review_comments");
        if chars_equal(n.as_slice(), c1.as_slice()) {
            return Some(UserFlag::NotifyReviewComments);
        }
        let c2 = chars_of("notify_review_inline_comments");
        if chars_equal(n.as_slice(), c2.as_slice()) {
            return Some(UserFlag::NotifyReviewInlineComments);
        }
        let c3 = chars_of("notify_reviewer_added");
        if chars_equal(n.as_slice(), c3.as_slice()) {
            return Some(UserFlag::NotifyReviewerAdded);
        }
        let c4 = chars_of("notify_review_responses");
        if chars_equal(n.as_slice(), c4.as_slice()) {
            return Some(UserFlag::NotifyReviewResponses);
        }
        let c5 = chars_of("notify_change_merged");
        if chars_equal(n.as_slice(), c5.as_slice()) {
            return Some(UserFlag::NotifyChangeMerged);
        }
        let c6 = chars_of("notify_change_abandoned");
        if chars_equal(n.as_slice(), c6.as_slice()) {
            return Some(UserFlag::NotifyChangeAbandoned);
        }
        None
    }

    /// Parses a flag the way its stored form is read back: `s` is put between
    /// double quotes and decoded as a JSON string, whose value must be a flag name.
    pub fn from_str(s: &str) -> (r: Option<UserFlag>)
        ensures
            r == (match json_string_value(seq!['"'] + s@ + seq!['"']) {
                Some(v) => flag_from_name(v),
                None => None,
            }),
    {
        let mut quoted = String::new();
        crate::text::push_char(&mut quoted, '"');
        push_str(&mut quoted, s);
        crate::text::push_char(&mut quoted, '"');
        assert(quoted@ == seq!['"'] + s@ + seq!['"']);
        match decode_json_string(quoted.as_str()) {
            Some(v) => UserFlag::from_name(v.as_str()),
            None => None,
        }
    }
}

/// Flags of a user that has not chosen any flags yet.
pub open spec fn default_flag_set() -> Set<UserFlag> {
    set![UserFlag::NotifyReviewApprovals, UserFlag::NotifyReviewInlineComments, UserFlag::NotifyReviewerAdded]
}

/// The flags that concern review comments.
pub open spec fn review_comment_flag_seq() -> Seq<UserFlag> {
    seq![UserFlag::NotifyReviewApprovals, UserFlag::NotifyReviewComments, UserFlag::NotifyReviewInlineComments]
}

/// All notification flags, in their canonical order.
pub open spec fn notification_flag_seq() -> Seq<UserFlag> {
    seq![
        UserFlag::NotifyReviewApprovals,
        UserFlag::NotifyReviewComments,
        UserFlag::NotifyReviewInlineComments,
        UserFlag::NotifyReviewerAdded,
        UserFlag::NotifyReviewResponses,
        UserFlag::NotifyChangeMerged,
        UserFlag::NotifyChangeAbandoned,
    ]
}

/// Default flags for users that haven't enabled or disabled anything specific.
pub fn default_flags() -> (r: Vec<UserFlag>)
    ensures
        r@ == seq![UserFlag::NotifyReviewApprovals, UserFlag::NotifyReviewInlineComments, UserFlag::NotifyReviewerAdded],
        r@.to_set() == default_flag_set(),
{
    let r = vec![UserFlag::NotifyReviewApprovals, UserFlag::NotifyReviewInlineComments, UserFlag::NotifyReviewerAdded];
    proof {
        assert(r@.to_set() =~= default_flag_set()) by {
            assert(r@[0] == UserFlag::NotifyReviewApprovals);
            assert(r@[1] == UserFlag::NotifyReviewInlineComments);
            assert(r@[2] == UserFlag::NotifyReviewerAdded);
        }
    }
    r
}

/// All flags that deal with review comments.
pub fn review_comment_flags() -> (r: Vec<UserFlag>)
    ensures
        r@ == review_comment_flag_seq(),
{
    let r = vec![UserFlag::NotifyReviewApprovals, UserFlag::NotifyReviewComments, UserFlag::NotifyReviewInlineComments];
    assert(r@ =~= review_comment_flag_seq());
    r
}

/// All flags that deal with notifications.
pub fn notification_flags() -> (r: Vec<UserFlag>)
    ensures
        r@ == notification_flag_seq(),
{
    let r = vec![
        UserFlag::NotifyReviewApprovals,
        UserFlag::NotifyReviewComments,
        UserFlag::NotifyReviewInlineComments,
        UserFlag::NotifyReviewerAdded,
        UserFlag::NotifyReviewResponses,
        UserFlag::NotifyChangeMerged,
        UserFlag::NotifyChangeAbandoned,
    ];
    assert(r@ =~= notification_flag_seq());
    r
}

/// The set of flags a user has chosen: either the defaults, or an explicit
/// set once the user changed any flag.
#[derive(Clone, Debug)]
pub enum UserFlags {
    Default,
    Custom(Vec<UserFlag>),
}

impl View for UserFlags {
    type V = Set<UserFlag>;

    open spec fn view(&self) -> Set<UserFlag> {
        match self {
            UserFlags::Default => default_flag_set(),
            UserFlags::Custom(v) => v@.to_set(),
        }
    }
}

fn seq_contains_flag(v: &[UserFlag], flag: UserFlag) -> (r: bool)
    ensures
        r == v@.contains(flag),
{
    let mut i: usize = 0;
    while i < v.len()
        invariant
            i <= v@.len(),
            forall|j: int| 0 <= j < i ==> v@[j] != flag,
        decreases v@.len() - i,
    {
        if v[i] == flag {
            assert(v@[i as int] == flag);
            return true;
        }
        i = i + 1;
    }
    false
}

fn insert_flag(v: &mut Vec<UserFlag>, flag: UserFlag)
    ensures
        final(v)@.to_set() == old(v)@.to_set().insert(flag),
{
    if !seq_contains_flag(v.as_slice(), flag) {
        v.push(flag);
        proof {
            assert(final(v)@.to_set() =~= old(v)@.to_set().insert(flag)) by {
                assert(final(v)@ == old(v)@.push(flag));
                assert forall|f: UserFlag| final(v)@.contains(f) <==> (old(v)@.contains(f) || f == flag) by {
                    if old(v)@.contains(f) {
                        let k = choose|k: int| 0 <= k < old(v)@.len() && old(v)@[k] == f;
                        assert(final(v)@[k] == f);
                    }
                    if f == flag {
                        assert(final(v)@[old(v)@.len() as int] == flag);
                    }
                }
            }
        }
    } else {
        assert(old(v)@.to_set().insert(flag) =~= old(v)@.to_set());
    }
}

fn remove_flag(v: &mut Vec<UserFlag>, flag: UserFlag)
    ensures
        final(v)@.to_set() == old(v)@.to_set().remove(flag),
{
    let mut r: Vec<UserFlag> = Vec::new();
    let mut i: usize = 0;
    while i < v.len()
        invariant
            i <= v@.len(),
            forall|f: UserFlag| #![trigger r@.contains(f)] r@.contains(f) <==> (f != flag && v@.subrange(0, i as int).contains(f)),
        decreases v@.len() - i,
    {
        let f = v[i];
        let ghost before = r@;
        if f != flag {
            r.push(f);
        }
        proof {
            let pre = v@.subrange(0, i as int);
            let post = v@.subrange(0, i + 1);
            assert(post == pre.push(f));
            assert forall|g: UserFlag| #![trigger r@.contains(g)] r@.contains(g) <==> (g != flag && post.contains(g)) by {
                assert(before.contains(g) <==> (g != flag && pre.contains(g)));
                if post.contains(g) && g != flag {
                    let k = choose|k: int| 0 <= k < post.len() && post[k] == g;
                    if k < pre.len() {
                        assert(pre[k] == g);
                        assert(before.contains(g));
                        let m = choose|m: int| 0 <= m < before.len() && before[m] == g;
                        assert(r@[m] == g);
                    } else {
                        assert(r@[r@.len() - 1] == g);
                    }
                }
                if r@.contains(g) {
                    let m = choose|m: int| 0 <= m < r@.len() && r@[m] == g;
                    if m < before.len() {
                        assert(before[m] == g);
                        assert(pre.contains(g));
                        let k = choose|k: int| 0 <= k < pre.len() && pre[k] == g;
                        assert(post[k] == g);
                    } else {
                        assert(post[i as int] == g);
                    }
                }
            }
        }
        i = i + 1;
    }
    proof {
        assert(v@.subrange(0, v@.len() as int) == v@);
        assert(r@.to_set() =~= v@.to_set().remove(flag));
    }
    *v = r;
}

impl UserFlags {
    /// Whether the flag is in the set.
    pub fn contains(&self, flag: UserFlag) -> (r: bool)
        ensures
            r == self@.contains(flag),
    {
        match self {
            UserFlags::Default => {
                let d = default_flags();
                seq_contains_flag(d.as_slice(), flag)
            },
            UserFlags::Custom(set) => seq_contains_flag(set.as_slice(), flag),
        }
    }

    /// Whether the user never changed any flag.
    pub fn is_default(&self) -> (r: bool)
        ensures
            r == (self is Default),
    {
        matches!(self, UserFlags::Default)
    }

    /// Goes back to the default flags.
    pub fn reset(&mut self)
        ensures
            *final(self) is Default,
            final(self)@ == default_flag_set(),
    {
        *self = UserFlags::Default;
    }

    /// Adds (`value`) or removes (`!value`) a flag; the set becomes explicit.
    pub fn set(&mut self, flag: UserFlag, value: bool)
        ensures
            *final(self) is Custom,
            final(self)@ == (if value { old(self)@.insert(flag) } else { old(self)@.remove(flag) }),
    {
        let mut v = match self {
            UserFlags::Default => default_flags(),
            UserFlags::Custom(set) => set.clone(),
        };
        assert(v@.to_set() == old(self)@);
        if value {
            insert_flag(&mut v, flag);
        } else {
            remove_flag(&mut v, flag);
        }
        *self = UserFlags::Custom(v);
    }
}

impl Default for UserFlags {
    fn default() -> (r: Self)
        ensures
            r is Default,
    {
        UserFlags::Default
    }
}

} // verus!
