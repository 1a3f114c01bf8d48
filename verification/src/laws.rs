//! Properties of the library as a whole: what holds across calls and of
//! every state, stated over the same specifications as the functions.

use vstd::prelude::*;

use crate::bot::{
    approval_lines, approval_recipient, approvals_of_patchset, candidates, command_result,
    comment_added_result, email_of, enabled_filter, extended_info_for, held_back, is_human,
    limiter_after, notify_recipients, opt_view, recipient_of, update_result, voters,
    Action, MessageInput, TaskView,
};
use crate::command::{command_of, filter_argument, has_filter_prefix, is_keyword, lowercase, parse_command, Command, CommandView};
use crate::config::ends_with;
use crate::gerrit_events::{self, ChangeAbandonedEvent, ChangeMergedEvent, CommentAddedEvent, Change, Event, ExtendedInfo, PatchSet};
use crate::rate_limit::{all_hits, cache_capacity, cache_order, cached_lines, lru_step, recorded, recorded_all, CacheLineView, RateLimiter};
use crate::flags::{flag_from_name, flag_name, UserFlag, UserFlags};
use crate::session::{
    forwarded_line, is_runner_run, is_stream_run, line_of, lines_forwarded, lines_read, pending,
    replies, requests_taken, runner_fits, runner_step, stream_fits, stream_step, takes_command,
    Runner, RunnerAction, RunnerEvent, StreamAction, StreamEvent, Streamer,
};
use crate::spark_bot;
use crate::state::{
    add_filter_result, add_user_result, at_most_one, enable_result, filter_enable_result,
    filter_of, filtered, filters_compile, first_match, has_user, last_match,
    lemma_last_match_unique, lemma_matches, lemma_target_found, lemma_target_keeps_unique, lookup,
    reset_flags_result, set_flag_result, state_run, state_step, target, target_before,
    unique_emails, StateOp,
};
use crate::text::{contains_seq, is_white_space, lemma_trim_idempotent, lemma_trim_surrounded, trim};
use crate::user::{has_flag_spec, User};

verus! {

/// Reading back the name of a flag gives the flag.
pub proof fn flag_name_round_trip(f: UserFlag)
    ensures
        flag_from_name(flag_name(f)) == Some(f),
{
    reveal_strlit("notify_review_approvals");
    reveal_strlit("notify_review_comments");
    reveal_strlit("notify_review_inline_comments");
    reveal_strlit("notify_reviewer_added");
    reveal_strlit("notify_review_responses");
    reveal_strlit("notify_change_merged");
    reveal_strlit("notify_change_abandoned");
    match f {
        UserFlag::NotifyReviewComments => {
            assert("notify_review_comments"@.len() != "notify_review_approvals"@.len());
        },
        UserFlag::NotifyReviewInlineComments => {
            assert("notify_review_inline_comments"@.len() != "notify_review_approvals"@.len());
            assert("notify_review_inline_comments"@.len() != "notify_review_comments"@.len());
        },
        UserFlag::NotifyReviewerAdded => {
            assert("notify_reviewer_added"@.len() != "notify_review_approvals"@.len());
            assert("notify_reviewer_added"@.len() != "notify_review_comments"@.len());
            assert("notify_reviewer_added"@.len() != "notify_review_inline_comments"@.len());
        },
        UserFlag::NotifyReviewResponses => {
            assert("notify_review_responses"@[14] != "notify_review_approvals"@[14]);
            assert("notify_review_responses"@.len() != "notify_review_comments"@.len());
            assert("notify_review_responses"@.len() != "notify_review_inline_comments"@.len());
            assert("notify_review_responses"@.len() != "notify_reviewer_added"@.len());
        },
        UserFlag::NotifyChangeMerged => {
            assert("notify_change_merged"@.len() != "notify_review_approvals"@.len());
            assert("notify_change_merged"@.len() != "notify_review_comments"@.len());
            assert("notify_change_merged"@.len() != "notify_review_inline_comments"@.len());
            assert("notify_change_merged"@.len() != "notify_reviewer_added"@.len());
            assert("notify_change_merged"@.len() != "notify_review_responses"@.len());
        },
        UserFlag::NotifyChangeAbandoned => {
            assert("notify_change_abandoned"@[7] != "notify_review_approvals"@[7]);
            assert("notify_change_abandoned"@.len() != "notify_review_comments"@.len());
            assert("notify_change_abandoned"@.len() != "notify_review_inline_comments"@.len());
            assert("notify_change_abandoned"@.len() != "notify_reviewer_added"@.len());
            assert("notify_change_abandoned"@[7] != "notify_review_responses"@[7]);
            assert("notify_change_abandoned"@.len() != "notify_change_merged"@.len());
        },
        _ => {},
    }
}

/// Different flags have different names.
pub proof fn flag_names_distinct(f: UserFlag, g: UserFlag)
    ensures
        flag_name(f) == flag_name(g) ==> f == g,
{
    flag_name_round_trip(f);
    flag_name_round_trip(g);
}

/// After setting or clearing a flag, the flag is held exactly when it was
/// set, and every other flag is held as before.
pub proof fn flag_set_then_contains(before: UserFlags, after: UserFlags, flag: UserFlag, value: bool, other: UserFlag)
    requires
        after@ == (if value { before@.insert(flag) } else { before@.remove(flag) }),
    ensures
        after@.contains(flag) == value,
        other != flag ==> after@.contains(other) == before@.contains(other),
{
}

/// White space around a message does not change the command it stands for.
pub proof fn command_ignores_surrounding_white_space(before: Seq<char>, text: Seq<char>, after: Seq<char>)
    requires
        forall|j: int| 0 <= j < before.len() ==> is_white_space(#[trigger] before[j]),
        forall|j: int| 0 <= j < after.len() ==> is_white_space(#[trigger] after[j]),
    ensures
        command_of(before + text + after) == command_of(text),
{
    lemma_trim_surrounded(before, text, after);
}

/// Turning notifications on or off twice in a row does no more than once.
pub proof fn enable_is_idempotent(old: Seq<User>, mid: Seq<User>, new: Seq<User>, email: Seq<char>, enabled: bool)
    requires
        enable_result(old, mid, email, enabled),
        enable_result(mid, new, email, enabled),
    ensures
        new == mid,
{
    let b = choose|b: User| #![trigger target_before(old, email, b)]
        target_before(old, email, b) && mid[target(old, email)] == (User { enabled, ..b });
    lemma_target_found(old, mid, email, b);
    let t = target(old, email);
    if has_user(old, email) {
        lemma_matches(old, email);
        assert forall|j: int| 0 <= j < t implies #[trigger] mid[j].email@ != email by {
            assert(mid[j] == old[j]);
        }
    } else {
        assert forall|j: int| 0 <= j < t implies #[trigger] mid[j].email@ != email by {
            assert(mid[j] == old[j]);
        }
    }
    crate::state::lemma_first_match_unique(mid, email, t);
    assert(target(mid, email) == t);
    let c = choose|c: User| #![trigger target_before(mid, email, c)]
        target_before(mid, email, c) && new[target(mid, email)] == (User { enabled, ..c });
    assert(c == mid[t]);
    assert(new =~= mid);
}

/// Where a user's email occurs at most once, turning notifications on or
/// off for it is what a lookup of that email then shows; the user exists
/// afterwards.
pub proof fn enable_then_lookup(old: Seq<User>, new: Seq<User>, email: Seq<char>, enabled: bool)
    requires
        enable_result(old, new, email, enabled),
        at_most_one(old, email),
    ensures
        lookup(new, email) matches Some(u) && u.enabled == enabled,
{
    let b = choose|b: User| #![trigger target_before(old, email, b)]
        target_before(old, email, b) && new[target(old, email)] == (User { enabled, ..b });
    lemma_target_found(old, new, email, b);
}

/// Where a user's email occurs at most once, a flag set or cleared for it is
/// what a lookup of that email then shows.
pub proof fn set_flag_then_lookup(old: Seq<User>, new: Seq<User>, email: Seq<char>, flag: UserFlag, value: bool)
    requires
        set_flag_result(old, new, email, flag, value),
        at_most_one(old, email),
    ensures
        lookup(new, email) matches Some(u) && u.flags@.contains(flag) == value,
{
    let b = choose|b: User| #![trigger target_before(old, email, b)]
        target_before(old, email, b)
        && new[target(old, email)].flags@ == (if value { b.flags@.insert(flag) } else { b.flags@.remove(flag) })
        && new[target(old, email)] == (User { flags: new[target(old, email)].flags, ..b });
    lemma_target_found(old, new, email, b);
}

/// Where a user's email occurs at most once, a filter that was accepted is
/// what the filter status then reports, enabled.
pub proof fn added_filter_is_reported(old: Seq<User>, new: Seq<User>, email: Seq<char>, pattern: Seq<char>)
    requires
        add_filter_result(old, new, email, pattern, true),
        at_most_one(old, email),
    ensures
        filter_of(new, email) == Some((pattern, true)),
{
    let b = choose|b: User| #![trigger target_before(old, email, b)]
        target_before(old, email, b) && new[target(old, email)] == (User {
            filter: Some(crate::user::Filter { regex: new[target(old, email)].filter->0.regex, enabled: true }),
            ..b
        });
    lemma_target_found(old, new, email, b);
}

/// Enabling or disabling a filter is what the filter status then reports;
/// without a filter, there is still none.
pub proof fn toggled_filter_is_reported(old: Seq<User>, new: Seq<User>, email: Seq<char>, enabled: bool, pattern: Option<Seq<char>>)
    requires
        filter_enable_result(old, new, email, enabled, pattern),
    ensures
        pattern matches Some(p) ==> filter_of(new, email) == Some((p, enabled)),
        pattern is None ==> filter_of(new, email) is None,
{
    if filter_of(old, email) is Some {
        lemma_matches(old, email);
        let i = last_match(old, email);
        assert forall|j: int| i < j < new.len() implies #[trigger] new[j].email@ != email by {
            assert(new[j] == old[j]);
        }
        lemma_last_match_unique(new, email, i);
    }
}

/// Settings commands keep every email unique: one that was not known is
/// added once, and a known one keeps its place.
pub proof fn settings_keep_emails_unique(old: Seq<User>, new: Seq<User>, email: Seq<char>, enabled: bool, flag: UserFlag, value: bool, pattern: Seq<char>, ok: bool, toggled: Option<Seq<char>>)
    requires
        unique_emails(old),
    ensures
        enable_result(old, new, email, enabled) ==> unique_emails(new),
        set_flag_result(old, new, email, flag, value) ==> unique_emails(new),
        add_filter_result(old, new, email, pattern, ok) ==> unique_emails(new),
        filter_enable_result(old, new, email, enabled, toggled) ==> unique_emails(new),
{
    if enable_result(old, new, email, enabled) {
        let b = choose|b: User| #![trigger target_before(old, email, b)]
            target_before(old, email, b) && new[target(old, email)] == (User { enabled, ..b });
        lemma_target_keeps_unique(old, new, email, b);
    }
    if set_flag_result(old, new, email, flag, value) {
        let b = choose|b: User| #![trigger target_before(old, email, b)]
            target_before(old, email, b)
            && new[target(old, email)].flags@ == (if value { b.flags@.insert(flag) } else { b.flags@.remove(flag) })
            && new[target(old, email)] == (User { flags: new[target(old, email)].flags, ..b });
        lemma_target_keeps_unique(old, new, email, b);
    }
    if add_filter_result(old, new, email, pattern, ok) {
        let b = choose|b: User| #![trigger target_before(old, email, b)]
            target_before(old, email, b) && new[target(old, email)] == (if ok {
                User { filter: Some(crate::user::Filter { regex: new[target(old, email)].filter->0.regex, enabled: true }), ..b }
            } else {
                b
            });
        lemma_target_keeps_unique(old, new, email, b);
    }
    if filter_enable_result(old, new, email, enabled, toggled) && filter_of(old, email) is Some {
        lemma_matches(old, email);
        let i = last_match(old, email);
        assert forall|a: int, c: int| 0 <= a < new.len() && 0 <= c < new.len() && #[trigger] new[a].email@ == #[trigger] new[c].email@ implies a == c by {
            assert(old[a].email@ == new[a].email@ && old[c].email@ == new[c].email@);
        }
    }
}

/// A message stands for the same command as its trimmed form, and for none
/// exactly when its trimmed, lowercase form is no command word and the
/// trimmed text is no `filter <regex>`.
pub proof fn command_of_trimmed(text: Seq<char>)
    ensures
        command_of(text) == command_of(trim(text)),
        command_of(text) is None <==> (!is_keyword(lowercase(trim(text))) && filter_argument(trim(text)) is None),
{
    lemma_trim_idempotent(text);
}

/// Every stored filter compiles, and the settings operations keep it so:
/// a filter is stored only when its pattern compiles.
pub proof fn settings_keep_filters_compiling(old: Seq<User>, new: Seq<User>, email: Seq<char>, enabled: bool, flag: UserFlag, value: bool, pattern: Seq<char>, toggled: Option<Seq<char>>)
    requires
        filters_compile(old),
    ensures
        enable_result(old, new, email, enabled) ==> filters_compile(new),
        set_flag_result(old, new, email, flag, value) ==> filters_compile(new),
        add_filter_result(old, new, email, pattern, crate::pattern::regex_compiles(pattern)) ==> filters_compile(new),
        filter_enable_result(old, new, email, enabled, toggled) ==> filters_compile(new),
{
    let t = target(old, email);
    if has_user(old, email) {
        lemma_matches(old, email);
    }
    if enable_result(old, new, email, enabled) {
        let b = choose|b: User| #![trigger target_before(old, email, b)]
            target_before(old, email, b) && new[target(old, email)] == (User { enabled, ..b });
        assert forall|i: int| 0 <= i < new.len() implies (#[trigger] new[i].filter matches Some(f) ==> crate::pattern::regex_compiles(f.regex@)) by {
            if i != t {
                assert(new[i] == old[i]);
            }
        }
    }
    if set_flag_result(old, new, email, flag, value) {
        let b = choose|b: User| #![trigger target_before(old, email, b)]
            target_before(old, email, b)
            && new[target(old, email)].flags@ == (if value { b.flags@.insert(flag) } else { b.flags@.remove(flag) })
            && new[target(old, email)] == (User { flags: new[target(old, email)].flags, ..b });
        assert forall|i: int| 0 <= i < new.len() implies (#[trigger] new[i].filter matches Some(f) ==> crate::pattern::regex_compiles(f.regex@)) by {
            if i != t {
                assert(new[i] == old[i]);
            }
        }
    }
    if add_filter_result(old, new, email, pattern, crate::pattern::regex_compiles(pattern)) {
        let ok = crate::pattern::regex_compiles(pattern);
        let b = choose|b: User| #![trigger target_before(old, email, b)]
            target_before(old, email, b) && new[target(old, email)] == (if ok {
                User { filter: Some(crate::user::Filter { regex: new[target(old, email)].filter->0.regex, enabled: true }), ..b }
            } else {
                b
            });
        assert forall|i: int| 0 <= i < new.len() implies (#[trigger] new[i].filter matches Some(f) ==> crate::pattern::regex_compiles(f.regex@)) by {
            if i != t {
                assert(new[i] == old[i]);
            }
        }
    }
    if filter_enable_result(old, new, email, enabled, toggled) && filter_of(old, email) is Some {
        let k = last_match(old, email);
        assert forall|i: int| 0 <= i < new.len() implies (#[trigger] new[i].filter matches Some(f) ==> crate::pattern::regex_compiles(f.regex@)) by {
            if i != k {
                assert(new[i] == old[i]);
            } else {
                assert(old[k].filter matches Some(f) ==> crate::pattern::regex_compiles(f.regex@));
            }
        }
    }
}

/// Where emails are unique, a lookup finds the first (and only) user with
/// the email.
pub proof fn lookup_is_first_match(users: Seq<User>, email: Seq<char>)
    requires
        unique_emails(users),
    ensures
        lookup(users, email) == (if has_user(users, email) { Some(users[first_match(users, email)]) } else { None }),
{
    if has_user(users, email) {
        lemma_matches(users, email);
        assert(users[first_match(users, email)].email@ == users[last_match(users, email)].email@);
    }
}

/// Adding a user for an email nobody has keeps emails unique.
pub proof fn adding_new_user_keeps_emails_unique(old: Seq<User>, new: Seq<User>, email: Seq<char>)
    requires
        unique_emails(old),
        !has_user(old, email),
        add_user_result(old, new, email),
    ensures
        unique_emails(new),
{
    let n = old.len() as int;
    assert forall|i: int| 0 <= i < n implies #[trigger] new[i] == old[i] by {
        assert(new.subrange(0, n)[i] == new[i]);
    }
    assert forall|i: int, j: int| 0 <= i < new.len() && 0 <= j < new.len() && #[trigger] new[i].email@ == #[trigger] new[j].email@ implies i == j by {
        if i < n && j < n {
            assert(old[i].email@ == old[j].email@);
        } else if i < n {
            assert(old[i].email@ == email);
        } else if j < n {
            assert(old[j].email@ == email);
        }
    }
}

/// Resetting a user's flags keeps emails unique.
pub proof fn reset_flags_keeps_emails_unique(old: Seq<User>, new: Seq<User>, email: Seq<char>)
    requires
        unique_emails(old),
        reset_flags_result(old, new, email),
    ensures
        unique_emails(new),
{
    let b = choose|b: User| #![trigger target_before(old, email, b)]
        target_before(old, email, b) && new[target(old, email)] == (User { flags: new[target(old, email)].flags, ..b });
    lemma_target_keeps_unique(old, new, email, b);
}

/// Every state reached from a state without users by adding users with new
/// emails, turning notifications on and off, setting and resetting flags,
/// and adding and toggling filters has unique emails, and a lookup there
/// finds the first user with the email.
pub proof fn reached_states_keep_emails_unique(states: Seq<Seq<User>>, ops: Seq<StateOp>, k: int)
    requires
        state_run(states, ops),
        0 <= k <= ops.len(),
    ensures
        unique_emails(states[k]),
        forall|email: Seq<char>| #[trigger] lookup(states[k], email)
            == (if has_user(states[k], email) { Some(states[k][first_match(states[k], email)]) } else { None }),
    decreases k,
{
    if k > 0 {
        reached_states_keep_emails_unique(states, ops, k - 1);
        let old = states[k - 1];
        let new = states[k];
        assert(state_step(old, new, ops[k - 1]));
        match ops[k - 1] {
            StateOp::AddNewUser { email } => adding_new_user_keeps_emails_unique(old, new, email),
            StateOp::Enable { email, enabled } => settings_keep_emails_unique(old, new, email, enabled, UserFlag::NotifyReviewApprovals, true, seq![], true, None),
            StateOp::SetFlag { email, flag, value } => settings_keep_emails_unique(old, new, email, true, flag, value, seq![], true, None),
            StateOp::ResetFlags { email } => reset_flags_keeps_emails_unique(old, new, email),
            StateOp::AddFilter { email, pattern } => settings_keep_emails_unique(old, new, email, true, UserFlag::NotifyReviewApprovals, true, pattern, crate::pattern::regex_compiles(pattern), None),
            StateOp::EnableFilter { email, enabled, reported } => settings_keep_emails_unique(old, new, email, enabled, UserFlag::NotifyReviewApprovals, true, seq![], true, reported),
        }
    }
    assert forall|email: Seq<char>| #[trigger] lookup(states[k], email)
        == (if has_user(states[k], email) { Some(states[k][first_match(states[k], email)]) } else { None }) by {
        lookup_is_first_match(states[k], email);
    }
}

/// What the bot hands to a user's filter is that user's enabled filter: a
/// notification is held back exactly when the state says the user filters it.
pub proof fn recipient_filter_agrees_with_state(u: User, message: Seq<char>)
    ensures
        recipient_of(u).filter == enabled_filter(u),
        held_back(enabled_filter(u), message) == filtered(u, message),
{
}

/// Notifications about a change go only to users who are enabled and hold
/// the flag in question, never to the person who acted, and they carry that
/// user's filter.
pub proof fn notified_users_want_it(users: Seq<User>, cands: Seq<gerrit_events::User>, actor: Option<Seq<char>>, flag: UserFlag, k: int)
    requires
        0 <= k < notify_recipients(users, cands, actor, flag).len(),
    ensures
        exists|i: int| 0 <= i < users.len()
            && has_flag_spec(#[trigger] users[i], flag)
            && actor != Some(users[i].email@)
            && notify_recipients(users, cands, actor, flag)[k] == recipient_of(users[i]),
    decreases cands.len(),
{
    let prefix = notify_recipients(users, cands.drop_last(), actor, flag);
    if k < prefix.len() {
        notified_users_want_it(users, cands.drop_last(), actor, flag, k);
        let i = choose|i: int| 0 <= i < users.len()
            && has_flag_spec(#[trigger] users[i], flag)
            && actor != Some(users[i].email@)
            && prefix[k] == recipient_of(users[i]);
        assert(notify_recipients(users, cands, actor, flag)[k] == prefix[k]);
        assert(has_flag_spec(users[i], flag));
    } else {
        let c = cands.last();
        let e = c.email->0;
        lemma_matches(users, e@);
        let i = last_match(users, e@);
        assert(notify_recipients(users, cands, actor, flag)[k] == recipient_of(users[i]));
        assert(has_flag_spec(users[i], flag));
    }
}

/// A comment by someone else on a change whose owner is a disabled user
/// tells nobody and leaves the rate limiter alone.
pub proof fn disabled_owner_is_not_told(users: Seq<User>, old: RateLimiter, new: RateLimiter, event: CommentAddedEvent, tasks: Seq<TaskView>)
    requires
        comment_added_result(users, old, new, event, tasks),
        email_of(event.change.owner) != email_of(event.author),
        event.change.owner.email matches Some(e) && lookup(users, e@) matches Some(u) && !u.enabled,
    ensures
        tasks.len() == 0,
        new == old,
{
    assert(approval_recipient(users, event) is None);
}

/// A rate limiter that has not recorded anything yet holds back no message.
pub proof fn fresh_limiter_holds_nothing_back(old: RateLimiter, new: RateLimiter, lines: Seq<CacheLineView>, held: bool)
    requires
        limiter_after(old, new, lines, held),
        lines.len() > 0,
        old.cache matches Some(c) ==> cached_lines(c) == Set::<CacheLineView>::empty(),
    ensures
        !held,
{
    if held && old.cache is Some {
        assert(lines.subrange(0, 0) =~= Seq::<CacheLineView>::empty());
        assert(!cached_lines(old.cache->0).contains(lines[0]));
    }
}

/// A one-line message is held back exactly when the cache still held its
/// line once the expired lines were dropped (how many expired depends on
/// the clock); the line is then held last.
pub proof fn repeat_held_while_still_cached(old: RateLimiter, new: RateLimiter, line: CacheLineView, held: bool)
    requires
        old.cache is Some,
        limiter_after(old, new, seq![line], held),
    ensures
        exists|k: int| 0 <= k <= cache_order(old.cache->0).len()
            && #[trigger] lru_step(cache_order(old.cache->0).skip(k), cache_order(new.cache->0), line, cache_capacity(old.cache->0), held),
{
    let c = old.cache->0;
    let d = new.cache->0;
    let (orders, hits) = choose|orders: Seq<Seq<CacheLineView>>, hits: Seq<bool>|
        #![trigger recorded_all(orders, hits, seq![line], cache_capacity(c))]
        recorded_all(orders, hits, seq![line], cache_capacity(c))
        && orders[0] == cache_order(c)
        && orders.last() == cache_order(d)
        && held == all_hits(hits);
    assert(seq![line][0] == line);
    assert(recorded(orders[0], orders[1], seq![line][0], cache_capacity(c), hits[0]));
    assert(held == hits[0]) by {
        if hits[0] {
            assert forall|j: int| 0 <= j < hits.len() implies #[trigger] hits[j] by {
                assert(j == 0);
            }
        }
    }
    assert(orders[1] == orders.last());
}

/// A rate limiter whose cache has room for one line forgets a line as soon
/// as another is recorded: after a message whose last line is `b`, a message
/// whose first line is not `b` is not held back.
pub proof fn single_line_cache_forgets(first: RateLimiter, second: RateLimiter, third: RateLimiter, lines: Seq<CacheLineView>, held: bool, next_lines: Seq<CacheLineView>, next_held: bool)
    requires
        first.cache matches Some(c) && cache_capacity(c) == 1,
        limiter_after(first, second, lines, held),
        limiter_after(second, third, next_lines, next_held),
        lines.len() > 0,
        next_lines.len() > 0,
        next_lines[0] != lines.last(),
    ensures
        !next_held,
{
    let d = second.cache->0;
    let b = lines.last();
    let held_lines = cached_lines(d);
    assert(held_lines.contains(b));
    assert(held_lines.remove(b).len() == 0);
    assert(held_lines.remove(b) =~= Set::<CacheLineView>::empty()) by {
        if exists|x: CacheLineView| held_lines.remove(b).contains(x) {
            let x = choose|x: CacheLineView| held_lines.remove(b).contains(x);
            assert(held_lines.remove(b).remove(x).len() + 1 == 0);
        }
    }
    if next_held {
        assert(next_lines.subrange(0, 0) =~= Seq::<CacheLineView>::empty());
        assert(held_lines.contains(next_lines[0]));
        assert(held_lines.remove(b).contains(next_lines[0]));
    }
}

/// `t` is an answer to `email`: a reply to it, or a message formatted for it alone.
pub open spec fn answers(t: TaskView, email: Seq<char>) -> bool {
    match t {
        TaskView::Reply { email: to, .. } => to == email,
        TaskView::Format { recipients, .. } => recipients.len() == 1 && recipients[0].email == email,
        TaskView::Save => false,
    }
}

/// Every command is answered: the last task is the answer to the sender.
pub proof fn every_command_is_answered(old: Seq<User>, new: Seq<User>, sender: Seq<char>, command: Command, tasks: Seq<TaskView>)
    requires
        command_result(old, new, sender, command, tasks),
    ensures
        tasks.len() > 0,
        answers(tasks.last(), sender),
{
}

/// Commands keep the state valid: emails stay unique and every stored
/// filter compiles.
pub proof fn commands_keep_state_valid(old: Seq<User>, new: Seq<User>, sender: Seq<char>, command: Command, tasks: Seq<TaskView>)
    requires
        command_result(old, new, sender, command, tasks),
    ensures
        unique_emails(old) ==> unique_emails(new),
        filters_compile(old) ==> filters_compile(new),
{
    let toggled = match filter_of(old, sender) {
        Some((p, _)) => Some(p),
        None => None,
    };
    let f = UserFlag::NotifyReviewApprovals;
    let (enabled, flag, value, pattern) = match command {
        Command::Enable => (true, f, true, seq![]),
        Command::Disable => (false, f, true, seq![]),
        Command::FilterAdd(p) => (true, f, true, p@),
        Command::FilterEnable(b) => (b, f, true, seq![]),
        Command::SetFlag(g, v) => (true, g, v, seq![]),
        _ => (true, f, true, seq![]),
    };
    if unique_emails(old) {
        settings_keep_emails_unique(old, new, sender, enabled, flag, value, pattern, crate::pattern::regex_compiles(pattern), toggled);
    }
    if filters_compile(old) {
        settings_keep_filters_compiling(old, new, sender, enabled, flag, value, pattern, toggled);
    }
}

/// In the person-id bot, turning notifications on or off for a person is
/// what the person's status then shows; the person is added where unknown,
/// and nobody else is.
pub proof fn person_enable_then_status(old: Seq<spark_bot::User>, new: Seq<spark_bot::User>, pid: Seq<char>, email: Seq<char>, enabled: bool)
    requires
        spark_bot::enable_result(old, new, pid, email, enabled),
    ensures
        spark_bot::person_enabled(new, pid) == enabled,
        new.len() == old.len() + (if spark_bot::has_person(old, pid) { 0int } else { 1int }),
{
    if spark_bot::has_person(old, pid) {
        spark_bot::lemma_first_person_exists(old, pid);
        let i = spark_bot::first_person(old, pid);
        assert forall|j: int| 0 <= j < i implies #[trigger] new[j].spark_person_id@ != pid by {
            assert(new[j] == old[j]);
        }
        spark_bot::lemma_first_person(new, pid, i);
    } else {
        let n = old.len() as int;
        assert forall|j: int| 0 <= j < n implies #[trigger] new[j].spark_person_id@ != pid by {
            assert(new[j] == new.drop_last()[j]);
            assert(old[j].spark_person_id@ != pid);
        }
        assert(new[n] == new.last());
        spark_bot::lemma_first_person(new, pid, n);
    }
}

proof fn runner_step_counts(s: Runner, e: RunnerEvent, t: Runner, a: RunnerAction)
    requires
        runner_fits(s, e),
        runner_step(s, e, t, a),
    ensures
        !(s is Stopped),
        !(t is Stopped) ==> pending(s) + (if takes_command(e) { 1int } else { 0int }) == pending(t) + (if a is Reply { 1int } else { 0int }),
        t is Stopped ==> pending(s) + (if takes_command(e) { 1int } else { 0int }) <= 1 && !(a is Reply) && pending(t) == 0,
{
    if s is Waiting {
        if takes_command(e) {
            assert(t is Opening);
        } else {
            assert(t is Stopped);
        }
    } else {
        assert(!takes_command(e));
        if s is Reconnecting || s is Opening {
            assert(!(a is Reply));
            assert(t is Opening || t is Stopped || t is Executing || t is Reconnecting);
        } else if s is Executing || s is Reading || s is Closing {
            assert((t is Replying && a is Reply) || t is Reading || t is Closing);
        } else {
            assert(s is Replying);
            assert(pending(t) == 0 && !(a is Reply));
        }
    }
}

/// The command runner answers each command it takes exactly once, before it
/// takes the next one, and never answers without a command: at every point of
/// a run that starts without a pending command, the commands taken are the
/// results handed back plus the one in progress, if any. Where it stops for
/// good (the requester went away, or reconnecting failed), the one command in
/// progress, if any, stays unanswered.
pub proof fn each_command_answered_once(states: Seq<Runner>, events: Seq<RunnerEvent>, actions: Seq<RunnerAction>, k: int)
    requires
        is_runner_run(states, events, actions),
        pending(states[0]) == 0,
        0 <= k <= events.len(),
    ensures
        !(states[k] is Stopped) ==> requests_taken(events.take(k)) == replies(actions.take(k)) + pending(states[k]),
        replies(actions.take(k)) <= requests_taken(events.take(k)) <= replies(actions.take(k)) + 1,
    decreases k,
{
    if k == 0 {
        assert(events.take(0) =~= Seq::<RunnerEvent>::empty());
        assert(actions.take(0) =~= Seq::<RunnerAction>::empty());
        if events.len() > 0 {
            assert(runner_fits(states[0], events[0]));
        }
    } else {
        each_command_answered_once(states, events, actions, k - 1);
        assert(events.take(k).drop_last() =~= events.take(k - 1));
        assert(actions.take(k).drop_last() =~= actions.take(k - 1));
        assert(events.take(k).last() == events[k - 1]);
        assert(actions.take(k).last() == actions[k - 1]);
        let e = events[k - 1];
        assert(runner_fits(states[k - 1], e) && runner_step(states[k - 1], e, states[k], actions[k - 1]));
        runner_step_counts(states[k - 1], e, states[k], actions[k - 1]);
    }
}

proof fn stream_step_lines(s: Streamer, e: StreamEvent, t: Streamer, a: StreamAction)
    requires
        stream_fits(s, e),
        stream_step(s, e, t, a),
    ensures
        forwarded_line(a) == line_of(e),
{
    if s is Streaming {
        match e {
            StreamEvent::LineRead(Some(Ok(l))) => {
                assert(a is Forward);
            },
            _ => {},
        }
    }
}

/// The event stream hands on every line it reads, once and in order, and
/// nothing else, across reconnections.
pub proof fn stream_forwards_lines_in_order(states: Seq<Streamer>, events: Seq<StreamEvent>, actions: Seq<StreamAction>, k: int)
    requires
        is_stream_run(states, events, actions),
        0 <= k <= events.len(),
    ensures
        lines_forwarded(actions.take(k)) == lines_read(events.take(k)),
    decreases k,
{
    if k == 0 {
        assert(events.take(0) =~= Seq::<StreamEvent>::empty());
        assert(actions.take(0) =~= Seq::<StreamAction>::empty());
    } else {
        stream_forwards_lines_in_order(states, events, actions, k - 1);
        assert(events.take(k).drop_last() =~= events.take(k - 1));
        assert(actions.take(k).drop_last() =~= actions.take(k - 1));
        assert(events.take(k).last() == events[k - 1]);
        assert(actions.take(k).last() == actions[k - 1]);
        let e = events[k - 1];
        assert(stream_fits(states[k - 1], e) && stream_step(states[k - 1], e, states[k], actions[k - 1]));
        stream_step_lines(states[k - 1], e, states[k], actions[k - 1]);
    }
}

/// The accounts considered for a notice about a change are the voters of
/// its patch set, in order, followed by the change owner, whatever the votes.
pub proof fn owner_follows_the_voters(change: Change, ps: PatchSet)
    ensures
        candidates(change, ps).len() == voters(approvals_of_patchset(ps)).len() + 1,
        candidates(change, ps).last() == change.owner,
        forall|k: int| 0 <= k < voters(approvals_of_patchset(ps)).len()
            ==> #[trigger] candidates(change, ps)[k] == voters(approvals_of_patchset(ps))[k],
{
}

/// A change owner who is a person and a user of the bot with the flag, and
/// who did not act, is among the recipients of a notice about the change,
/// whoever voted on it.
pub proof fn owner_with_flag_is_told(users: Seq<User>, change: Change, ps: PatchSet, actor: Option<Seq<char>>, flag: UserFlag, email: Seq<char>)
    requires
        email_of(change.owner) == Some(email),
        is_human(change.owner),
        has_user(users, email),
        actor != Some(email),
        has_flag_spec(users[last_match(users, email)], flag),
    ensures
        notify_recipients(users, candidates(change, ps), actor, flag).contains(recipient_of(users[last_match(users, email)])),
{
    let cands = candidates(change, ps);
    assert(cands.len() > 0 && cands.last() == change.owner);
    let prefix = notify_recipients(users, cands.drop_last(), actor, flag);
    let r = recipient_of(users[last_match(users, email)]);
    assert(notify_recipients(users, cands, actor, flag) == prefix + seq![r]);
    assert(notify_recipients(users, cands, actor, flag)[prefix.len() as int] == r);
}

/// A merged change is announced, in one message, to an owner who is a
/// person and a user of the bot with the flag, unless the owner submitted it.
pub proof fn merged_change_tells_owner(old_users: Seq<User>, new_users: Seq<User>, old: RateLimiter, new: RateLimiter, event: ChangeMergedEvent, tasks: Seq<TaskView>, email: Seq<char>)
    requires
        update_result(old_users, new_users, old, new, Action::ChangeMerged(Box::new(event)), tasks),
        email_of(event.change.owner) == Some(email),
        is_human(event.change.owner),
        has_user(old_users, email),
        email_of(event.submitter) != Some(email),
        has_flag_spec(old_users[last_match(old_users, email)], UserFlag::NotifyChangeMerged),
    ensures
        new_users == old_users,
        new == old,
        tasks.len() == 1,
        tasks[0] matches TaskView::Format { input, recipients }
            && input == MessageInput::ChangeMerged(Box::new(event))
            && recipients.contains(recipient_of(old_users[last_match(old_users, email)])),
{
    owner_with_flag_is_told(old_users, event.change, event.patchset, email_of(event.submitter), UserFlag::NotifyChangeMerged, email);
}

/// An abandoned change is announced, in one message, to an owner who is a
/// person and a user of the bot with the flag, unless the owner abandoned it.
pub proof fn abandoned_change_tells_owner(old_users: Seq<User>, new_users: Seq<User>, old: RateLimiter, new: RateLimiter, event: ChangeAbandonedEvent, tasks: Seq<TaskView>, email: Seq<char>)
    requires
        update_result(old_users, new_users, old, new, Action::ChangeAbandoned(Box::new(event)), tasks),
        email_of(event.change.owner) == Some(email),
        is_human(event.change.owner),
        has_user(old_users, email),
        email_of(event.abandoner) != Some(email),
        has_flag_spec(old_users[last_match(old_users, email)], UserFlag::NotifyChangeAbandoned),
    ensures
        new_users == old_users,
        new == old,
        tasks.len() == 1,
        tasks[0] matches TaskView::Format { input, recipients }
            && input == MessageInput::ChangeAbandoned(Box::new(event))
            && recipients.contains(recipient_of(old_users[last_match(old_users, email)])),
{
    owner_with_flag_is_told(old_users, event.change, event.patchset, email_of(event.abandoner), UserFlag::NotifyChangeAbandoned, email);
}

/// The extra details asked of Gerrit: for merged and abandoned changes
/// exactly all approvals (so the voters can be told); for an invitation
/// nothing; for a comment the submit records last, all approvals exactly when
/// the owner comments, and inline comments only for a person's comment.
pub proof fn extended_info_by_event(event: Event)
    ensures
        (event is ChangeMerged || event is ChangeAbandoned) ==> extended_info_for(event) == seq![ExtendedInfo::AllApprovals],
        event is ReviewerAdded ==> extended_info_for(event).len() == 0,
        event matches Event::CommentAdded(e) ==> {
            &&& extended_info_for(event).len() > 0
            &&& extended_info_for(event).last() == ExtendedInfo::SubmitRecords
            &&& (extended_info_for(event).contains(ExtendedInfo::AllApprovals)
                <==> opt_view(e.change.owner.username) == opt_view(e.author.username))
            &&& (extended_info_for(event).contains(ExtendedInfo::InlineComments) ==> is_human(e.author))
        },
{
    match event {
        Event::CommentAdded(e) => {
            let r = extended_info_for(event);
            if r.contains(ExtendedInfo::AllApprovals) {
                let k = choose|k: int| 0 <= k < r.len() && r[k] == ExtendedInfo::AllApprovals;
                if opt_view(e.change.owner.username) != opt_view(e.author.username) {
                    assert(r.len() <= 2);
                }
            }
            if opt_view(e.change.owner.username) == opt_view(e.author.username) {
                assert(r[r.len() - 2] == ExtendedInfo::AllApprovals);
            }
            if r.contains(ExtendedInfo::InlineComments) {
                let k = choose|k: int| 0 <= k < r.len() && r[k] == ExtendedInfo::InlineComments;
                if !is_human(e.author) {
                    assert(r.len() <= 2);
                }
            }
        },
        _ => {},
    }
}

/// The cache line of each vote in a comment names the user told, the
/// change's subject, the vote's label and value, and the comment's author by
/// user name.
pub proof fn vote_lines_name_the_approver(index: usize, event: CommentAddedEvent, name: Seq<char>)
    requires
        opt_view(event.author.username) == Some(name),
    ensures
        approval_lines(index, event).len() == (match event.approvals {
            Some(v) => v@.len(),
            None => 0,
        }),
        forall|j: int| 0 <= j < approval_lines(index, event).len() ==> #[trigger] approval_lines(index, event)[j]
            == (CacheLineView::Approval {
                user_ref: index,
                subject: event.change.subject@,
                approver: name,
                approval_type: event.approvals->0@[j].approval_type@,
                approval_value: event.approvals->0@[j].value@,
            }),
{
}

/// A comment by someone other than the owner, with votes, whose author has
/// no vote among the lines the cache holds, is announced to the owner: votes
/// by another approver are never taken for a repeat.
pub proof fn new_approver_is_not_held_back(users: Seq<User>, old: RateLimiter, new: RateLimiter, event: CommentAddedEvent, tasks: Seq<TaskView>, u: User, name: Seq<char>)
    requires
        comment_added_result(users, old, new, event, tasks),
        email_of(event.change.owner) != email_of(event.author),
        approval_recipient(users, event) == Some(u),
        opt_view(event.author.username) == Some(name),
        event.approvals matches Some(v) && v@.len() > 0,
        old.cache matches Some(c) ==> forall|x: CacheLineView| #[trigger] cached_lines(c).contains(x)
            ==> !(x matches CacheLineView::Approval { approver, .. } && approver == name),
    ensures
        tasks == seq![TaskView::Format { input: MessageInput::CommentAdded(Box::new(event)), recipients: seq![recipient_of(u)] }],
{
    let index = last_match(users, u.email@) as usize;
    let lines = approval_lines(index, event);
    vote_lines_name_the_approver(index, event, name);
    assert(lines.len() > 0);
    let first = lines[0];
    assert(first matches CacheLineView::Approval { approver, .. } && approver == name);
    let held = choose|held: bool| #[trigger] limiter_after(old, new, lines, held) && tasks == (if held {
        seq![]
    } else {
        seq![TaskView::Format { input: MessageInput::CommentAdded(Box::new(event)), recipients: seq![recipient_of(u)] }]
    });
    if held {
        match old.cache {
            Some(c) => {
                assert(lines.subrange(0, 0) =~= Seq::<CacheLineView>::empty());
                assert(cached_lines(c).contains(lines[0]) || lines.subrange(0, 0).contains(lines[0]));
                assert(!cached_lines(c).contains(first));
            },
            None => {},
        }
    }
}

/// The pattern of a `filter <regex>` command is the text after `filter ` in
/// the trimmed message, in its own letter case: the lowercase form only
/// decides whether the text is a command word.
pub proof fn filter_pattern_keeps_case(trimmed: Seq<char>, lowered: Seq<char>, pattern: Seq<char>)
    requires
        parse_command(trimmed, lowered) == Some(CommandView::FilterAdd(pattern)),
    ensures
        has_filter_prefix(trimmed),
        pattern == trimmed.subrange(7, trimmed.len() as int),
        filter_argument(trimmed) == Some(pattern),
{
}

/// A message is a `filter <regex>` command exactly when its trimmed text is
/// `filter ` and a pattern and its lowercase form is no command word; the
/// pattern is the trimmed text after `filter `, letter case kept.
pub proof fn filter_command_pattern(text: Seq<char>, pattern: Seq<char>)
    ensures
        command_of(text) == Some(CommandView::FilterAdd(pattern))
            <==> (!is_keyword(lowercase(trim(text))) && filter_argument(trim(text)) == Some(pattern)),
        command_of(text) == Some(CommandView::FilterAdd(pattern)) ==> pattern == trim(text).subrange(7, trim(text).len() as int),
{
}

/// The answer to a filter status request goes to the sender alone, names the
/// stored pattern and reports the filter as enabled or disabled as stored.
pub proof fn filter_status_reports_state(old: Seq<User>, new: Seq<User>, sender: Seq<char>, tasks: Seq<TaskView>, pattern: Seq<char>, enabled: bool)
    requires
        command_result(old, new, sender, Command::FilterStatus, tasks),
        filter_of(old, sender) == Some((pattern, enabled)),
    ensures
        new == old,
        tasks.len() == 1,
        tasks[0] matches TaskView::Reply { email, message } && {
            &&& email == sender
            &&& contains_seq(message, pattern)
            &&& ends_with(message, if enabled { "**enabled**."@ } else { "**disabled**."@ })
            &&& !ends_with(message, if enabled { "**disabled**."@ } else { "**enabled**."@ })
        },
{
    reveal_strlit("The following filter is configured for you: `");
    reveal_strlit("`. It is **");
    reveal_strlit("enabled");
    reveal_strlit("disabled");
    reveal_strlit("**.");
    reveal_strlit("**enabled**.");
    reveal_strlit("**disabled**.");
    let head = "The following filter is configured for you: `"@;
    let state = if enabled { "enabled"@ } else { "disabled"@ };
    let message = head + pattern + "`. It is **"@ + state + "**."@;
    assert(tasks[0] == (TaskView::Reply { email: sender, message }));
    let n = message.len() as int;
    assert(message.subrange(head.len() as int, head.len() + pattern.len() as int) =~= pattern);
    if enabled {
        assert(message.subrange(n - 12, n) =~= "**enabled**."@);
        assert(message[n - 13] == ' ');
        if message.subrange(n - 13, n) == "**disabled**."@ {
            assert(message.subrange(n - 13, n)[0] == '*');
        }
    } else {
        assert(message.subrange(n - 13, n) =~= "**disabled**."@);
        assert(message[n - 11] == 'd');
        if message.subrange(n - 12, n) == "**enabled**."@ {
            assert(message.subrange(n - 12, n)[1] == '*');
        }
    }
}

} // verus!
