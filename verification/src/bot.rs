//! The bot's decisions: what to answer to commands and whom to notify about
//! Gerrit events.
//!
//! Messages about Gerrit events and a few answers are produced by a message
//! formatter outside this crate. For those the bot hands out a
//! [`Task::Format`] naming the input and the recipients; the caller formats
//! the message for each recipient and passes the text to
//! [`Recipient::finish`], which applies the recipient's filter.

use vstd::prelude::*;

use crate::command::{command_of, Command};
use crate::spark;
use crate::flags::{flag_name, notification_flag_seq, notification_flags, review_comment_flag_seq, review_comment_flags, UserFlag};
use crate::gerrit_events::{self, Approval, Change, ChangeAbandonedEvent, ChangeMergedEvent, CommentAddedEvent, Event, ExtendedInfo, PatchSet, ReviewerAddedEvent};
use crate::pattern::{regex_compiles, regex_is_match, regex_matches};
use crate::rate_limit::{all_hits, cache_capacity, cache_expiry_ms, cache_order, cached_lines, lemma_cached_lines, max_expiry_ms, recorded, recorded_all, CacheLineView, IntoCacheLine, RateLimiter};
use crate::state::{add_filter_result, enable_result, filter_enable_result, filter_of, has_user, last_match, lookup, set_flag_result, State};
use crate::text::{chars_of, contains_chars, contains_seq, push_str, str_equal, string_from};
use crate::user::{has_any_flag_spec, has_flag_spec, User};

verus! {

/// Email of a user; the same in Webex Teams and Gerrit.
pub type Email = String;

/// Something the bot reacts to.
#[derive(Debug)]
pub enum Action {
    RunCommand { sender: Email, command: Command },
    UnknownCommand { sender: Email },
    CommentAdded(Box<CommentAddedEvent>),
    ReviewerAdded(Box<ReviewerAddedEvent>),
    ChangeMerged(Box<ChangeMergedEvent>),
    ChangeAbandoned(Box<ChangeAbandonedEvent>),
}

/// A message to send to a user.
#[derive(Debug)]
pub struct Response {
    pub email: Email,
    pub message: String,
}

impl Response {
    pub fn new(email: Email, message: String) -> (r: Response)
        ensures
            r.email == email,
            r.message == message,
    {
        Response { email, message }
    }
}

/// What a formatted message is about.
#[derive(Debug)]
pub enum MessageInput {
    CommentAdded(Box<CommentAddedEvent>),
    ReviewerAdded(Box<ReviewerAddedEvent>),
    ChangeMerged(Box<ChangeMergedEvent>),
    ChangeAbandoned(Box<ChangeAbandonedEvent>),
    /// The bot's version information.
    VersionInfo,
    Help,
    Greeting,
    Status { user_enabled: bool, enabled_user_count: usize },
}

/// Name of the formatting function for an input.
pub open spec fn format_function_name(input: MessageInput) -> Seq<char> {
    match input {
        MessageInput::CommentAdded(_) => "format_comment_added"@,
        MessageInput::ReviewerAdded(_) => "format_reviewer_added"@,
        MessageInput::ChangeMerged(_) => "format_change_merged"@,
        MessageInput::ChangeAbandoned(_) => "format_change_abandoned"@,
        MessageInput::VersionInfo => "format_version_info"@,
        MessageInput::Help => "format_help"@,
        MessageInput::Greeting => "format_greeting"@,
        MessageInput::Status { .. } => "format_status"@,
    }
}

impl MessageInput {
    /// The name of the formatting function that renders this input.
    pub fn format_function(&self) -> (r: &'static str)
        ensures
            r@ == format_function_name(*self),
    {
        match self {
            MessageInput::CommentAdded(_) => "format_comment_added",
            MessageInput::ReviewerAdded(_) => "format_reviewer_added",
            MessageInput::ChangeMerged(_) => "format_change_merged",
            MessageInput::ChangeAbandoned(_) => "format_change_abandoned",
            MessageInput::VersionInfo => "format_version_info",
            MessageInput::Help => "format_help",
            MessageInput::Greeting => "format_greeting",
            MessageInput::Status { .. } => "format_status",
        }
    }
}

/// Someone to send a formatted message to.
#[derive(Debug)]
pub struct Recipient {
    pub email: Email,
    /// The notification flags the user has, handed to the formatter; `None`
    /// where the message is not for a known user.
    pub flags: Option<Vec<UserFlag>>,
    /// The pattern of the user's enabled filter, where the message is subject to it.
    pub filter: Option<String>,
}

/// A recipient as a mathematical value.
pub struct RecipientView {
    pub email: Seq<char>,
    pub flags: Option<Seq<UserFlag>>,
    pub filter: Option<Seq<char>>,
}

impl View for Recipient {
    type V = RecipientView;

    open spec fn view(&self) -> RecipientView {
        RecipientView {
            email: self.email@,
            flags: match self.flags {
                Some(v) => Some(v@),
                None => None,
            },
            filter: match self.filter {
                Some(p) => Some(p@),
                None => None,
            },
        }
    }
}

/// A filter with this pattern holds back the message.
pub open spec fn held_back(filter: Option<Seq<char>>, message: Seq<char>) -> bool {
    match filter {
        Some(p) => regex_compiles(p) && regex_matches(p, message),
        None => false,
    }
}

impl Recipient {
    /// Turns the formatter's output into the message to send: nothing where
    /// the formatter produced nothing or the recipient's filter holds the
    /// message back.
    pub fn finish(&self, message: Option<String>) -> (r: Option<Response>)
        ensures
            r is Some <==> (message matches Some(m) && !held_back(self@.filter, m@)),
            r matches Some(resp) ==> resp.email@ == self.email@ && Some(resp.message) == message,
    {
        match message {
            Some(m) => {
                let held = match &self.filter {
                    Some(p) => regex_is_match(p.as_str(), m.as_str()),
                    None => false,
                };
                if held {
                    None
                } else {
                    Some(Response::new(self.email.clone(), m))
                }
            },
            None => None,
        }
    }
}

/// Messages to format, each for a list of recipients.
#[derive(Debug)]
pub struct FormatJob {
    pub input: MessageInput,
    pub recipients: Vec<Recipient>,
}

/// Something to do after the bot reacted to an action.
#[derive(Debug)]
pub enum Task {
    /// Send a message.
    Reply(Response),
    /// Save the state.
    Save,
    /// Format messages and send them.
    Format(FormatJob),
}

/// A task as a mathematical value.
pub enum TaskView {
    Reply { email: Seq<char>, message: Seq<char> },
    Save,
    Format { input: MessageInput, recipients: Seq<RecipientView> },
}

/// The views of a list of recipients.
pub open spec fn recipients_view(rs: Seq<Recipient>) -> Seq<RecipientView> {
    rs.map_values(|r: Recipient| r@)
}

impl View for Task {
    type V = TaskView;

    open spec fn view(&self) -> TaskView {
        match self {
            Task::Reply(r) => TaskView::Reply { email: r.email@, message: r.message@ },
            Task::Save => TaskView::Save,
            Task::Format(j) => TaskView::Format { input: j.input, recipients: recipients_view(j.recipients@) },
        }
    }
}

/// The views of a list of tasks.
pub open spec fn tasks_view(ts: Seq<Task>) -> Seq<TaskView> {
    ts.map_values(|t: Task| t@)
}

/// The notification flags `u` has, in canonical order, as the formatter sees them.
pub open spec fn flags_held(u: User, fs: Seq<UserFlag>) -> Seq<UserFlag>
    decreases fs.len(),
{
    if fs.len() == 0 {
        seq![]
    } else {
        flags_held(u, fs.drop_last()) + (if has_flag_spec(u, fs.last()) { seq![fs.last()] } else { seq![] })
    }
}

/// All notification flags `u` has.
pub open spec fn active_flags(u: User) -> Seq<UserFlag> {
    flags_held(u, notification_flag_seq())
}

/// The pattern of `u`'s filter where it is enabled.
pub open spec fn enabled_filter(u: User) -> Option<Seq<char>> {
    match u.filter {
        Some(f) => if f.enabled { Some(f.regex@) } else { None },
        None => None,
    }
}

/// A notification for `u`, subject to its filter.
pub open spec fn recipient_of(u: User) -> RecipientView {
    RecipientView { email: u.email@, flags: Some(active_flags(u)), filter: enabled_filter(u) }
}

/// A reply to someone, not subject to any filter.
pub open spec fn plain_recipient(email: Seq<char>, flags: Option<Seq<UserFlag>>) -> RecipientView {
    RecipientView { email, flags, filter: None }
}

fn active_flags_of(u: &User) -> (r: Vec<UserFlag>)
    ensures
        r@ == active_flags(*u),
{
    let fs = notification_flags();
    let mut r: Vec<UserFlag> = Vec::new();
    let mut i: usize = 0;
    while i < fs.len()
        invariant
            i <= fs@.len(),
            fs@ == notification_flag_seq(),
            r@ == flags_held(*u, fs@.subrange(0, i as int)),
        decreases fs@.len() - i,
    {
        proof {
            assert(fs@.subrange(0, i + 1).drop_last() == fs@.subrange(0, i as int));
        }
        if u.has_flag(fs[i]) {
            r.push(fs[i]);
        }
        i = i + 1;
    }
    assert(fs@.subrange(0, fs@.len() as int) == fs@);
    r
}

fn enabled_filter_of(u: &User) -> (r: Option<String>)
    ensures
        r matches Some(p) ==> enabled_filter(*u) == Some(p@),
        r is None ==> enabled_filter(*u) is None,
{
    match &u.filter {
        Some(f) => if f.enabled { Some(f.regex.clone()) } else { None },
        None => None,
    }
}

fn recipient_for_user(u: &User) -> (r: Recipient)
    ensures
        r@ == recipient_of(*u),
{
    Recipient { email: u.email.clone(), flags: Some(active_flags_of(u)), filter: enabled_filter_of(u) }
}

/// The message for `filter` as a status request sees it.
pub open spec fn filter_status_message(f: Option<(Seq<char>, bool)>) -> Seq<char> {
    match f {
        Some((p, enabled)) => "The following filter is configured for you: `"@ + p + "`. It is **"@
            + (if enabled { "enabled"@ } else { "disabled"@ }) + "**."@,
        None => "No filter is configured for you."@,
    }
}

/// The answer to a new filter.
pub open spec fn filter_add_message(ok: bool) -> Seq<char> {
    if ok {
        "Filter successfully added and enabled."@
    } else {
        "Your provided filter is invalid. Please double-check the regex you provided. Specifications of the regex are here: https://doc.rust-lang.org/regex/regex/index.html#syntax"@
    }
}

/// The answer to enabling (`enable`) or disabling a filter, given the
/// pattern of the filter where there is one.
pub open spec fn filter_enable_message(enable: bool, pattern: Option<Seq<char>>) -> Seq<char> {
    match pattern {
        Some(p) => if enable {
            "Filter successfully enabled. The following filter is configured: "@ + p
        } else {
            "Filter successfully disabled."@
        },
        None => if enable {
            "Cannot enable filter since there is none configured. User `filter <regex>` to add a new filter."@
        } else {
            "No need to disable the filter since there is none configured."@
        },
    }
}

/// The answer to setting a flag.
pub open spec fn set_flag_message(flag: UserFlag, enable: bool) -> Seq<char> {
    "Flag "@ + flag_name(flag) + " **"@ + (if enable { "enabled"@ } else { "disabled"@ }) + "**"@
}

/// Number of users among `us` that are enabled and have a notification flag.
pub open spec fn enabled_user_count(us: Seq<User>) -> nat
    decreases us.len(),
{
    if us.len() == 0 {
        0
    } else {
        enabled_user_count(us.drop_last()) + (if has_any_flag_spec(us.last(), notification_flag_seq()) { 1nat } else { 0nat })
    }
}

/// The status request of the user with this email: the formatter's input and
/// the flags handed along.
pub open spec fn status_job(users: Seq<User>, email: Seq<char>) -> TaskView {
    TaskView::Format {
        input: MessageInput::Status {
            user_enabled: match lookup(users, email) {
                Some(u) => has_any_flag_spec(u, notification_flag_seq()),
                None => false,
            },
            enabled_user_count: enabled_user_count(users) as usize,
        },
        recipients: seq![plain_recipient(email, match lookup(users, email) {
            Some(u) => Some(active_flags(u)),
            None => None,
        })],
    }
}

/// A reply to `email`.
pub open spec fn reply(email: Seq<char>, message: Seq<char>) -> TaskView {
    TaskView::Reply { email, message }
}

/// A reply to `email` formatted from `input`.
pub open spec fn formatted_reply(email: Seq<char>, input: MessageInput) -> TaskView {
    TaskView::Format { input, recipients: seq![plain_recipient(email, None)] }
}

/// What running a command does: the state after it and the tasks.
pub open spec fn command_result(old: Seq<User>, new: Seq<User>, sender: Seq<char>, command: Command, tasks: Seq<TaskView>) -> bool {
    match command {
        Command::Enable => enable_result(old, new, sender, true)
            && tasks == seq![TaskView::Save, reply(sender, "Got it! Happy reviewing!"@)],
        Command::Disable => enable_result(old, new, sender, false)
            && tasks == seq![TaskView::Save, reply(sender, "Got it! I will stay silent."@)],
        Command::Help => new == old && tasks == seq![formatted_reply(sender, MessageInput::Help)],
        Command::Version => new == old && tasks == seq![formatted_reply(sender, MessageInput::VersionInfo)],
        Command::Status => new == old && tasks == seq![status_job(old, sender)],
        Command::FilterStatus => new == old && tasks == seq![reply(sender, filter_status_message(filter_of(old, sender)))],
        Command::FilterAdd(pattern) => add_filter_result(old, new, sender, pattern@, regex_compiles(pattern@))
            && tasks == seq![reply(sender, filter_add_message(regex_compiles(pattern@)))],
        Command::FilterEnable(enable) => {
            let pattern = match filter_of(old, sender) {
                Some((p, _)) => Some(p),
                None => None,
            };
            filter_enable_result(old, new, sender, enable, pattern)
                && tasks == seq![TaskView::Save, reply(sender, filter_enable_message(enable, pattern))]
        },
        Command::SetFlag(flag, enable) => set_flag_result(old, new, sender, flag, enable)
            && tasks == seq![TaskView::Save, reply(sender, set_flag_message(flag, enable))],
    }
}

fn one_task(t: Task) -> (r: Vec<Task>)
    ensures
        tasks_view(r@) == seq![t@],
{
    let mut r: Vec<Task> = Vec::new();
    r.push(t);
    assert(tasks_view(r@) =~= seq![t@]);
    r
}

fn save_and_reply(email: Email, message: String) -> (r: Vec<Task>)
    ensures
        tasks_view(r@) == seq![TaskView::Save, reply(email@, message@)],
{
    let mut r: Vec<Task> = Vec::new();
    r.push(Task::Save);
    r.push(Task::Reply(Response::new(email, message)));
    assert(tasks_view(r@) =~= seq![TaskView::Save, reply(email@, message@)]);
    r
}

fn formatted_reply_task(email: Email, input: MessageInput, flags: Option<Vec<UserFlag>>) -> (r: Task)
    ensures
        r@ == (TaskView::Format {
            input,
            recipients: seq![plain_recipient(email@, match flags {
                Some(v) => Some(v@),
                None => None,
            })],
        }),
{
    let mut recipients: Vec<Recipient> = Vec::new();
    recipients.push(Recipient { email, flags, filter: None });
    let r = Task::Format(FormatJob { input, recipients });
    proof {
        assert(recipients_view(recipients@) =~= seq![recipients@[0]@]);
    }
    r
}

/// The bot: its state and its memory of recently sent messages.
pub struct Bot {
    pub state: State,
    pub rate_limiter: RateLimiter,
}

/// Collects what the bot is made of.
pub struct Builder {
    pub state: State,
    pub rate_limiter: RateLimiter,
}

impl Builder {
    /// A builder for a bot with this state and no message cache.
    pub fn new(state: State) -> (b: Builder)
        ensures
            b.state == state,
            b.rate_limiter.cache is None,
    {
        Builder { state, rate_limiter: RateLimiter::new() }
    }

    /// Holds back repeated notifications for `expiration_ms` milliseconds
    /// (at most about 136 years), remembering at most `capacity` of them
    /// (which must not be zero).
    pub fn with_msg_cache(self, capacity: usize, expiration_ms: u64) -> (b: Builder)
        requires
            capacity > 0,
            expiration_ms <= max_expiry_ms(),
        ensures
            b.state == self.state,
            b.rate_limiter.wf(),
            b.rate_limiter.cache matches Some(c) && cached_lines(c) == Set::<CacheLineView>::empty() && cache_capacity(c) == capacity
                && cache_expiry_ms(c) == expiration_ms,
    {
        Builder { rate_limiter: RateLimiter::with_expiry_duration_and_capacity(expiration_ms, capacity), state: self.state }
    }

    pub fn build(self) -> (bot: Bot)
        ensures
            bot.state == self.state,
            bot.rate_limiter == self.rate_limiter,
    {
        Bot { state: self.state, rate_limiter: self.rate_limiter }
    }
}

impl Bot {
    /// The status request of a user: the formatter gets whether the user is
    /// enabled and how many users are.
    pub fn status_for(&self, email: &str) -> (r: Task)
        ensures
            r@ == status_job(self.state.users@, email@),
    {
        let flags = notification_flags();
        let mut count: usize = 0;
        let mut i: usize = 0;
        while i < self.state.users.len()
            invariant
                i <= self.state.users@.len(),
                flags@ == notification_flag_seq(),
                count == enabled_user_count(self.state.users@.subrange(0, i as int)),
                count <= i,
            decreases self.state.users@.len() - i,
        {
            proof {
                assert(self.state.users@.subrange(0, i + 1).drop_last() == self.state.users@.subrange(0, i as int));
            }
            if self.state.users[i].has_any_flag(flags.as_slice()) {
                count = count + 1;
            }
            i = i + 1;
        }
        assert(self.state.users@.subrange(0, self.state.users@.len() as int) == self.state.users@);
        let (user_enabled, user_flags) = match self.state.find_user(email) {
            Some(u) => (u.has_any_flag(flags.as_slice()), Some(active_flags_of(u))),
            None => (false, None),
        };
        formatted_reply_task(string_from(email), MessageInput::Status { user_enabled, enabled_user_count: count }, user_flags)
    }

    fn set_enabled_for(&mut self, sender: Email, enabled: bool) -> (r: Vec<Task>)
        ensures
            final(self).rate_limiter == old(self).rate_limiter,
            command_result(old(self).state.users@, final(self).state.users@, sender@,
                if enabled { Command::Enable } else { Command::Disable }, tasks_view(r@)),
    {
        self.state.enable(sender.as_str(), enabled);
        let msg = if enabled { string_from("Got it! Happy reviewing!") } else { string_from("Got it! I will stay silent.") };
        save_and_reply(sender, msg)
    }

    fn filter_status(&self, sender: Email) -> (r: Vec<Task>)
        ensures
            tasks_view(r@) == seq![reply(sender@, filter_status_message(filter_of(self.state.users@, sender@)))],
    {
        let mut resp = String::new();
        match self.state.get_filter(sender.as_str()) {
            Some((filter_str, filter_enabled)) => {
                push_str(&mut resp, "The following filter is configured for you: `");
                push_str(&mut resp, filter_str);
                push_str(&mut resp, "`. It is **");
                push_str(&mut resp, if filter_enabled { "enabled" } else { "disabled" });
                push_str(&mut resp, "**.");
            },
            None => {
                push_str(&mut resp, "No filter is configured for you.");
            },
        }
        proof {
            assert(resp@ =~= filter_status_message(filter_of(self.state.users@, sender@)));
        }
        one_task(Task::Reply(Response::new(sender, resp)))
    }

    fn filter_add(&mut self, sender: Email, filter: String) -> (r: Vec<Task>)
        ensures
            final(self).rate_limiter == old(self).rate_limiter,
            command_result(old(self).state.users@, final(self).state.users@, sender@, Command::FilterAdd(filter), tasks_view(r@)),
    {
        let res = self.state.add_filter(sender.as_str(), filter.as_str());
        let resp = match res {
            Ok(()) => string_from("Filter successfully added and enabled."),
            Err(_) => string_from(
                "Your provided filter is invalid. Please double-check the regex you provided. Specifications of the regex are here: https://doc.rust-lang.org/regex/regex/index.html#syntax",
            ),
        };
        one_task(Task::Reply(Response::new(sender, resp)))
    }

    fn filter_enable(&mut self, sender: Email, enable: bool) -> (r: Vec<Task>)
        ensures
            final(self).rate_limiter == old(self).rate_limiter,
            command_result(old(self).state.users@, final(self).state.users@, sender@, Command::FilterEnable(enable), tasks_view(r@)),
    {
        let ghost f = filter_of(self.state.users@, sender@);
        let mut resp = String::new();
        match self.state.enable_and_get_filter(sender.as_str(), enable) {
            Some(filter) => {
                if enable {
                    push_str(&mut resp, "Filter successfully enabled. The following filter is configured: ");
                    push_str(&mut resp, filter);
                } else {
                    push_str(&mut resp, "Filter successfully disabled.");
                }
            },
            None => {
                if enable {
                    push_str(&mut resp, "Cannot enable filter since there is none configured. User `filter <regex>` to add a new filter.");
                } else {
                    push_str(&mut resp, "No need to disable the filter since there is none configured.");
                }
            },
        }
        proof {
            assert(resp@ =~= filter_enable_message(enable, match f {
                Some((p, _)) => Some(p),
                None => None,
            }));
        }
        save_and_reply(sender, resp)
    }

    fn set_flag_for(&mut self, sender: Email, flag: UserFlag, enable: bool) -> (r: Vec<Task>)
        ensures
            final(self).rate_limiter == old(self).rate_limiter,
            command_result(old(self).state.users@, final(self).state.users@, sender@, Command::SetFlag(flag, enable), tasks_view(r@)),
    {
        self.state.set_flag(sender.as_str(), flag, enable);
        let mut resp = String::new();
        push_str(&mut resp, "Flag ");
        let name = flag.name();
        push_str(&mut resp, name.as_str());
        push_str(&mut resp, " **");
        push_str(&mut resp, if enable { "enabled" } else { "disabled" });
        push_str(&mut resp, "**");
        proof {
            assert(resp@ =~= set_flag_message(flag, enable));
        }
        save_and_reply(sender, resp)
    }

    /// Runs a command sent by a user.
    pub fn run_command(&mut self, sender: Email, command: Command) -> (r: Vec<Task>)
        ensures
            final(self).rate_limiter == old(self).rate_limiter,
            command_result(old(self).state.users@, final(self).state.users@, sender@, command, tasks_view(r@)),
    {
        match command {
            Command::Enable => self.set_enabled_for(sender, true),
            Command::Disable => self.set_enabled_for(sender, false),
            Command::Help => one_task(formatted_reply_task(sender, MessageInput::Help, None)),
            Command::Version => one_task(formatted_reply_task(sender, MessageInput::VersionInfo, None)),
            Command::Status => {
                let t = self.status_for(sender.as_str());
                one_task(t)
            },
            Command::FilterStatus => self.filter_status(sender),
            Command::FilterAdd(filter) => self.filter_add(sender, filter),
            Command::FilterEnable(enable) => self.filter_enable(sender, enable),
            Command::SetFlag(flag, enable) => self.set_flag_for(sender, flag, enable),
        }
    }
}

/// The email of a Gerrit account, where it has one.
pub open spec fn email_of(u: gerrit_events::User) -> Option<Seq<char>> {
    match u.email {
        Some(e) => Some(e@),
        None => None,
    }
}

/// An optional string as an optional character sequence.
pub open spec fn opt_view(o: Option<String>) -> Option<Seq<char>> {
    match o {
        Some(s) => Some(s@),
        None => None,
    }
}

/// A Gerrit account belongs to a person: its user name does not contain `bot`.
pub open spec fn is_human(u: gerrit_events::User) -> bool {
    match u.username {
        Some(n) => !contains_seq(n@, "bot"@),
        None => true,
    }
}

/// Tells people from automated accounts.
pub trait IsHuman {
    fn is_human(&self) -> bool;
}

impl IsHuman for gerrit_events::User {
    fn is_human(&self) -> (r: bool)
        ensures
            r == is_human(*self),
    {
        match &self.username {
            Some(username) => {
                let n = chars_of(username.as_str());
                let b = chars_of("bot");
                !contains_chars(n.as_slice(), b.as_slice())
            },
            None => true,
        }
    }
}

fn opt_str_eq(a: &Option<String>, b: &Option<String>) -> (r: bool)
    ensures
        r == (opt_view(*a) == opt_view(*b)),
{
    match (a, b) {
        (Some(x), Some(y)) => str_equal(x.as_str(), y.as_str()),
        (None, None) => true,
        _ => false,
    }
}

/// The pattern that tells review comments announcing inline comments.
pub open spec fn inline_comments_pattern() -> Seq<char> {
    "\\(\\d+\\scomments?\\)"@
}

/// Guesses whether the change might have inline comments by looking for a
/// specially formatted comment, such as `(2 comments)`.
pub fn maybe_has_inline_comments(event: &CommentAddedEvent) -> (r: bool)
    ensures
        r == (regex_compiles(inline_comments_pattern()) && regex_matches(inline_comments_pattern(), event.comment@)),
{
    regex_is_match("\\(\\d+\\scomments?\\)", event.comment.as_str())
}

/// The additional information worth asking Gerrit for about an event.
pub open spec fn extended_info_for(event: Event) -> Seq<ExtendedInfo> {
    match event {
        Event::CommentAdded(e) => {
            (if is_human(e.author) && regex_compiles(inline_comments_pattern())
                && regex_matches(inline_comments_pattern(), e.comment@) {
                seq![ExtendedInfo::InlineComments]
            } else {
                seq![]
            }) + (if opt_view(e.change.owner.username) == opt_view(e.author.username) {
                seq![ExtendedInfo::AllApprovals]
            } else {
                seq![]
            }) + seq![ExtendedInfo::SubmitRecords]
        },
        Event::ChangeMerged(_) | Event::ChangeAbandoned(_) => seq![ExtendedInfo::AllApprovals],
        Event::ReviewerAdded(_) => seq![],
    }
}

/// Which additional information to fetch from Gerrit for an event: inline
/// comments where a person's comment announces some, all approvals where the
/// owner comments (so the people on the change can be told) and for merged or abandoned
/// changes, and submit records for comments.
pub fn request_extended_gerrit_info(event: &Event) -> (r: Vec<ExtendedInfo>)
    ensures
        r@ == extended_info_for(*event),
{
    let mut extended_info: Vec<ExtendedInfo> = Vec::new();
    match event {
        Event::CommentAdded(event) => {
            if event.author.is_human() && maybe_has_inline_comments(event) {
                extended_info.push(ExtendedInfo::InlineComments);
            }
            if opt_str_eq(&event.change.owner.username, &event.author.username) {
                extended_info.push(ExtendedInfo::AllApprovals);
            }
            extended_info.push(ExtendedInfo::SubmitRecords);
            proof {
                assert(extended_info@ =~= extended_info_for(Event::CommentAdded(*event)));
            }
        },
        Event::ChangeMerged(_) | Event::ChangeAbandoned(_) => {
            extended_info.push(ExtendedInfo::AllApprovals);
            assert(extended_info@ =~= seq![ExtendedInfo::AllApprovals]);
        },
        _ => {
            assert(extended_info@ =~= seq![]);
        },
    }
    extended_info
}

/// The accounts that voted on the patch set, in order.
pub open spec fn voters(approvals: Seq<Approval>) -> Seq<gerrit_events::User>
    decreases approvals.len(),
{
    if approvals.len() == 0 {
        seq![]
    } else {
        voters(approvals.drop_last()) + (match approvals.last().by {
            Some(u) => seq![u],
            None => seq![],
        })
    }
}

/// The votes of a patch set.
pub open spec fn approvals_of_patchset(ps: PatchSet) -> Seq<Approval> {
    match ps.approvals {
        Some(v) => v@,
        None => seq![],
    }
}

/// The accounts that may be interested in an event: the voters on the patch
/// set, then the change owner.
pub open spec fn candidates(change: Change, ps: PatchSet) -> Seq<gerrit_events::User> {
    voters(approvals_of_patchset(ps)).push(change.owner)
}

/// The recipient (none or one) that one candidate account contributes: a
/// person whose email belongs to a user of the bot, unless that user is the
/// actor of the event, provided the user is enabled and has the flag.
pub open spec fn recipient_piece(users: Seq<User>, c: gerrit_events::User, actor: Option<Seq<char>>, flag: UserFlag) -> Seq<RecipientView> {
    match c.email {
        Some(e) => if is_human(c) && has_user(users, e@) && actor != Some(e@)
            && has_flag_spec(users[last_match(users, e@)], flag) {
            seq![recipient_of(users[last_match(users, e@)])]
        } else {
            seq![]
        },
        None => seq![],
    }
}

/// Recipients of a notification among the candidate accounts, in order.
pub open spec fn notify_recipients(users: Seq<User>, cands: Seq<gerrit_events::User>, actor: Option<Seq<char>>, flag: UserFlag) -> Seq<RecipientView>
    decreases cands.len(),
{
    if cands.len() == 0 {
        seq![]
    } else {
        notify_recipients(users, cands.drop_last(), actor, flag) + recipient_piece(users, cands.last(), actor, flag)
    }
}

/// A notification task, where there is anybody to notify.
pub open spec fn notify_tasks(input: MessageInput, recipients: Seq<RecipientView>) -> Seq<TaskView> {
    if recipients.len() == 0 {
        seq![]
    } else {
        seq![TaskView::Format { input, recipients }]
    }
}

/// The user that is told about votes on a change: the owner, when the owner
/// is a user of the bot with a review comment flag.
pub open spec fn approval_recipient(users: Seq<User>, event: CommentAddedEvent) -> Option<User> {
    match event.change.owner.email {
        Some(e) => if has_user(users, e@) && has_any_flag_spec(users[last_match(users, e@)], review_comment_flag_seq()) {
            Some(users[last_match(users, e@)])
        } else {
            None
        },
        None => None,
    }
}

/// The user that is told about being invited to a change.
pub open spec fn reviewer_recipient(users: Seq<User>, event: ReviewerAddedEvent) -> Option<User> {
    match event.reviewer.email {
        Some(e) => if has_user(users, e@) && has_flag_spec(users[last_match(users, e@)], UserFlag::NotifyReviewerAdded) {
            Some(users[last_match(users, e@)])
        } else {
            None
        },
        None => None,
    }
}

/// The name under which a vote's author is remembered.
pub open spec fn approver_key(author: gerrit_events::User) -> Seq<char> {
    match author.username {
        Some(n) => n@,
        None => seq![],
    }
}

/// The cache lines that stand for the votes of a comment sent to the user at `index`.
pub open spec fn approval_lines(index: usize, event: CommentAddedEvent) -> Seq<CacheLineView> {
    match event.approvals {
        Some(v) => v@.map_values(|a: Approval| CacheLineView::Approval {
            user_ref: index,
            subject: event.change.subject@,
            approver: approver_key(event.author),
            approval_type: a.approval_type@,
            approval_value: a.value@,
        }),
        None => seq![],
    }
}

/// How the rate limiter changed after recording `lines`, and what `held`
/// is: without a cache nothing is held back. With one, the lines are
/// recorded one after the other, each step as `recorded` describes it
/// (expired lines are dropped first, how many depends on the clock), and a
/// message is held back exactly when the cache still held every one of its
/// lines when it was recorded. Consequences spelled out: the cache keeps its
/// capacity, holds no more lines than that, gains nothing but the lines,
/// holds the last line, and a held message had each line in the cache before
/// or earlier in the same message.
pub open spec fn limiter_after(old: RateLimiter, new: RateLimiter, lines: Seq<CacheLineView>, held: bool) -> bool {
    match old.cache {
        None => new.cache is None && !held,
        Some(c) => new.cache matches Some(d) && {
            &&& cache_capacity(d) == cache_capacity(c)
            &&& cache_expiry_ms(d) == cache_expiry_ms(c)
            &&& exists|orders: Seq<Seq<CacheLineView>>, hits: Seq<bool>|
                #![trigger recorded_all(orders, hits, lines, cache_capacity(c))]
                recorded_all(orders, hits, lines, cache_capacity(c))
                && orders[0] == cache_order(c)
                && orders.last() == cache_order(d)
                && held == all_hits(hits)
            &&& cached_lines(d).finite() && cached_lines(d).len() <= cache_capacity(d)
            &&& forall|x: CacheLineView| #[trigger] cached_lines(d).contains(x) ==> cached_lines(c).contains(x) || lines.contains(x)
            &&& lines.len() > 0 ==> cached_lines(d).contains(lines.last())
            &&& held ==> forall|j: int| 0 <= j < lines.len() ==> cached_lines(c).contains(#[trigger] lines[j])
                || lines.subrange(0, j).contains(lines[j])
        },
    }
}

/// What a new review comment leads to. When the owner comments, the people
/// interested in the change who want responses are told. Otherwise the owner
/// is told about the comment, unless every vote in it was announced recently.
pub open spec fn comment_added_result(users: Seq<User>, old: RateLimiter, new: RateLimiter, event: CommentAddedEvent, tasks: Seq<TaskView>) -> bool {
    if email_of(event.change.owner) == email_of(event.author) {
        new == old && tasks == notify_tasks(
            MessageInput::CommentAdded(Box::new(event)),
            notify_recipients(users, candidates(event.change, event.patchset), email_of(event.author), UserFlag::NotifyReviewResponses),
        )
    } else {
        match approval_recipient(users, event) {
            None => new == old && tasks == Seq::<TaskView>::empty(),
            Some(u) => {
                let job = TaskView::Format { input: MessageInput::CommentAdded(Box::new(event)), recipients: seq![recipient_of(u)] };
                let lines = approval_lines(last_match(users, u.email@) as usize, event);
                if lines.len() == 0 {
                    new == old && tasks == seq![job]
                } else {
                    exists|held: bool| #![trigger limiter_after(old, new, lines, held)]
                        limiter_after(old, new, lines, held) && tasks == (if held { seq![] } else { seq![job] })
                }
            },
        }
    }
}

/// What an invitation to a change leads to: the invited user is told, unless the
/// same was announced recently. The invited user's filter does not apply.
pub open spec fn reviewer_added_result(users: Seq<User>, old: RateLimiter, new: RateLimiter, event: ReviewerAddedEvent, tasks: Seq<TaskView>) -> bool {
    match reviewer_recipient(users, event) {
        None => new == old && tasks == Seq::<TaskView>::empty(),
        Some(u) => {
            let job = TaskView::Format {
                input: MessageInput::ReviewerAdded(Box::new(event)),
                recipients: seq![RecipientView { email: u.email@, flags: Some(active_flags(u)), filter: None }],
            };
            let line = CacheLineView::ReviewerAdded { user_ref: last_match(users, u.email@) as usize, subject: event.change.subject@ };
            exists|held: bool| #![trigger limiter_after(old, new, seq![line], held)]
                limiter_after(old, new, seq![line], held) && tasks == (if held { seq![] } else { seq![job] })
        },
    }
}

proof fn lemma_recipients_push(rs: Seq<Recipient>, r: Recipient)
    ensures
        recipients_view(rs.push(r)) == recipients_view(rs).push(r@),
{
    assert(recipients_view(rs.push(r)) =~= recipients_view(rs).push(r@));
}

impl Bot {
    /// Appends the recipient a candidate account contributes.
    fn add_recipient(&self, c: &gerrit_events::User, actor: &Option<String>, flag: UserFlag, out: &mut Vec<Recipient>)
        ensures
            recipients_view(final(out)@) == recipients_view(old(out)@) + recipient_piece(self.state.users@, *c, opt_view(*actor), flag),
    {
        let ghost piece = recipient_piece(self.state.users@, *c, opt_view(*actor), flag);
        match &c.email {
            Some(e) => {
                if c.is_human() {
                    match self.state.user_index(e.as_str()) {
                        Some(i) => {
                            let user = &self.state.users[i];
                            let not_actor = match actor {
                                Some(a) => !str_equal(a.as_str(), e.as_str()),
                                None => true,
                            };
                            if not_actor && user.has_flag(flag) {
                                let r = recipient_for_user(user);
                                out.push(r);
                                proof {
                                    lemma_recipients_push(old(out)@, r);
                                }
                                return;
                            }
                        },
                        None => {},
                    }
                }
            },
            None => {},
        }
        assert(piece == Seq::<RecipientView>::empty());
        assert(recipients_view(old(out)@) + piece =~= recipients_view(old(out)@));
    }

    /// The recipients of a notification about a change: interested people
    /// other than the actor who have the flag.
    fn notify_list(&self, change: &Change, patchset: &PatchSet, actor: &Option<String>, flag: UserFlag) -> (r: Vec<Recipient>)
        ensures
            recipients_view(r@) == notify_recipients(self.state.users@, candidates(*change, *patchset), opt_view(*actor), flag),
    {
        let mut out: Vec<Recipient> = Vec::new();
        let ghost users = self.state.users@;
        let ghost a = opt_view(*actor);
        match &patchset.approvals {
            Some(approvals) => {
                let mut i: usize = 0;
                while i < approvals.len()
                    invariant
                        i <= approvals@.len(),
                        users == self.state.users@,
                        a == opt_view(*actor),
                        recipients_view(out@) == notify_recipients(users, voters(approvals@.subrange(0, i as int)), a, flag),
                    decreases approvals@.len() - i,
                {
                    let ghost pre = approvals@.subrange(0, i as int);
                    let ghost post = approvals@.subrange(0, i + 1);
                    proof {
                        assert(post.drop_last() == pre);
                    }
                    match &approvals[i].by {
                        Some(u) => {
                            self.add_recipient(u, actor, flag, &mut out);
                            proof {
                                assert(voters(post) == voters(pre).push(*u));
                                assert(voters(pre).push(*u).drop_last() == voters(pre));
                            }
                        },
                        None => {
                            assert(voters(post) =~= voters(pre));
                        },
                    }
                    i = i + 1;
                }
                assert(approvals@.subrange(0, approvals@.len() as int) == approvals@);
            },
            None => {
                assert(voters(approvals_of_patchset(*patchset)) =~= seq![]);
                assert(recipients_view(out@) =~= seq![]);
            },
        }
        let ghost before = voters(approvals_of_patchset(*patchset));
        assert(recipients_view(out@) == notify_recipients(users, before, a, flag));
        self.add_recipient(&change.owner, actor, flag, &mut out);
        proof {
            let cands = candidates(*change, *patchset);
            assert(cands.drop_last() == before);
            assert(cands.last() == change.owner);
            assert(notify_recipients(users, cands, a, flag) == notify_recipients(users, before, a, flag) + recipient_piece(users, change.owner, a, flag));
        }
        out
    }

    /// Wraps recipients into a notification task, where there are any.
    fn notify(input: MessageInput, recipients: Vec<Recipient>) -> (r: Vec<Task>)
        ensures
            tasks_view(r@) == notify_tasks(input, recipients_view(recipients@)),
    {
        if recipients.len() == 0 {
            let r: Vec<Task> = Vec::new();
            assert(tasks_view(r@) =~= seq![]);
            r
        } else {
            one_task(Task::Format(FormatJob { input, recipients }))
        }
    }

    /// Tells interested people about a merged change.
    pub fn change_merged(&self, event: Box<ChangeMergedEvent>) -> (r: Vec<Task>)
        ensures
            tasks_view(r@) == notify_tasks(
                MessageInput::ChangeMerged(event),
                notify_recipients(self.state.users@, candidates(event.change, event.patchset), email_of(event.submitter), UserFlag::NotifyChangeMerged),
            ),
    {
        let recipients = self.notify_list(&event.change, &event.patchset, &event.submitter.email, UserFlag::NotifyChangeMerged);
        Bot::notify(MessageInput::ChangeMerged(event), recipients)
    }

    /// Tells interested people about an abandoned change.
    pub fn change_abandoned(&self, event: Box<ChangeAbandonedEvent>) -> (r: Vec<Task>)
        ensures
            tasks_view(r@) == notify_tasks(
                MessageInput::ChangeAbandoned(event),
                notify_recipients(self.state.users@, candidates(event.change, event.patchset), email_of(event.abandoner), UserFlag::NotifyChangeAbandoned),
            ),
    {
        let recipients = self.notify_list(&event.change, &event.patchset, &event.abandoner.email, UserFlag::NotifyChangeAbandoned);
        Bot::notify(MessageInput::ChangeAbandoned(event), recipients)
    }
}

/// What the bot does about an action: the users afterwards, the rate limiter
/// afterwards, and the tasks.
pub open spec fn update_result(old_users: Seq<User>, new_users: Seq<User>, old: RateLimiter, new: RateLimiter, action: Action, tasks: Seq<TaskView>) -> bool {
    match action {
        Action::RunCommand { sender, command } => new == old && command_result(old_users, new_users, sender@, command, tasks),
        Action::UnknownCommand { sender } => new_users == old_users && new == old
            && tasks == seq![formatted_reply(sender@, MessageInput::Greeting)],
        Action::CommentAdded(e) => new_users == old_users && comment_added_result(old_users, old, new, *e, tasks),
        Action::ReviewerAdded(e) => new_users == old_users && reviewer_added_result(old_users, old, new, *e, tasks),
        Action::ChangeMerged(e) => new_users == old_users && new == old && tasks == notify_tasks(
            MessageInput::ChangeMerged(e),
            notify_recipients(old_users, candidates(e.change, e.patchset), email_of(e.submitter), UserFlag::NotifyChangeMerged),
        ),
        Action::ChangeAbandoned(e) => new_users == old_users && new == old && tasks == notify_tasks(
            MessageInput::ChangeAbandoned(e),
            notify_recipients(old_users, candidates(e.change, e.patchset), email_of(e.abandoner), UserFlag::NotifyChangeAbandoned),
        ),
    }
}

/// Records the votes of a comment in the rate limiter and answers whether
/// all of them were announced recently.
fn limit_approvals(rl: &mut RateLimiter, index: usize, event: &CommentAddedEvent, approver: &String, approvals: &Vec<Approval>) -> (held: bool)
    requires
        old(rl).wf(),
        approver@ == approver_key(event.author),
        event.approvals == Some(*approvals),
    ensures
        final(rl).wf(),
        limiter_after(*old(rl), *final(rl), approval_lines(index, *event), held),
{
    let ghost lines = approval_lines(index, *event);
    let ghost c0 = old(rl).cache;
    let ghost mut orders: Seq<Seq<CacheLineView>> = seq![match c0 {
        Some(c) => cache_order(c),
        None => Seq::<CacheLineView>::empty(),
    }];
    let ghost mut hits: Seq<bool> = seq![];
    let mut held = rl.cache.is_some();
    let mut i: usize = 0;
    while i < approvals.len()
        invariant
            i <= approvals@.len(),
            rl.wf(),
            lines == approval_lines(index, *event),
            event.approvals == Some(*approvals),
            lines.len() == approvals@.len(),
            approver@ == approver_key(event.author),
            c0 is None ==> rl.cache is None && !held,
            c0 matches Some(c) ==> rl.cache matches Some(d) && {
                &&& cache_capacity(d) == cache_capacity(c)
                &&& cache_expiry_ms(d) == cache_expiry_ms(c)
                &&& recorded_all(orders, hits, lines.subrange(0, i as int), cache_capacity(c))
                &&& orders[0] == cache_order(c)
                &&& orders.last() == cache_order(d)
                &&& held == all_hits(hits)
                &&& forall|x: CacheLineView| #[trigger] cached_lines(d).contains(x) ==> cached_lines(c).contains(x) || lines.subrange(0, i as int).contains(x)
                &&& i > 0 ==> cached_lines(d).contains(lines[i - 1])
                &&& held ==> forall|j: int| 0 <= j < i ==> cached_lines(c).contains(#[trigger] lines[j])
                    || lines.subrange(0, j).contains(lines[j])
            },
        decreases approvals@.len() - i,
    {
        let ghost before = rl.cache;
        let hit = rl.limit(index, event.change.subject.as_str(), (approver, &approvals[i]));
        proof {
            let line = <(&String, &Approval) as IntoCacheLine>::cache_line_of(index, event.change.subject@, &(approver, &approvals@[i as int]));
            assert(line == lines[i as int]);
            if let Some(c) = c0 {
                let d = rl.cache->0;
                let b = before->0;
                assert forall|x: CacheLineView| #[trigger] cached_lines(d).contains(x) implies cached_lines(c).contains(x) || lines.subrange(0, i + 1).contains(x) by {
                    if cached_lines(b).contains(x) {
                        if !cached_lines(c).contains(x) {
                            let k = choose|k: int| 0 <= k < i && lines.subrange(0, i as int)[k] == x;
                            assert(lines.subrange(0, i + 1)[k] == x);
                        }
                    } else {
                        assert(x == line);
                        assert(lines.subrange(0, i + 1)[i as int] == x);
                    }
                }
                if held && hit {
                    assert forall|j: int| 0 <= j < i + 1 implies cached_lines(c).contains(#[trigger] lines[j])
                        || lines.subrange(0, j).contains(lines[j]) by {
                        if j == i {
                            assert(cached_lines(b).contains(line));
                        }
                    }
                }
                let new_orders = orders.push(cache_order(d));
                let new_hits = hits.push(hit);
                let sub = lines.subrange(0, i + 1);
                assert forall|j: int| 0 <= j < sub.len() implies #[trigger] recorded(new_orders[j], new_orders[j + 1], sub[j], cache_capacity(c), new_hits[j]) by {
                    if j < i {
                        assert(sub[j] == lines.subrange(0, i as int)[j]);
                        assert(recorded(orders[j], orders[j + 1], lines.subrange(0, i as int)[j], cache_capacity(c), hits[j]));
                    } else {
                        assert(sub[j] == line);
                        assert(new_orders[j] == cache_order(b));
                    }
                }
                assert(all_hits(new_hits) == (all_hits(hits) && hit)) by {
                    if all_hits(hits) && hit {
                        assert forall|j: int| 0 <= j < new_hits.len() implies #[trigger] new_hits[j] by {
                            if j < hits.len() {
                                assert(new_hits[j] == hits[j]);
                            }
                        }
                    }
                    if all_hits(new_hits) {
                        assert(new_hits[hits.len() as int] == hit);
                        assert forall|j: int| 0 <= j < hits.len() implies #[trigger] hits[j] by {
                            assert(new_hits[j] == hits[j]);
                        }
                    }
                }
            }
        }
        proof {
            if c0 is Some {
                orders = orders.push(cache_order(rl.cache->0));
                hits = hits.push(hit);
            }
        }
        held = held && hit;
        i = i + 1;
    }
    proof {
        assert(lines.subrange(0, lines.len() as int) == lines);
        if rl.cache is Some {
            lemma_cached_lines(rl.cache->0);
        }
        if c0 is Some {
            assert(recorded_all(orders, hits, lines, cache_capacity(c0->0)));
        }
    }
    held
}

impl Bot {
    fn empty_tasks() -> (r: Vec<Task>)
        ensures
            tasks_view(r@) == Seq::<TaskView>::empty(),
    {
        let r: Vec<Task> = Vec::new();
        assert(tasks_view(r@) =~= Seq::<TaskView>::empty());
        r
    }

    /// Tells the owner of a change about a comment with votes from someone else.
    fn approvals_message(&mut self, event: Box<CommentAddedEvent>) -> (r: Vec<Task>)
        requires
            old(self).rate_limiter.wf(),
            email_of(event.change.owner) != email_of(event.author),
        ensures
            final(self).rate_limiter.wf(),
            final(self).state == old(self).state,
            comment_added_result(old(self).state.users@, old(self).rate_limiter, final(self).rate_limiter, *event, tasks_view(r@)),
    {
        let ghost users = self.state.users@;
        let idx = match &event.change.owner.email {
            Some(e) => match self.state.user_index(e.as_str()) {
                Some(i) => i,
                None => return Bot::empty_tasks(),
            },
            None => return Bot::empty_tasks(),
        };
        let flags = review_comment_flags();
        if !self.state.users[idx].has_any_flag(flags.as_slice()) {
            return Bot::empty_tasks();
        }
        let ghost u = users[idx as int];
        proof {
            assert(approval_recipient(users, *event) == Some(u));
            assert(u.email@ == event.change.owner.email->0@);
            assert(last_match(users, u.email@) == idx);
        }
        let held = match &event.approvals {
            Some(approvals) => {
                if approvals.len() > 0 {
                    let approver = match &event.author.username {
                        Some(n) => n.clone(),
                        None => String::new(),
                    };
                    limit_approvals(&mut self.rate_limiter, idx, &event, &approver, approvals)
                } else {
                    assert(approval_lines(idx, *event) =~= seq![]);
                    false
                }
            },
            None => false,
        };
        if held {
            return Bot::empty_tasks();
        }
        let recipient = recipient_for_user(&self.state.users[idx]);
        let mut recipients: Vec<Recipient> = Vec::new();
        recipients.push(recipient);
        proof {
            assert(recipients_view(recipients@) =~= seq![recipient_of(u)]);
        }
        one_task(Task::Format(FormatJob { input: MessageInput::CommentAdded(event), recipients }))
    }

    /// Reacts to a new review comment.
    pub fn comment_added(&mut self, event: Box<CommentAddedEvent>) -> (r: Vec<Task>)
        requires
            old(self).rate_limiter.wf(),
        ensures
            final(self).rate_limiter.wf(),
            final(self).state == old(self).state,
            comment_added_result(old(self).state.users@, old(self).rate_limiter, final(self).rate_limiter, *event, tasks_view(r@)),
    {
        if opt_str_eq(&event.change.owner.email, &event.author.email) {
            let recipients = self.notify_list(&event.change, &event.patchset, &event.author.email, UserFlag::NotifyReviewResponses);
            Bot::notify(MessageInput::CommentAdded(event), recipients)
        } else {
            self.approvals_message(event)
        }
    }

    /// Tells a user about being invited to a change.
    pub fn reviewer_added(&mut self, event: Box<ReviewerAddedEvent>) -> (r: Vec<Task>)
        requires
            old(self).rate_limiter.wf(),
        ensures
            final(self).rate_limiter.wf(),
            final(self).state == old(self).state,
            reviewer_added_result(old(self).state.users@, old(self).rate_limiter, final(self).rate_limiter, *event, tasks_view(r@)),
    {
        let ghost users = self.state.users@;
        let idx = match &event.reviewer.email {
            Some(e) => match self.state.user_index(e.as_str()) {
                Some(i) => i,
                None => return Bot::empty_tasks(),
            },
            None => return Bot::empty_tasks(),
        };
        if !self.state.users[idx].has_flag(UserFlag::NotifyReviewerAdded) {
            return Bot::empty_tasks();
        }
        let ghost u = users[idx as int];
        let ghost line = CacheLineView::ReviewerAdded { user_ref: idx, subject: event.change.subject@ };
        proof {
            assert(reviewer_recipient(users, *event) == Some(u));
            assert(u.email@ == event.reviewer.email->0@);
            assert(last_match(users, u.email@) == idx);
        }
        let held = self.rate_limiter.limit(idx, event.change.subject.as_str(), &*event);
        proof {
            assert(seq![line].last() == line);
            assert(limiter_after(old(self).rate_limiter, self.rate_limiter, seq![line], held)) by {
                if let Some(c) = old(self).rate_limiter.cache {
                    let d = self.rate_limiter.cache->0;
                    assert forall|x: CacheLineView| #[trigger] cached_lines(d).contains(x) implies cached_lines(c).contains(x) || seq![line].contains(x) by {
                        if !cached_lines(c).contains(x) {
                            assert(x == line);
                            assert(seq![line][0] == x);
                        }
                    }
                    let orders = seq![cache_order(c), cache_order(d)];
                    let hits = seq![held];
                    assert(recorded(orders[0], orders[1], seq![line][0], cache_capacity(c), hits[0]));
                    assert(recorded_all(orders, hits, seq![line], cache_capacity(c)));
                    assert(all_hits(hits) == held) by {
                        if held {
                            assert forall|j: int| 0 <= j < hits.len() implies #[trigger] hits[j] by {
                                assert(j == 0);
                            }
                        }
                    }
                }
            }
        }
        if held {
            return Bot::empty_tasks();
        }
        let user = &self.state.users[idx];
        let recipient = Recipient { email: user.email.clone(), flags: Some(active_flags_of(user)), filter: None };
        let mut recipients: Vec<Recipient> = Vec::new();
        recipients.push(recipient);
        proof {
            assert(recipients_view(recipients@) =~= seq![RecipientView { email: u.email@, flags: Some(active_flags(u)), filter: None }]);
        }
        one_task(Task::Format(FormatJob { input: MessageInput::ReviewerAdded(event), recipients }))
    }

    /// Reacts to an action and returns what to do about it.
    pub fn update(&mut self, action: Action) -> (r: Vec<Task>)
        requires
            old(self).rate_limiter.wf(),
        ensures
            final(self).rate_limiter.wf(),
            update_result(old(self).state.users@, final(self).state.users@, old(self).rate_limiter, final(self).rate_limiter, action, tasks_view(r@)),
    {
        match action {
            Action::RunCommand { sender, command } => self.run_command(sender, command),
            Action::UnknownCommand { sender } => one_task(formatted_reply_task(sender, MessageInput::Greeting, None)),
            Action::CommentAdded(event) => self.comment_added(event),
            Action::ReviewerAdded(event) => self.reviewer_added(event),
            Action::ChangeMerged(event) => self.change_merged(event),
            Action::ChangeAbandoned(event) => self.change_abandoned(event),
        }
    }
}

/// The action a message to the bot stands for.
pub open spec fn message_action_result(message: spark::Message, action: Action) -> bool {
    match command_of(message.text@) {
        Some(c) => action matches Action::RunCommand { sender, command } && sender == message.person_email && command@ == c,
        None => action matches Action::UnknownCommand { sender } && sender == message.person_email,
    }
}

/// Turns a message to the bot into an action: a command, or an unknown one.
pub fn spark_message_to_action(message: spark::Message) -> (r: Action)
    ensures
        message_action_result(message, r),
{
    let sender = message.person_email;
    match Command::from_str(message.text.as_str()) {
        Ok(command) => Action::RunCommand { sender, command },
        Err(()) => Action::UnknownCommand { sender },
    }
}

/// Turns a Gerrit event into a bot action.
pub fn gerrit_event_to_action(event: Event) -> (r: Option<Action>)
    ensures
        r matches Some(a) && match event {
            Event::CommentAdded(e) => a matches Action::CommentAdded(b) && *b == e,
            Event::ReviewerAdded(e) => a matches Action::ReviewerAdded(b) && *b == e,
            Event::ChangeMerged(e) => a matches Action::ChangeMerged(b) && *b == e,
            Event::ChangeAbandoned(e) => a matches Action::ChangeAbandoned(b) && *b == e,
        },
{
    match event {
        Event::CommentAdded(event) => Some(Action::CommentAdded(Box::new(event))),
        Event::ReviewerAdded(event) => Some(Action::ReviewerAdded(Box::new(event))),
        Event::ChangeMerged(event) => Some(Action::ChangeMerged(Box::new(event))),
        Event::ChangeAbandoned(event) => Some(Action::ChangeAbandoned(Box::new(event))),
    }
}

} // verus!
