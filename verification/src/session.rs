//! The decisions taken while talking to Gerrit over SSH, as state machines.
//!
//! The caller owns the SSH connection. It performs the action a machine asks
//! for, reports the outcome as an event, and gets the next action back, until
//! the machine stops.

use vstd::prelude::*;

use crate::gerrit::{Change, ChangeDetails, PatchSet};
use crate::text::{push_signed_decimal, push_str, signed_decimal, string_from};

verus! {

/// Runs commands one after another on a shared SSH connection.
#[derive(Debug, Clone)]
pub enum Runner {
    /// Waiting for the next command.
    Waiting,
    /// Reconnecting, then running the command.
    Reconnecting { command: String },
    /// Opening a channel for the command.
    Opening { command: String },
    /// The command was started on a channel.
    Executing,
    /// Reading the command's output.
    Reading,
    /// Closing the channel; the output read so far is kept.
    Closing { output: String },
    /// The result was handed back to whoever asked.
    Replying,
    Stopped,
}

/// What happened when the caller did what the runner asked for.
#[derive(Debug)]
pub enum RunnerEvent {
    /// The next command, or `None` where nobody can ask any more.
    Request(Option<String>),
    /// Reconnecting, with retries, ended.
    Reconnected(Result<(), String>),
    ChannelOpened(Result<(), String>),
    Executed(Result<(), String>),
    OutputRead(Result<String, String>),
    /// The channel was closed, with the command's exit status.
    ChannelClosed(Result<i32, String>),
    /// Whether the result reached whoever asked.
    Replied(bool),
}

/// What the runner asks the caller to do.
#[derive(Debug)]
pub enum RunnerAction {
    ReceiveRequest,
    Reconnect,
    OpenChannel,
    Exec(String),
    ReadOutput,
    CloseChannel,
    Reply(Result<String, String>),
    Stop,
}

/// The event is an outcome of what the runner asked for in this state.
pub open spec fn runner_fits(s: Runner, e: RunnerEvent) -> bool {
    match s {
        Runner::Waiting => e is Request,
        Runner::Reconnecting { .. } => e is Reconnected,
        Runner::Opening { .. } => e is ChannelOpened,
        Runner::Executing => e is Executed,
        Runner::Reading => e is OutputRead,
        Runner::Closing { .. } => e is ChannelClosed,
        Runner::Replying => e is Replied,
        Runner::Stopped => false,
    }
}

/// The failure reported for a command.
pub open spec fn is_failure(a: RunnerAction, text: Seq<char>) -> bool {
    a matches RunnerAction::Reply(Err(m)) && m@ == text
}

/// One step of the runner: the state after the event and the next action.
/// A channel that cannot be opened counts as a lost connection: the runner
/// reconnects and tries again with the same command. Every other failure is
/// the command's result.
pub open spec fn runner_step(s: Runner, e: RunnerEvent, t: Runner, a: RunnerAction) -> bool {
    match (s, e) {
        (Runner::Waiting, RunnerEvent::Request(None)) => t is Stopped && a is Stop,
        (Runner::Waiting, RunnerEvent::Request(Some(c))) => t == (Runner::Opening { command: c }) && a is OpenChannel,
        (Runner::Reconnecting { command }, RunnerEvent::Reconnected(Ok(()))) => t == (Runner::Opening { command }) && a is OpenChannel,
        (Runner::Reconnecting { .. }, RunnerEvent::Reconnected(Err(_))) => t is Stopped && a is Stop,
        (Runner::Opening { command }, RunnerEvent::ChannelOpened(Err(_))) => t == (Runner::Reconnecting { command }) && a is Reconnect,
        (Runner::Opening { command }, RunnerEvent::ChannelOpened(Ok(()))) => t is Executing && (a matches RunnerAction::Exec(c) && c@ == command@),
        (Runner::Executing, RunnerEvent::Executed(Err(e))) => t is Replying && is_failure(a, "failed to request exec channel: "@ + e@),
        (Runner::Executing, RunnerEvent::Executed(Ok(()))) => t is Reading && a is ReadOutput,
        (Runner::Reading, RunnerEvent::OutputRead(Err(e))) => t is Replying && is_failure(a, "failed to read from channel: "@ + e@),
        (Runner::Reading, RunnerEvent::OutputRead(Ok(d))) => t == (Runner::Closing { output: d }) && a is CloseChannel,
        (Runner::Closing { output }, RunnerEvent::ChannelClosed(Ok(status))) => t is Replying && (if status == 0 {
            a matches RunnerAction::Reply(Ok(o)) && o@ == output@
        } else {
            is_failure(a, "command exited with status "@ + signed_decimal(status as int))
        }),
        (Runner::Closing { .. }, RunnerEvent::ChannelClosed(Err(e))) => t is Replying && is_failure(a, "failed to close command channel: "@ + e@),
        (Runner::Replying, RunnerEvent::Replied(true)) => t is Waiting && a is ReceiveRequest,
        (Runner::Replying, RunnerEvent::Replied(false)) => t is Stopped && a is Stop,
        _ => false,
    }
}

/// `prefix` followed by `text`.
fn message(prefix: &str, text: &str) -> (r: String)
    ensures
        r@ == prefix@ + text@,
{
    let mut r = string_from(prefix);
    push_str(&mut r, text);
    r
}

impl Runner {
    /// A runner that waits for its first command.
    pub fn start() -> (r: (Runner, RunnerAction))
        ensures
            r.0 is Waiting,
            r.1 is ReceiveRequest,
    {
        (Runner::Waiting, RunnerAction::ReceiveRequest)
    }

    /// Whether `event` can follow the action this state asked for.
    pub fn accepts(&self, event: &RunnerEvent) -> (r: bool)
        ensures
            r == runner_fits(*self, *event),
    {
        match self {
            Runner::Waiting => matches!(event, RunnerEvent::Request(_)),
            Runner::Reconnecting { .. } => matches!(event, RunnerEvent::Reconnected(_)),
            Runner::Opening { .. } => matches!(event, RunnerEvent::ChannelOpened(_)),
            Runner::Executing => matches!(event, RunnerEvent::Executed(_)),
            Runner::Reading => matches!(event, RunnerEvent::OutputRead(_)),
            Runner::Closing { .. } => matches!(event, RunnerEvent::ChannelClosed(_)),
            Runner::Replying => matches!(event, RunnerEvent::Replied(_)),
            Runner::Stopped => false,
        }
    }

    /// Takes the outcome of the last action and decides what comes next.
    pub fn step(self, event: RunnerEvent) -> (r: (Runner, RunnerAction))
        requires
            runner_fits(self, event),
        ensures
            runner_step(self, event, r.0, r.1),
    {
        match (self, event) {
            (Runner::Waiting, RunnerEvent::Request(None)) => (Runner::Stopped, RunnerAction::Stop),
            (Runner::Waiting, RunnerEvent::Request(Some(c))) => (Runner::Opening { command: c }, RunnerAction::OpenChannel),
            (Runner::Reconnecting { command }, RunnerEvent::Reconnected(Ok(()))) => (Runner::Opening { command }, RunnerAction::OpenChannel),
            (Runner::Reconnecting { .. }, RunnerEvent::Reconnected(Err(_))) => (Runner::Stopped, RunnerAction::Stop),
            (Runner::Opening { command }, RunnerEvent::ChannelOpened(Err(_))) => (Runner::Reconnecting { command }, RunnerAction::Reconnect),
            (Runner::Opening { command }, RunnerEvent::ChannelOpened(Ok(()))) => (Runner::Executing, RunnerAction::Exec(command)),
            (Runner::Executing, RunnerEvent::Executed(Err(e))) => (
                Runner::Replying,
                RunnerAction::Reply(Err(message("failed to request exec channel: ", e.as_str()))),
            ),
            (Runner::Executing, RunnerEvent::Executed(Ok(()))) => (Runner::Reading, RunnerAction::ReadOutput),
            (Runner::Reading, RunnerEvent::OutputRead(Err(e))) => (
                Runner::Replying,
                RunnerAction::Reply(Err(message("failed to read from channel: ", e.as_str()))),
            ),
            (Runner::Reading, RunnerEvent::OutputRead(Ok(d))) => (Runner::Closing { output: d }, RunnerAction::CloseChannel),
            (Runner::Closing { output }, RunnerEvent::ChannelClosed(Ok(status))) => {
                if status == 0 {
                    (Runner::Replying, RunnerAction::Reply(Ok(output)))
                } else {
                    let mut m = string_from("command exited with status ");
                    push_signed_decimal(&mut m, status as i64);
                    (Runner::Replying, RunnerAction::Reply(Err(m)))
                }
            },
            (Runner::Closing { .. }, RunnerEvent::ChannelClosed(Err(e))) => (
                Runner::Replying,
                RunnerAction::Reply(Err(message("failed to close command channel: ", e.as_str()))),
            ),
            (Runner::Replying, RunnerEvent::Replied(delivered)) => {
                if delivered {
                    (Runner::Waiting, RunnerAction::ReceiveRequest)
                } else {
                    (Runner::Stopped, RunnerAction::Stop)
                }
            },
            (s, _) => (s, RunnerAction::Stop),
        }
    }
}

/// `states`, `events` and `actions` make a run of the runner: each event
/// fits the state it follows and leads to the next state and action.
pub open spec fn is_runner_run(states: Seq<Runner>, events: Seq<RunnerEvent>, actions: Seq<RunnerAction>) -> bool {
    &&& states.len() == events.len() + 1
    &&& actions.len() == events.len()
    &&& forall|i: int| #![trigger events[i]] 0 <= i < events.len()
        ==> runner_fits(states[i], events[i]) && runner_step(states[i], events[i], states[i + 1], actions[i])
}

/// The event hands the runner a command.
pub open spec fn takes_command(e: RunnerEvent) -> bool {
    match e {
        RunnerEvent::Request(Some(_)) => true,
        _ => false,
    }
}

/// Number of commands taken among `events`.
pub open spec fn requests_taken(events: Seq<RunnerEvent>) -> nat
    decreases events.len(),
{
    if events.len() == 0 {
        0
    } else {
        requests_taken(events.drop_last()) + (if takes_command(events.last()) { 1nat } else { 0nat })
    }
}

/// Number of results handed back among `actions`.
pub open spec fn replies(actions: Seq<RunnerAction>) -> nat
    decreases actions.len(),
{
    if actions.len() == 0 {
        0
    } else {
        replies(actions.drop_last()) + (if actions.last() is Reply { 1nat } else { 0nat })
    }
}

/// Number of commands the runner has taken and not answered yet.
pub open spec fn pending(s: Runner) -> nat {
    match s {
        Runner::Reconnecting { .. } | Runner::Opening { .. } | Runner::Executing | Runner::Reading | Runner::Closing { .. } => 1,
        _ => 0,
    }
}

/// `c` in lower case, where it is an ASCII capital letter.
pub open spec fn ascii_lower(c: char) -> char {
    if 'A' <= c && c <= 'Z' {
        ((c as u32) + 32) as char
    } else {
        c
    }
}

/// A name written in camel case (`CommentAdded`) as Gerrit writes event
/// types: in lower case, with a hyphen before each word but the first
/// (`comment-added`).
pub open spec fn kebab_case(name: Seq<char>) -> Seq<char>
    decreases name.len(),
{
    if name.len() == 0 {
        seq![]
    } else {
        let c = name.last();
        kebab_case(name.drop_last()) + (if 'A' <= c && c <= 'Z' && name.len() > 1 {
            seq!['-', ascii_lower(c)]
        } else {
            seq![ascii_lower(c)]
        })
    }
}

fn kebab_case_of(name: &str) -> (r: String)
    ensures
        r@ == kebab_case(name@),
{
    let cs = crate::text::chars_of(name);
    let mut out: Vec<char> = Vec::new();
    let mut i: usize = 0;
    while i < cs.len()
        invariant
            i <= cs@.len(),
            cs@ == name@,
            out@ == kebab_case(cs@.subrange(0, i as int)),
        decreases cs@.len() - i,
    {
        let c = cs[i];
        proof {
            assert(cs@.subrange(0, i + 1).drop_last() == cs@.subrange(0, i as int));
            assert(cs@.subrange(0, i + 1).last() == c);
        }
        let lower = if 'A' <= c && c <= 'Z' { ((c as u8) + 32) as char } else { c };
        assert(lower == ascii_lower(c));
        if 'A' <= c && c <= 'Z' && i > 0 {
            out.push('-');
        }
        out.push(lower);
        i = i + 1;
        proof {
            assert(out@ =~= kebab_case(cs@.subrange(0, i as int)));
        }
    }
    assert(cs@.subrange(0, cs@.len() as int) == cs@);
    crate::text::string_of(out.as_slice())
}

/// The command that makes Gerrit report the events the bot reacts to:
/// comments and invitations to changes.
pub open spec fn stream_events_command_spec() -> Seq<char> {
    "gerrit stream-events -s "@ + kebab_case("CommentAdded"@) + " -s "@ + kebab_case("ReviewerAdded"@)
}

/// The command that makes Gerrit report the events the bot reacts to.
pub fn stream_events_command() -> (r: String)
    ensures
        r@ == stream_events_command_spec(),
{
    let mut r = string_from("gerrit stream-events -s ");
    let a = kebab_case_of("CommentAdded");
    push_str(&mut r, a.as_str());
    push_str(&mut r, " -s ");
    let b = kebab_case_of("ReviewerAdded");
    push_str(&mut r, b.as_str());
    r
}

/// Follows Gerrit's event stream, connecting again whenever the stream breaks.
#[derive(Debug, Clone)]
pub enum Streamer {
    Connecting,
    Opening,
    /// The stream command was started.
    Starting,
    /// Waiting for the next line of output.
    Streaming,
    /// A line was handed on.
    Forwarding,
    Stopped,
}

/// What happened when the caller did what the streamer asked for.
#[derive(Debug)]
pub enum StreamEvent {
    Connected(Result<(), String>),
    ChannelOpened(Result<(), String>),
    Started(Result<(), String>),
    /// The next line; `None` at the end of the output, `Some(Err(()))` where
    /// it could not be read.
    LineRead(Option<Result<String, ()>>),
    /// Whether the line reached the receiver.
    Forwarded(bool),
}

/// What the streamer asks the caller to do.
#[derive(Debug)]
pub enum StreamAction {
    Connect,
    OpenChannel,
    Exec(String),
    ReadLine,
    Forward(String),
    /// Tell the receiver why the stream ends, and stop.
    Terminate(String),
}

/// The event is an outcome of what the streamer asked for in this state.
pub open spec fn stream_fits(s: Streamer, e: StreamEvent) -> bool {
    match s {
        Streamer::Connecting => e is Connected,
        Streamer::Opening => e is ChannelOpened,
        Streamer::Starting => e is Started,
        Streamer::Streaming => e is LineRead,
        Streamer::Forwarding => e is Forwarded,
        Streamer::Stopped => false,
    }
}

/// The stream ends with this reason.
pub open spec fn terminates(a: StreamAction, reason: Seq<char>) -> bool {
    a matches StreamAction::Terminate(m) && m@ == reason
}

/// One step of the streamer. Failing to connect, to open a channel or to
/// start the stream ends it; a stream that breaks off, cannot be read, or
/// whose receiver does not take a line is connected again.
pub open spec fn stream_step(s: Streamer, e: StreamEvent, t: Streamer, a: StreamAction) -> bool {
    match (s, e) {
        (Streamer::Connecting, StreamEvent::Connected(Err(m))) => t is Stopped && terminates(a, "Could not connect to Gerrit: "@ + m@),
        (Streamer::Connecting, StreamEvent::Connected(Ok(()))) => t is Opening && a is OpenChannel,
        (Streamer::Opening, StreamEvent::ChannelOpened(Err(m))) => t is Stopped && terminates(a, "Could not open SSH channel: "@ + m@),
        (Streamer::Opening, StreamEvent::ChannelOpened(Ok(()))) => t is Starting && (a matches StreamAction::Exec(c) && c@ == stream_events_command_spec()),
        (Streamer::Starting, StreamEvent::Started(Err(m))) => t is Stopped
            && terminates(a, "Could not execute gerrit stream-event command over ssh: "@ + m@),
        (Streamer::Starting, StreamEvent::Started(Ok(()))) => t is Streaming && a is ReadLine,
        (Streamer::Streaming, StreamEvent::LineRead(Some(Ok(l)))) => t is Forwarding && (a matches StreamAction::Forward(f) && f@ == l@),
        (Streamer::Streaming, StreamEvent::LineRead(_)) => t is Connecting && a is Connect,
        (Streamer::Forwarding, StreamEvent::Forwarded(true)) => t is Streaming && a is ReadLine,
        (Streamer::Forwarding, StreamEvent::Forwarded(false)) => t is Connecting && a is Connect,
        _ => false,
    }
}

impl Streamer {
    /// A streamer that starts by connecting.
    pub fn start() -> (r: (Streamer, StreamAction))
        ensures
            r.0 is Connecting,
            r.1 is Connect,
    {
        (Streamer::Connecting, StreamAction::Connect)
    }

    /// Whether `event` can follow the action this state asked for.
    pub fn accepts(&self, event: &StreamEvent) -> (r: bool)
        ensures
            r == stream_fits(*self, *event),
    {
        match self {
            Streamer::Connecting => matches!(event, StreamEvent::Connected(_)),
            Streamer::Opening => matches!(event, StreamEvent::ChannelOpened(_)),
            Streamer::Starting => matches!(event, StreamEvent::Started(_)),
            Streamer::Streaming => matches!(event, StreamEvent::LineRead(_)),
            Streamer::Forwarding => matches!(event, StreamEvent::Forwarded(_)),
            Streamer::Stopped => false,
        }
    }

    /// Takes the outcome of the last action and decides what comes next.
    pub fn step(self, event: StreamEvent) -> (r: (Streamer, StreamAction))
        requires
            stream_fits(self, event),
        ensures
            stream_step(self, event, r.0, r.1),
    {
        match (self, event) {
            (Streamer::Connecting, StreamEvent::Connected(Err(m))) => (
                Streamer::Stopped,
                StreamAction::Terminate(message("Could not connect to Gerrit: ", m.as_str())),
            ),
            (Streamer::Connecting, StreamEvent::Connected(Ok(()))) => (Streamer::Opening, StreamAction::OpenChannel),
            (Streamer::Opening, StreamEvent::ChannelOpened(Err(m))) => (
                Streamer::Stopped,
                StreamAction::Terminate(message("Could not open SSH channel: ", m.as_str())),
            ),
            (Streamer::Opening, StreamEvent::ChannelOpened(Ok(()))) => (Streamer::Starting, StreamAction::Exec(stream_events_command())),
            (Streamer::Starting, StreamEvent::Started(Err(m))) => (
                Streamer::Stopped,
                StreamAction::Terminate(message("Could not execute gerrit stream-event command over ssh: ", m.as_str())),
            ),
            (Streamer::Starting, StreamEvent::Started(Ok(()))) => (Streamer::Streaming, StreamAction::ReadLine),
            (Streamer::Streaming, StreamEvent::LineRead(line)) => match line {
                Some(Ok(l)) => (Streamer::Forwarding, StreamAction::Forward(l)),
                _ => (Streamer::Connecting, StreamAction::Connect),
            },
            (Streamer::Forwarding, StreamEvent::Forwarded(delivered)) => {
                if delivered {
                    (Streamer::Streaming, StreamAction::ReadLine)
                } else {
                    (Streamer::Connecting, StreamAction::Connect)
                }
            },
            (s, _) => (s, StreamAction::Connect),
        }
    }
}

/// `states`, `events` and `actions` make a run of the streamer.
pub open spec fn is_stream_run(states: Seq<Streamer>, events: Seq<StreamEvent>, actions: Seq<StreamAction>) -> bool {
    &&& states.len() == events.len() + 1
    &&& actions.len() == events.len()
    &&& forall|i: int| #![trigger events[i]] 0 <= i < events.len()
        ==> stream_fits(states[i], events[i]) && stream_step(states[i], events[i], states[i + 1], actions[i])
}

/// The line an event brings, if it brings one.
pub open spec fn line_of(e: StreamEvent) -> Option<Seq<char>> {
    match e {
        StreamEvent::LineRead(Some(Ok(l))) => Some(l@),
        _ => None,
    }
}

/// The lines read among `events`, in order.
pub open spec fn lines_read(events: Seq<StreamEvent>) -> Seq<Seq<char>>
    decreases events.len(),
{
    if events.len() == 0 {
        seq![]
    } else {
        lines_read(events.drop_last()) + (match line_of(events.last()) {
            Some(l) => seq![l],
            None => seq![],
        })
    }
}

/// The line an action hands on, if it hands one on.
pub open spec fn forwarded_line(a: StreamAction) -> Option<Seq<char>> {
    match a {
        StreamAction::Forward(l) => Some(l@),
        _ => None,
    }
}

/// The lines handed on among `actions`, in order.
pub open spec fn lines_forwarded(actions: Seq<StreamAction>) -> Seq<Seq<char>>
    decreases actions.len(),
{
    if actions.len() == 0 {
        seq![]
    } else {
        lines_forwarded(actions.drop_last()) + (match forwarded_line(actions.last()) {
            Some(l) => seq![l],
            None => seq![],
        })
    }
}

/// The query that fetches the current patch set of a change, with its comments.
pub open spec fn patch_set_query(change_id: Seq<char>) -> Seq<char> {
    "gerrit query --format JSON --current-patch-set --comments "@ + change_id
}

/// The command that fetches the current patch set of a change, with its comments.
pub fn get_patch_set_query(change_id: &str) -> (r: String)
    ensures
        r@ == patch_set_query(change_id@),
{
    message("gerrit query --format JSON --current-patch-set --comments ", change_id)
}

/// Completes the details of a change with its current patch set, over a
/// connection that is connected again once if it turns out to be lost.
#[derive(Debug)]
pub enum Fetcher {
    Opening { request: ChangeDetails },
    Reconnecting { request: ChangeDetails },
    /// Opening a channel on the new connection.
    Reopening { request: ChangeDetails },
    Fetching { request: ChangeDetails },
    Done,
}

/// What happened when the caller did what the fetcher asked for.
#[derive(Debug)]
pub enum FetchEvent {
    ChannelOpened(Result<(), String>),
    Reconnected(Result<(), String>),
    /// The current patch set Gerrit reported; `None` where the query gave none
    /// or its answer could not be read.
    Fetched(Option<PatchSet>),
}

/// What the fetcher asks the caller to do.
#[derive(Debug)]
pub enum FetchAction {
    OpenChannel,
    Reconnect,
    /// Run this query on the channel and read the first line of its answer.
    Fetch(String),
    Finish(Result<ChangeDetails, String>),
}

/// The event is an outcome of what the fetcher asked for in this state.
pub open spec fn fetch_fits(s: Fetcher, e: FetchEvent) -> bool {
    match s {
        Fetcher::Opening { .. } | Fetcher::Reopening { .. } => e is ChannelOpened,
        Fetcher::Reconnecting { .. } => e is Reconnected,
        Fetcher::Fetching { .. } => e is Fetched,
        Fetcher::Done => false,
    }
}

/// The fetch ends with this failure.
pub open spec fn fails_with(a: FetchAction, reason: Seq<char>) -> bool {
    a matches FetchAction::Finish(Err(m)) && m@ == reason
}

/// One step of the fetcher.
pub open spec fn fetch_step(s: Fetcher, e: FetchEvent, t: Fetcher, a: FetchAction) -> bool {
    match (s, e) {
        (Fetcher::Opening { request }, FetchEvent::ChannelOpened(Ok(()))) | (Fetcher::Reopening { request }, FetchEvent::ChannelOpened(Ok(()))) =>
            t == (Fetcher::Fetching { request }) && (a matches FetchAction::Fetch(q) && q@ == patch_set_query(request.change.id@)),
        (Fetcher::Opening { request }, FetchEvent::ChannelOpened(Err(_))) => t == (Fetcher::Reconnecting { request }) && a is Reconnect,
        (Fetcher::Reconnecting { request }, FetchEvent::Reconnected(Ok(()))) => t == (Fetcher::Reopening { request }) && a is OpenChannel,
        (Fetcher::Reconnecting { .. }, FetchEvent::Reconnected(Err(m))) => t is Done
            && fails_with(a, "Failed to reconnect to Gerrit over SSH: "@ + m@),
        (Fetcher::Reopening { .. }, FetchEvent::ChannelOpened(Err(m))) => t is Done
            && fails_with(a, "Failed to reconnect to Gerrit over SSH for sending commands: "@ + m@),
        (Fetcher::Fetching { request }, FetchEvent::Fetched(p)) => t is Done
            && a == FetchAction::Finish(Ok(ChangeDetails { change: Change { current_patch_set: p, ..request.change }, ..request })),
        _ => false,
    }
}

impl Fetcher {
    /// A fetcher for these details; it starts by opening a channel.
    pub fn start(request: ChangeDetails) -> (r: (Fetcher, FetchAction))
        ensures
            r.0 == (Fetcher::Opening { request }),
            r.1 is OpenChannel,
    {
        (Fetcher::Opening { request }, FetchAction::OpenChannel)
    }

    /// Whether `event` can follow the action this state asked for.
    pub fn accepts(&self, event: &FetchEvent) -> (r: bool)
        ensures
            r == fetch_fits(*self, *event),
    {
        match self {
            Fetcher::Opening { .. } | Fetcher::Reopening { .. } => matches!(event, FetchEvent::ChannelOpened(_)),
            Fetcher::Reconnecting { .. } => matches!(event, FetchEvent::Reconnected(_)),
            Fetcher::Fetching { .. } => matches!(event, FetchEvent::Fetched(_)),
            Fetcher::Done => false,
        }
    }

    /// Takes the outcome of the last action and decides what comes next.
    pub fn step(self, event: FetchEvent) -> (r: (Fetcher, FetchAction))
        requires
            fetch_fits(self, event),
        ensures
            fetch_step(self, event, r.0, r.1),
    {
        match (self, event) {
            (Fetcher::Opening { request }, FetchEvent::ChannelOpened(Ok(()))) => {
                let q = get_patch_set_query(request.change.id.as_str());
                (Fetcher::Fetching { request }, FetchAction::Fetch(q))
            },
            (Fetcher::Reopening { request }, FetchEvent::ChannelOpened(Ok(()))) => {
                let q = get_patch_set_query(request.change.id.as_str());
                (Fetcher::Fetching { request }, FetchAction::Fetch(q))
            },
            (Fetcher::Opening { request }, FetchEvent::ChannelOpened(Err(_))) => (Fetcher::Reconnecting { request }, FetchAction::Reconnect),
            (Fetcher::Reconnecting { request }, FetchEvent::Reconnected(Ok(()))) => (Fetcher::Reopening { request }, FetchAction::OpenChannel),
            (Fetcher::Reconnecting { .. }, FetchEvent::Reconnected(Err(m))) => (
                Fetcher::Done,
                FetchAction::Finish(Err(message("Failed to reconnect to Gerrit over SSH: ", m.as_str()))),
            ),
            (Fetcher::Reopening { .. }, FetchEvent::ChannelOpened(Err(m))) => (
                Fetcher::Done,
                FetchAction::Finish(Err(message("Failed to reconnect to Gerrit over SSH for sending commands: ", m.as_str()))),
            ),
            (Fetcher::Fetching { request }, FetchEvent::Fetched(p)) => {
                let ChangeDetails { user, message, change } = request;
                let change = Change { current_patch_set: p, ..change };
                (Fetcher::Done, FetchAction::Finish(Ok(ChangeDetails { user, message, change })))
            },
            (s, _) => (s, FetchAction::Reconnect),
        }
    }
}

} // verus!
