//! The commands users send to the bot, and how their text is read.

use vstd::prelude::*;

use crate::flags::UserFlag;
use crate::text::{chars_of, str_equal, string_of, trim, trim_str};

verus! {

/// A command sent by a user.
#[derive(Debug)]
pub enum Command {
    Enable,
    Disable,
    Status,
    Help,
    Version,
    FilterStatus,
    FilterEnable(bool),
    FilterAdd(String),
    SetFlag(UserFlag, bool),
}

/// A command as a mathematical value.
pub enum CommandView {
    Enable,
    Disable,
    Status,
    Help,
    Version,
    FilterStatus,
    FilterEnable(bool),
    FilterAdd(Seq<char>),
    SetFlag(UserFlag, bool),
}

impl View for Command {
    type V = CommandView;

    open spec fn view(&self) -> CommandView {
        match self {
            Command::Enable => CommandView::Enable,
            Command::Disable => CommandView::Disable,
            Command::Status => CommandView::Status,
            Command::Help => CommandView::Help,
            Command::Version => CommandView::Version,
            Command::FilterStatus => CommandView::FilterStatus,
            Command::FilterEnable(b) => CommandView::FilterEnable(*b),
            Command::FilterAdd(s) => CommandView::FilterAdd(s@),
            Command::SetFlag(f, b) => CommandView::SetFlag(*f, *b),
        }
    }
}

/// Name of `str::to_lowercase`: the Unicode lowercase mapping of a string.
pub uninterp spec fn lowercase(s: Seq<char>) -> Seq<char>;

/// Lowercases a string with `str::to_lowercase`. Claimed: the result is a
/// function of the input alone; the Unicode mapping itself is not spelled out.
#[verifier::external_body]
fn to_lowercase(s: &str) -> (r: String)
    ensures
        r@ == lowercase(s@),
{
    s.to_lowercase()
}

/// `t` starts with the word `filter` in any letter case, then a space: the
/// opening of the pattern `(?i)^filter (.*)$`. Under Unicode simple case
/// folding these six letters have no other forms than their ASCII pairs.
pub open spec fn has_filter_prefix(t: Seq<char>) -> bool {
    &&& t.len() >= 7
    &&& (t[0] == 'f' || t[0] == 'F')
    &&& (t[1] == 'i' || t[1] == 'I')
    &&& (t[2] == 'l' || t[2] == 'L')
    &&& (t[3] == 't' || t[3] == 'T')
    &&& (t[4] == 'e' || t[4] == 'E')
    &&& (t[5] == 'r' || t[5] == 'R')
    &&& t[6] == ' '
}

/// The text after `filter `, when `(?i)^filter (.*)$` matches `t`: `.`
/// matches anything but a line feed, and `$` is the end of the text.
pub open spec fn filter_argument(t: Seq<char>) -> Option<Seq<char>> {
    if has_filter_prefix(t) && !t.subrange(7, t.len() as int).contains('\n') {
        Some(t.subrange(7, t.len() as int))
    } else {
        None
    }
}

/// A command word, compared with the lowercase form of a message.
pub open spec fn is_keyword(lowered: Seq<char>) -> bool {
    ||| lowered == "enable"@
    ||| lowered == "disable"@
    ||| lowered == "status"@
    ||| lowered == "help"@
    ||| lowered == "version"@
    ||| lowered == "filter"@
    ||| lowered == "filter enable"@
    ||| lowered == "filter disable"@
}

/// The command for a trimmed text and its lowercase form.
pub open spec fn parse_command(trimmed: Seq<char>, lowered: Seq<char>) -> Option<CommandView> {
    if lowered == "enable"@ {
        Some(CommandView::Enable)
    } else if lowered == "disable"@ {
        Some(CommandView::Disable)
    } else if lowered == "status"@ {
        Some(CommandView::Status)
    } else if lowered == "help"@ {
        Some(CommandView::Help)
    } else if lowered == "version"@ {
        Some(CommandView::Version)
    } else if lowered == "filter"@ {
        Some(CommandView::FilterStatus)
    } else if lowered == "filter enable"@ {
        Some(CommandView::FilterEnable(true))
    } else if lowered == "filter disable"@ {
        Some(CommandView::FilterEnable(false))
    } else {
        match filter_argument(trimmed) {
            Some(arg) => Some(CommandView::FilterAdd(arg)),
            None => None,
        }
    }
}

/// The command a message text stands for.
pub open spec fn command_of(text: Seq<char>) -> Option<CommandView> {
    parse_command(trim(text), lowercase(trim(text)))
}

/// `(?i)^filter (.*)$` applied to `t`: the captured text, if it matches.
fn match_filter_argument(t: &[char]) -> (r: Option<Vec<char>>)
    ensures
        r matches Some(v) ==> filter_argument(t@) == Some(v@),
        r is None ==> filter_argument(t@) is None,
{
    if t.len() < 7 {
        return None;
    }
    if !((t[0] == 'f' || t[0] == 'F') && (t[1] == 'i' || t[1] == 'I') && (t[2] == 'l' || t[2] == 'L')
        && (t[3] == 't' || t[3] == 'T') && (t[4] == 'e' || t[4] == 'E') && (t[5] == 'r' || t[5] == 'R')
        && t[6] == ' ') {
        return None;
    }
    let mut arg: Vec<char> = Vec::new();
    let mut i: usize = 7;
    while i < t.len()
        invariant
            7 <= i <= t@.len(),
            arg@ == t@.subrange(7, i as int),
            !arg@.contains('\n'),
        decreases t@.len() - i,
    {
        if t[i] == '\n' {
            assert(t@.subrange(7, t@.len() as int)[i - 7] == '\n');
            return None;
        }
        arg.push(t[i]);
        i = i + 1;
        proof {
            assert(arg@ =~= t@.subrange(7, i as int));
            assert forall|k: int| 0 <= k < arg@.len() implies arg@[k] != '\n' by {
                if k < arg@.len() - 1 {
                    assert(arg@[k] == arg@.drop_last()[k]);
                    assert(!arg@.drop_last().contains('\n'));
                }
            }
        }
    }
    Some(arg)
}

impl Command {
    /// Reads a command from a message text that has already been trimmed,
    /// given also its lowercase form.
    pub fn parse_trimmed(trimmed: &str, lowered: &str) -> (r: Result<Command, ()>)
        ensures
            r is Err <==> parse_command(trimmed@, lowered@) is None,
            r matches Ok(c) ==> parse_command(trimmed@, lowered@) == Some(c@),
    {
        if str_equal(lowered, "enable") {
            Ok(Command::Enable)
        } else if str_equal(lowered, "disable") {
            Ok(Command::Disable)
        } else if str_equal(lowered, "status") {
            Ok(Command::Status)
        } else if str_equal(lowered, "help") {
            Ok(Command::Help)
        } else if str_equal(lowered, "version") {
            Ok(Command::Version)
        } else if str_equal(lowered, "filter") {
            Ok(Command::FilterStatus)
        } else if str_equal(lowered, "filter enable") {
            Ok(Command::FilterEnable(true))
        } else if str_equal(lowered, "filter disable") {
            Ok(Command::FilterEnable(false))
        } else {
            let t = chars_of(trimmed);
            match match_filter_argument(t.as_slice()) {
                Some(arg) => Ok(Command::FilterAdd(string_of(arg.as_slice()))),
                None => Err(()),
            }
        }
    }

    /// Reads a command from a message text: surrounding white space is
    /// ignored, keywords are matched in any letter case, and `filter <regex>`
    /// sets a filter.
    pub fn from_str(s: &str) -> (r: Result<Command, ()>)
        ensures
            r is Err <==> command_of(s@) is None,
            r matches Ok(c) ==> command_of(s@) == Some(c@),
    {
        let t = trim_str(s);
        let l = to_lowercase(t.as_str());
        Command::parse_trimmed(t.as_str(), l.as_str())
    }
}

} // verus!
