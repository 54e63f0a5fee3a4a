//! `help`: the help texts and usage lines of the builtins.

use vstd::prelude::*;
use vstd::string::StringExecFns;

use crate::builtins::dirs::{CD_HELP, Cd};
use crate::builtins::env::{DECLARE_HELP, Declare, UNSET_HELP, Unset};
use crate::builtins::exit::{EXIT_HELP, Exit};
use crate::builtins::history::{HISTORY_HELP, HistoryBuiltin};
use crate::builtins::jobs::{BG_HELP, Bg, FG_HELP, Fg, JOBS_HELP, JOBS_USAGE, Jobs};
use crate::builtins::kill::{KILL_HELP, Kill};
use crate::builtins::{
    BG_NAME, BuiltinCommand, CD_NAME, DECLARE_NAME, EXIT_NAME, FG_NAME, HELP_NAME, HISTORY_NAME,
    JOBS_NAME, KILL_NAME, UNSET_NAME,
};
use crate::errors::{Error, ErrorKind};
use crate::text::{first_line, first_line_of, same_text, views};

verus! {

pub const HELP_HELP: &'static str = "\
help: help [command ...]
    Display helpful information about builtin commands. If COMMAND is specified,
    gives detailed help on all commands matching COMMAND, otherwise a list of the
    builtins is printed.";

/// The `help` builtin.
pub struct Help;

impl BuiltinCommand for Help {
    fn name() -> (r: &'static str)
        ensures
            r@ == HELP_NAME@,
    {
        HELP_NAME
    }

    fn help() -> (r: &'static str)
        ensures
            r@ == HELP_HELP@,
    {
        HELP_HELP
    }

    fn usage() -> (r: String)
        ensures
            r@ == first_line(HELP_HELP@),
    {
        first_line_of(HELP_HELP)
    }
}

/// The help text of the builtin named `name`.
pub open spec fn help_topic(name: Seq<char>) -> Option<Seq<char>> {
    if name == BG_NAME@ {
        Some(BG_HELP@)
    } else if name == CD_NAME@ {
        Some(CD_HELP@)
    } else if name == DECLARE_NAME@ {
        Some(DECLARE_HELP@)
    } else if name == EXIT_NAME@ {
        Some(EXIT_HELP@)
    } else if name == FG_NAME@ {
        Some(FG_HELP@)
    } else if name == HELP_NAME@ {
        Some(HELP_HELP@)
    } else if name == HISTORY_NAME@ {
        Some(HISTORY_HELP@)
    } else if name == JOBS_NAME@ {
        Some(JOBS_HELP@)
    } else if name == KILL_NAME@ {
        Some(KILL_HELP@)
    } else if name == UNSET_NAME@ {
        Some(UNSET_HELP@)
    } else {
        None
    }
}

/// The help text of the builtin named `name`.
pub fn help_text(name: &str) -> (r: Option<&'static str>)
    ensures
        match r {
            Some(t) => help_topic(name@) == Some(t@),
            None => help_topic(name@) is None,
        },
{
    if same_text(name, BG_NAME) {
        Some(BG_HELP)
    } else if same_text(name, CD_NAME) {
        Some(CD_HELP)
    } else if same_text(name, DECLARE_NAME) {
        Some(DECLARE_HELP)
    } else if same_text(name, EXIT_NAME) {
        Some(EXIT_HELP)
    } else if same_text(name, FG_NAME) {
        Some(FG_HELP)
    } else if same_text(name, HELP_NAME) {
        Some(HELP_HELP)
    } else if same_text(name, HISTORY_NAME) {
        Some(HISTORY_HELP)
    } else if same_text(name, JOBS_NAME) {
        Some(JOBS_HELP)
    } else if same_text(name, KILL_NAME) {
        Some(KILL_HELP)
    } else if same_text(name, UNSET_NAME) {
        Some(UNSET_HELP)
    } else {
        None
    }
}

/// The usage line of every builtin, each ended by a newline.
pub open spec fn all_usages() -> Seq<char> {
    first_line(BG_HELP@) + seq!['\n'] + first_line(CD_HELP@) + seq!['\n'] + first_line(
        DECLARE_HELP@,
    ) + seq!['\n'] + first_line(EXIT_HELP@) + seq!['\n'] + first_line(FG_HELP@) + seq!['\n']
        + first_line(HELP_HELP@) + seq!['\n'] + first_line(HISTORY_HELP@) + seq!['\n']
        + JOBS_USAGE@ + seq!['\n'] + first_line(KILL_HELP@) + seq!['\n'] + first_line(
        UNSET_HELP@,
    ) + seq!['\n']
}

/// The usage line of every builtin, each ended by a newline.
pub fn print_all_usage_strings() -> (s: String)
    ensures
        s@ == all_usages(),
{
    let mut s = String::new();
    s.append(Bg::usage().as_str());
    crate::text::push_char(&mut s, '\n');
    s.append(Cd::usage().as_str());
    crate::text::push_char(&mut s, '\n');
    s.append(Declare::usage().as_str());
    crate::text::push_char(&mut s, '\n');
    s.append(Exit::usage().as_str());
    crate::text::push_char(&mut s, '\n');
    s.append(Fg::usage().as_str());
    crate::text::push_char(&mut s, '\n');
    s.append(Help::usage().as_str());
    crate::text::push_char(&mut s, '\n');
    s.append(HistoryBuiltin::usage().as_str());
    crate::text::push_char(&mut s, '\n');
    s.append(Jobs::usage().as_str());
    crate::text::push_char(&mut s, '\n');
    s.append(Kill::usage().as_str());
    crate::text::push_char(&mut s, '\n');
    s.append(Unset::usage().as_str());
    crate::text::push_char(&mut s, '\n');
    s
}

/// The help texts of the builtins named in `args`, in order, each ended
/// by a newline; unknown names are skipped.
pub open spec fn topics_text(args: Seq<Seq<char>>) -> Seq<char>
    decreases args.len(),
{
    if args.len() == 0 {
        Seq::empty()
    } else {
        topics_text(args.drop_last()) + match help_topic(args.last()) {
            Some(t) => t + seq!['\n'],
            None => Seq::empty(),
        }
    }
}

/// Whether some name in `args` is a builtin.
pub open spec fn any_topic(args: Seq<Seq<char>>) -> bool {
    exists|i: int| 0 <= i < args.len() && (#[trigger] help_topic(args[i])) is Some
}

/// What `help args` writes: every usage line without arguments; else the
/// help text of each builtin named, failing with code 1 when none is.
pub fn help_output(args: &[String]) -> (r: Result<String, Error>)
    ensures
        args@.len() == 0 ==> (r matches Ok(s) && s@ == all_usages()),
        args@.len() > 0 && any_topic(views(args@)) ==> (r matches Ok(s) && s@ == topics_text(
            views(args@),
        )),
        args@.len() > 0 && !any_topic(views(args@)) ==> (r matches Err(e) && e.kind matches ErrorKind::BuiltinCommand {
            message,
            code,
        } && message@ == "help: no help topics match "@ + args@.last()@ && code == 1),
{
    if args.len() == 0 {
        return Ok(print_all_usage_strings());
    }
    let ghost av = views(args@);
    let mut out = String::new();
    let mut all_invalid = true;
    for i in 0..args.len()
        invariant
            av == views(args@),
            out@ == topics_text(av.take(i as int)),
            all_invalid == !any_topic(av.take(i as int)),
    {
        assert(av.take(i + 1).drop_last() =~= av.take(i as int));
        assert(av.take(i + 1).last() == args@[i as int]@);
        match help_text(args[i].as_str()) {
            Some(msg) => {
                out.append(msg);
                crate::text::push_char(&mut out, '\n');
                all_invalid = false;
                assert(help_topic(av.take(i + 1)[i as int]) is Some);
            },
            None => {
                assert(any_topic(av.take(i + 1)) == any_topic(av.take(i as int))) by {
                    if any_topic(av.take(i + 1)) {
                        let k = choose|k: int| 0 <= k < av.take(i + 1).len() && (#[trigger] help_topic(
                            av.take(i + 1)[k],
                        )) is Some;
                        assert(av.take(i as int)[k] == av.take(i + 1)[k]);
                    }
                    if any_topic(av.take(i as int)) {
                        let k = choose|k: int| 0 <= k < av.take(i as int).len() && (#[trigger] help_topic(
                            av.take(i as int)[k],
                        )) is Some;
                        assert(av.take(i as int)[k] == av.take(i + 1)[k]);
                    }
                }
            },
        }
    }
    assert(av.take(args@.len() as int) =~= av);
    if all_invalid {
        let cmd = args[args.len() - 1].as_str();
        let m = crate::errors::concat("help: no help topics match ", cmd);
        return Err(Error::builtin_command(m.as_str(), 1));
    }
    Ok(out)
}

} // verus!
