//! `history`: what to show or change in the command history.

use vstd::prelude::*;
use vstd::string::StringExecFns;

use crate::builtins::{BuiltinCommand, HISTORY_NAME};
use crate::errors::{Error, ErrorKind};
use crate::num::{parse_int, parse_usize};
use crate::text::{first_line, first_line_of, same_text};

verus! {

pub const HISTORY_HELP: &'static str = "\
history: history [-c] [-s size] [n]
    Display the history list with line numbers. Argument of N
    says to list only the last N lines. The `-c' option causes
    the history list to be cleared by deleting all of the entries.
    The `-s' option sets the size of the history list.";

/// The `history` builtin.
pub struct HistoryBuiltin;

impl BuiltinCommand for HistoryBuiltin {
    fn name() -> (r: &'static str)
        ensures
            r@ == HISTORY_NAME@,
    {
        HISTORY_NAME
    }

    fn help() -> (r: &'static str)
        ensures
            r@ == HISTORY_HELP@,
    {
        HISTORY_HELP
    }

    fn usage() -> (r: String)
        ensures
            r@ == first_line(HISTORY_HELP@),
    {
        first_line_of(HISTORY_HELP)
    }
}

/// What `history` does.
#[derive(Debug, PartialEq, Eq, Structural)]
pub enum HistoryAction {
    /// List every entry.
    ShowAll,
    /// Delete every entry.
    Clear,
    /// Set the capacity.
    SetSize(usize),
    /// List the last `n` entries.
    ShowLast(usize),
    /// Nothing.
    Nothing,
}

/// What `history args` does: lists everything without arguments; `-c`
/// clears; `-s` sets the size to the second argument when it is a number
/// (else does nothing); a number `n` lists the last `n` entries; anything
/// else fails with code 1.
pub fn history_action(args: &[String]) -> (r: Result<HistoryAction, Error>)
    ensures
        args@.len() == 0 ==> r == Ok::<HistoryAction, Error>(HistoryAction::ShowAll),
        args@.len() > 0 && args@[0]@ == "-c"@ ==> r == Ok::<HistoryAction, Error>(
            HistoryAction::Clear,
        ),
        args@.len() > 0 && args@[0]@ == "-s"@ ==> r == Ok::<HistoryAction, Error>(
            if args@.len() > 1 && parse_int(args@[1]@, false, 0, usize::MAX as int) is Some {
                HistoryAction::SetSize(
                    parse_int(args@[1]@, false, 0, usize::MAX as int).unwrap() as usize,
                )
            } else {
                HistoryAction::Nothing
            },
        ),
        args@.len() > 0 && args@[0]@ != "-c"@ && args@[0]@ != "-s"@ ==> match parse_int(
            args@[0]@,
            false,
            0,
            usize::MAX as int,
        ) {
            Some(n) => r == Ok::<HistoryAction, Error>(HistoryAction::ShowLast(n as usize)),
            None => r matches Err(e) && e.kind matches ErrorKind::BuiltinCommand { message, code }
                && message@ == "history: "@ + args@[0]@
                + ": nonnegative numeric argument required"@ && code == 1,
        },
{
    if args.len() == 0 {
        return Ok(HistoryAction::ShowAll);
    }
    let first = args[0].as_str();
    proof {
        reveal_strlit("-c");
        reveal_strlit("-s");
        assert("-c"@ != "-s"@) by {
            assert("-c"@[1] != "-s"@[1]);
        }
    }
    if same_text(first, "-c") {
        Ok(HistoryAction::Clear)
    } else if same_text(first, "-s") {
        if args.len() > 1 {
            match parse_usize(args[1].as_str()) {
                Some(n) => Ok(HistoryAction::SetSize(n)),
                None => Ok(HistoryAction::Nothing),
            }
        } else {
            Ok(HistoryAction::Nothing)
        }
    } else {
        match parse_usize(first) {
            Some(n) => Ok(HistoryAction::ShowLast(n)),
            None => {
                let mut m = crate::errors::concat("history: ", first);
                m.append(": nonnegative numeric argument required");
                Err(Error::builtin_command(m.as_str(), 1))
            },
        }
    }
}

} // verus!
