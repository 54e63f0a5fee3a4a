//! The builtin commands: their names, help texts, and the decisions each
//! makes from its arguments. Carrying those decisions out (changing the
//! directory, the environment, signalling processes, printing) is the
//! caller's part.

pub mod dirs;
pub mod env;
pub mod exit;
pub mod help;
pub mod history;
pub mod jobs;
pub mod kill;

use vstd::prelude::*;

use crate::errors::{Error, ErrorKind};
use crate::text::{copy_string, copy_strings, first_line, same_text, views};
use crate::util::{BshExitStatusExt, ExitStatus, raw_of_code};

verus! {

pub const BG_NAME: &'static str = "bg";

pub const CD_NAME: &'static str = "cd";

pub const DECLARE_NAME: &'static str = "declare";

pub const EXIT_NAME: &'static str = "exit";

pub const FG_NAME: &'static str = "fg";

pub const HELP_NAME: &'static str = "help";

pub const HISTORY_NAME: &'static str = "history";

pub const JOBS_NAME: &'static str = "jobs";

pub const KILL_NAME: &'static str = "kill";

pub const UNSET_NAME: &'static str = "unset";

/// A builtin command: its name, its help text and its usage line.
pub trait BuiltinCommand {
    /// The name of the command.
    fn name() -> &'static str;

    /// The help text.
    fn help() -> &'static str;

    /// The usage line.
    fn usage() -> String;
}

/// Whether `name` is the name of a builtin.
pub open spec fn builtin_name(name: Seq<char>) -> bool {
    ||| name == BG_NAME@
    ||| name == CD_NAME@
    ||| name == DECLARE_NAME@
    ||| name == EXIT_NAME@
    ||| name == FG_NAME@
    ||| name == HELP_NAME@
    ||| name == HISTORY_NAME@
    ||| name == KILL_NAME@
    ||| name == JOBS_NAME@
    ||| name == UNSET_NAME@
}

/// Whether the program of `argv` (its first word) is a builtin.
pub fn is_builtin(argv: &[String]) -> (b: bool)
    requires
        argv@.len() > 0,
    ensures
        b == builtin_name(argv@[0]@),
{
    let p = argv[0].as_str();
    same_text(p, BG_NAME) || same_text(p, CD_NAME) || same_text(p, DECLARE_NAME) || same_text(
        p,
        EXIT_NAME,
    ) || same_text(p, FG_NAME) || same_text(p, HELP_NAME) || same_text(p, HISTORY_NAME)
        || same_text(p, KILL_NAME) || same_text(p, JOBS_NAME) || same_text(p, UNSET_NAME)
}

/// The program: the first word.
pub fn program(argv: &[String]) -> (p: String)
    requires
        argv@.len() > 0,
    ensures
        p@ == argv@[0]@,
{
    copy_string(&argv[0])
}

/// All the words.
pub fn get_argv(argv: &[String]) -> (v: Vec<String>)
    ensures
        views(v@) == views(argv@),
{
    let mut v: Vec<String> = Vec::new();
    for i in 0..argv.len()
        invariant
            views(v@) == views(argv@).take(i as int),
    {
        let ghost before = v@;
        v.push(copy_string(&argv[i]));
        assert(views(v@) =~= views(before).push(argv@[i as int]@));
        assert(views(argv@).take(i + 1) =~= views(argv@).take(i as int).push(argv@[i as int]@));
    }
    assert(views(argv@).take(argv@.len() as int) =~= views(argv@));
    v
}

/// The arguments: every word after the program.
pub fn args(argv: &[String]) -> (v: Vec<String>)
    requires
        argv@.len() > 0,
    ensures
        views(v@) == views(argv@).drop_first(),
{
    let mut v: Vec<String> = Vec::new();
    let mut i: usize = 1;
    while i < argv.len()
        invariant
            1 <= i <= argv@.len(),
            views(v@) == views(argv@).drop_first().take(i - 1),
        decreases argv@.len() - i,
    {
        let ghost before = v@;
        v.push(copy_string(&argv[i]));
        assert(views(v@) =~= views(before).push(argv@[i as int]@));
        assert(views(argv@).drop_first().take(i as int) =~= views(argv@).drop_first().take(
            i - 1,
        ).push(argv@[i as int]@));
        i = i + 1;
    }
    assert(views(argv@).drop_first().take(argv@.len() - 1) =~= views(argv@).drop_first());
    v
}

/// The exit code of a builtin's result: 0 on success, the code of a
/// builtin failure, 1 for any other error.
pub open spec fn builtin_exit_code(result: Result<(), Error>) -> i32 {
    match result {
        Ok(()) => 0,
        Err(e) => match e.kind {
            ErrorKind::BuiltinCommand { code, .. } => code,
            _ => 1,
        },
    }
}

/// The exit status of a builtin's result.
pub fn get_builtin_exit_status(result: &Result<(), Error>) -> (s: ExitStatus)
    ensures
        s.raw == raw_of_code(builtin_exit_code(*result)),
{
    let status = match result {
        Err(e) => match &e.kind {
            ErrorKind::BuiltinCommand { code, .. } => *code,
            _ => 1,
        },
        Ok(()) => 0,
    };
    ExitStatus::from_status(status)
}

} // verus!
