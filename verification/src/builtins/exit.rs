//! `exit`: whether the shell may exit, and with which status.

use vstd::prelude::*;

use crate::builtins::{BuiltinCommand, EXIT_NAME};
use crate::errors::{Error, ErrorKind};
use crate::num::{parse_i32, parse_int};
use crate::text::{first_line, first_line_of};
use crate::util::{BshExitStatusExt, ExitStatus, raw_of_code};

verus! {

pub const EXIT_HELP: &'static str = "\
exit: exit [n]
    Exit the shell with a status of N. If N is omitted, the exit status
    is 0.";

/// The `exit` builtin.
pub struct Exit;

impl BuiltinCommand for Exit {
    fn name() -> (r: &'static str)
        ensures
            r@ == EXIT_NAME@,
    {
        EXIT_NAME
    }

    fn help() -> (r: &'static str)
        ensures
            r@ == EXIT_HELP@,
    {
        EXIT_HELP
    }

    fn usage() -> (r: String)
        ensures
            r@ == first_line(EXIT_HELP@),
    {
        first_line_of(EXIT_HELP)
    }
}

/// How the shell exits: with the given status (the last command's when
/// none is given), after printing a warning if the argument was not a
/// number.
pub struct ExitRequest {
    pub status: Option<ExitStatus>,
    pub warning: Option<String>,
}

/// What `exit args` does: refuses while background jobs exist; else exits
/// with status 0 without an argument, with the status of the first argument
/// read as a number, or with 2 and a warning when it is not one.
pub fn exit_request(has_background_jobs: bool, args: &[String]) -> (r: Result<ExitRequest, Error>)
    ensures
        has_background_jobs ==> (r matches Err(e) && e.kind matches ErrorKind::BuiltinCommand {
            message,
            code,
        } && message@ == "There are stopped jobs."@ && code == 1),
        !has_background_jobs && args@.len() == 0 ==> (r matches Ok(x) && x.status == Some(
            ExitStatus { raw: raw_of_code(0) },
        ) && x.warning is None),
        !has_background_jobs && args@.len() > 0 ==> (r matches Ok(x) && match parse_int(
            args@[0]@,
            true,
            i32::MIN as int,
            i32::MAX as int,
        ) {
            Some(n) => x.status == Some(ExitStatus { raw: raw_of_code(n as i32) })
                && x.warning is None,
            None => {
                &&& x.status == Some(ExitStatus { raw: raw_of_code(2) })
                &&& x.warning matches Some(w) && w@ == "bsh: exit: "@ + args@[0]@
                    + ": numeric argument required"@
            },
        }),
{
    if has_background_jobs {
        return Err(Error::builtin_command("There are stopped jobs.", 1));
    }
    if args.len() == 0 {
        return Ok(ExitRequest { status: Some(ExitStatus::from_status(0)), warning: None });
    }
    match parse_i32(args[0].as_str()) {
        Some(n) => Ok(ExitRequest { status: Some(ExitStatus::from_status(n)), warning: None }),
        None => {
            let mut w = crate::errors::concat("bsh: exit: ", args[0].as_str());
            vstd::string::StringExecFns::append(&mut w, ": numeric argument required");
            Ok(ExitRequest { status: Some(ExitStatus::from_status(2)), warning: Some(w) })
        },
    }
}

} // verus!
