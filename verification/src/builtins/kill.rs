//! `kill`: which job or processes to signal, and what to report.

use vstd::prelude::*;
use vstd::string::StringExecFns;

use crate::builtins::{BuiltinCommand, KILL_NAME};
use crate::errors::{Error, ErrorKind};
use crate::lang::parser::lexer::copy_range;
use crate::num::{decimal, parse_int, parse_u32, u64_to_string};
use crate::text::{chars_of, first_line, first_line_of, string_of};

verus! {

pub const KILL_HELP: &'static str = "\
kill: kill pid | %jobspec
    Send a signal to a job.

    Send SIGTERM to the processes identified by JOBSPEC.

    Kill is a shell builtin for two reasons: it allows job IDs
    to be used instead of process IDs.

    Exit Status:
    Returns success unless an invalid option is given or an error occurs.";

/// The `kill` builtin.
pub struct Kill;

impl BuiltinCommand for Kill {
    fn name() -> (r: &'static str)
        ensures
            r@ == KILL_NAME@,
    {
        KILL_NAME
    }

    fn help() -> (r: &'static str)
        ensures
            r@ == KILL_HELP@,
    {
        KILL_HELP
    }

    fn usage() -> (r: String)
        ensures
            r@ == first_line(KILL_HELP@),
    {
        first_line_of(KILL_HELP)
    }
}

/// What `kill` is asked to signal.
#[derive(Debug, PartialEq, Eq, Structural)]
pub enum KillRequest {
    /// The background job with this number (`%n`).
    Job(u32),
    /// Processes named by the arguments, through the system's `kill`.
    External,
}

/// What `kill args` asks for: the usage with code 2 without arguments; for
/// `%n` the job `n`, or a failure when `n` is not a job number; any other
/// first argument goes to the system's `kill`.
pub fn kill_request(args: &[String]) -> (r: Result<KillRequest, Error>)
    ensures
        args@.len() == 0 ==> (r matches Err(e) && e.kind matches ErrorKind::BuiltinCommand {
            message,
            code,
        } && message@ == first_line(KILL_HELP@) && code == 2),
        args@.len() > 0 && args@[0]@.len() > 0 && args@[0]@[0] == '%' ==> match parse_int(
            args@[0]@.drop_first(),
            false,
            0,
            u32::MAX as int,
        ) {
            Some(n) => r == Ok::<KillRequest, Error>(KillRequest::Job(n as u32)),
            None => r matches Err(e) && e.kind matches ErrorKind::BuiltinCommand { message, code }
                && message@ == "kill: "@ + args@[0]@ + ": arguments must be job IDs"@ && code
                == 1,
        },
        args@.len() > 0 && !(args@[0]@.len() > 0 && args@[0]@[0] == '%') ==> r
            == Ok::<KillRequest, Error>(KillRequest::External),
{
    if args.len() == 0 {
        let usage = Kill::usage();
        return Err(Error::builtin_command(usage.as_str(), 2));
    }
    let chars = chars_of(args[0].as_str());
    if chars.len() > 0 && chars[0] == '%' {
        let rest = string_of(copy_range(&chars, 1, chars.len()).as_slice());
        assert(rest@ =~= args@[0]@.drop_first());
        match parse_u32(rest.as_str()) {
            Some(n) => Ok(KillRequest::Job(n)),
            None => {
                let mut m = crate::errors::concat("kill: ", args[0].as_str());
                m.append(": arguments must be job IDs");
                Err(Error::builtin_command(m.as_str(), 1))
            },
        }
    } else {
        Ok(KillRequest::External)
    }
}

/// What `kill %n` reports once the shell tried to kill job `n`: the line
/// `[n]+\tTerminated: 15\t<input>` when the job (with command line
/// `input`) was killed, else a failure saying there is no such job.
pub fn kill_report(arg: &str, n: u32, killed: Option<String>) -> (r: Result<String, Error>)
    ensures
        match killed {
            Some(input) => r matches Ok(out) && out@ == seq!['['] + decimal(n as nat)
                + "]+\tTerminated: 15\t"@ + input@ + seq!['\n'],
            None => r matches Err(e) && e.kind matches ErrorKind::BuiltinCommand { message, code }
                && message@ == "kill: "@ + arg@ + ": no such job"@ && code == 1,
        },
{
    match killed {
        Some(input) => {
            let mut out = String::new();
            crate::text::push_char(&mut out, '[');
            out.append(u64_to_string(n as u64).as_str());
            out.append("]+\tTerminated: 15\t");
            out.append(input.as_str());
            crate::text::push_char(&mut out, '\n');
            Ok(out)
        },
        None => {
            let mut m = crate::errors::concat("kill: ", arg);
            m.append(": no such job");
            Err(Error::builtin_command(m.as_str(), 1))
        },
    }
}

} // verus!
