//! `cd`: which directory to change to.

use vstd::prelude::*;

use crate::builtins::{BuiltinCommand, CD_NAME};
use crate::errors::{Error, ErrorKind};
use crate::text::{copy_string, first_line, first_line_of, same_text};

verus! {

pub const CD_HELP: &'static str = "\
cd: cd [dir]
    Change the current directory to DIR. The variable $HOME is the default dir.
    If DIR is '-', then the current directory will be the variable $OLDPWD,
    which is the last working directory.";

/// The `cd` builtin.
pub struct Cd;

impl BuiltinCommand for Cd {
    fn name() -> (r: &'static str)
        ensures
            r@ == CD_NAME@,
    {
        CD_NAME
    }

    fn help() -> (r: &'static str)
        ensures
            r@ == CD_HELP@,
    {
        CD_HELP
    }

    fn usage() -> (r: String)
        ensures
            r@ == first_line(CD_HELP@),
    {
        first_line_of(CD_HELP)
    }
}

/// The value of an environment variable, as far as `cd` cares.
pub enum EnvValue {
    Unset,
    /// Set, but not valid Unicode.
    NotUnicode,
    Value(String),
}

/// Where `cd` goes, and whether it first prints the directory.
pub struct CdTarget {
    pub dir: String,
    pub print: bool,
}

/// The directory `cd args` changes to: the home directory without an
/// argument, `$OLDPWD` (printed) for `-`, else the argument.
pub fn cd_target(args: &[String], home: Option<String>, oldpwd: EnvValue) -> (r: Result<CdTarget, Error>)
    ensures
        args@.len() == 0 ==> match home {
            Some(h) => r matches Ok(t) && t.dir@ == h@ && !t.print,
            None => r matches Err(e) && e.kind matches ErrorKind::BuiltinCommand { message, code }
                && message@ == "cd: HOME not set"@ && code == 1,
        },
        args@.len() > 0 && args@[0]@ == "-"@ ==> match oldpwd {
            EnvValue::Value(p) => r matches Ok(t) && t.dir@ == p@ && t.print,
            EnvValue::NotUnicode => r matches Err(e) && e.kind matches ErrorKind::BuiltinCommand {
                message,
                code,
            } && message@ == "invalid Unicode"@ && code == 1,
            EnvValue::Unset => r matches Err(e) && e.kind matches ErrorKind::BuiltinCommand {
                message,
                code,
            } && message@ == "cd: OLDPWD not set"@ && code == 1,
        },
        args@.len() > 0 && args@[0]@ != "-"@ ==> (r matches Ok(t) && t.dir@ == args@[0]@
            && !t.print),
{
    if args.len() == 0 {
        match home {
            Some(h) => Ok(CdTarget { dir: h, print: false }),
            None => Err(Error::builtin_command("cd: HOME not set", 1)),
        }
    } else if same_text(args[0].as_str(), "-") {
        match oldpwd {
            EnvValue::Value(p) => Ok(CdTarget { dir: p, print: true }),
            EnvValue::NotUnicode => Err(Error::builtin_command("invalid Unicode", 1)),
            EnvValue::Unset => Err(Error::builtin_command("cd: OLDPWD not set", 1)),
        }
    } else {
        Ok(CdTarget { dir: copy_string(&args[0]), print: false })
    }
}

} // verus!
