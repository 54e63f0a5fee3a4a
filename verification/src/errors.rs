//! The errors of the shell.

use vstd::prelude::*;
use vstd::string::StringExecFns;

use crate::text::copy_string;

verus! {

/// What went wrong.
#[derive(Clone, Debug, PartialEq, Eq)]
pub enum ErrorKind {
    /// The command line does not parse; holds the line.
    Syntax(String),
    /// A builtin command failed with a message and an exit code.
    BuiltinCommand { message: String, code: i32 },
    /// No program of this name was found.
    CommandNotFound(String),
    HistoryFileNotFound,
    /// No job matches the given job specification.
    NoSuchJob(String),
    NoJobControl,
    NotSupported(String),
    Docopt,
    Io,
    Nix,
    Readline,
}

/// An error of the shell.
#[derive(Debug)]
pub struct Error {
    pub kind: ErrorKind,
}

/// The text that describes an error of kind `k`.
pub open spec fn kind_message(k: ErrorKind) -> Seq<char> {
    match k {
        ErrorKind::Syntax(line) => "syntax error: '"@ + line@ + "'"@,
        ErrorKind::BuiltinCommand { message, .. } => message@,
        ErrorKind::CommandNotFound(line) => line@ + ": command not found"@,
        ErrorKind::HistoryFileNotFound => "history file not found"@,
        ErrorKind::NoSuchJob(job) => job@ + ": no such job"@,
        ErrorKind::NoJobControl => "no job control"@,
        ErrorKind::NotSupported(message) => message@,
        ErrorKind::Docopt => "Docopt error occurred"@,
        ErrorKind::Io => "I/O error occurred"@,
        ErrorKind::Nix => " Nix error occurred"@,
        ErrorKind::Readline => "Readline error occurred"@,
    }
}

/// `a` followed by `b`.
pub fn concat(a: &str, b: &str) -> (s: String)
    ensures
        s@ == a@ + b@,
{
    let mut s = a.to_owned();
    s.append(b);
    s
}

impl ErrorKind {
    /// The text that describes this kind of error.
    pub fn message(&self) -> (m: String)
        ensures
            m@ == kind_message(*self),
    {
        match self {
            ErrorKind::Syntax(line) => {
                let mut m = concat("syntax error: '", line.as_str());
                m.append("'");
                m
            },
            ErrorKind::BuiltinCommand { message, .. } => copy_string(message),
            ErrorKind::CommandNotFound(line) => concat(line.as_str(), ": command not found"),
            ErrorKind::HistoryFileNotFound => "history file not found".to_owned(),
            ErrorKind::NoSuchJob(job) => concat(job.as_str(), ": no such job"),
            ErrorKind::NoJobControl => "no job control".to_owned(),
            ErrorKind::NotSupported(message) => copy_string(message),
            ErrorKind::Docopt => "Docopt error occurred".to_owned(),
            ErrorKind::Io => "I/O error occurred".to_owned(),
            ErrorKind::Nix => " Nix error occurred".to_owned(),
            ErrorKind::Readline => "Readline error occurred".to_owned(),
        }
    }
}

impl Error {
    /// An error of kind `kind`.
    pub fn from_kind(kind: ErrorKind) -> (e: Error)
        ensures
            e.kind == kind,
    {
        Error { kind }
    }

    /// The kind of this error.
    pub fn kind(&self) -> (k: &ErrorKind)
        ensures
            *k == self.kind,
    {
        &self.kind
    }

    /// The text that describes this error.
    pub fn message(&self) -> (m: String)
        ensures
            m@ == kind_message(self.kind),
    {
        self.kind.message()
    }

    /// A syntax error on the command line `line`.
    pub fn syntax(line: &str) -> (e: Error)
        ensures
            e.kind matches ErrorKind::Syntax(l) && l@ == line@,
    {
        Error { kind: ErrorKind::Syntax(line.to_owned()) }
    }

    /// A failure of a builtin command, with its message and exit code.
    pub fn builtin_command(message: &str, code: i32) -> (e: Error)
        ensures
            e.kind matches ErrorKind::BuiltinCommand { message: m, code: c } && m@ == message@
                && c == code,
    {
        Error { kind: ErrorKind::BuiltinCommand { message: message.to_owned(), code } }
    }

    /// No program named `command` was found.
    pub fn command_not_found(command: &str) -> (e: Error)
        ensures
            e.kind matches ErrorKind::CommandNotFound(c) && c@ == command@,
    {
        Error { kind: ErrorKind::CommandNotFound(command.to_owned()) }
    }

    /// No job matches `job`.
    pub fn no_such_job(job: &str) -> (e: Error)
        ensures
            e.kind matches ErrorKind::NoSuchJob(j) && j@ == job@,
    {
        Error { kind: ErrorKind::NoSuchJob(job.to_owned()) }
    }

    /// Job control is not available.
    pub fn no_job_control() -> (e: Error)
        ensures
            e.kind == ErrorKind::NoJobControl,
    {
        Error { kind: ErrorKind::NoJobControl }
    }

    /// The operation is not supported here.
    pub fn not_supported(message: &str) -> (e: Error)
        ensures
            e.kind matches ErrorKind::NotSupported(m) && m@ == message@,
    {
        Error { kind: ErrorKind::NotSupported(message.to_owned()) }
    }
}

} // verus!
