//! How a command group is run: where each program reads and writes, how
//! the two sides of a connection are started, and which process group the
//! programs join. Starting processes and opening files are the caller's
//! part.

use vstd::prelude::*;

use crate::lang::intermediate_representation::{CommandGroup, Stdio};
use crate::lang::parser::ast::Connector;
use crate::job::{Process, ProcessId, ProcessStatus};
use crate::text::copy_string;
use crate::util::ExitStatus;

verus! {

/// Where a program reads its standard input from.
#[derive(Debug, PartialEq)]
pub enum InputSource {
    /// The shell's own standard input.
    Inherit,
    /// An open file descriptor.
    Descriptor(i32),
    /// A file, opened for reading.
    File(String),
    /// The stream handed down: the output of the previous program of a
    /// pipeline.
    Passed,
}

/// Where a program writes a standard output stream.
#[derive(Debug, PartialEq)]
pub enum OutputTarget {
    /// The shell's own stream.
    Inherit,
    /// An open file descriptor.
    Descriptor(i32),
    /// A file, created if needed and opened for writing.
    File(String),
    /// The stream handed down: a new pipe, or the output of the whole
    /// group.
    Passed,
}

/// The input source for a program whose redirection is `redirect`; a
/// redirection wins over a stream handed down, and descriptor 0 is the
/// shell's own input.
pub fn stdin_source(redirect: &Stdio, passed: bool) -> (r: InputSource)
    ensures
        match *redirect {
            Stdio::FileDescriptor(fd) => r == if fd == 0 {
                InputSource::Inherit
            } else {
                InputSource::Descriptor(fd)
            },
            Stdio::Filename(name) => r matches InputSource::File(n) && n@ == name@,
            Stdio::Inherit => r == if passed {
                InputSource::Passed
            } else {
                InputSource::Inherit
            },
        },
{
    match redirect {
        Stdio::FileDescriptor(fd) => if *fd == 0 {
            InputSource::Inherit
        } else {
            InputSource::Descriptor(*fd)
        },
        Stdio::Filename(name) => InputSource::File(copy_string(name)),
        Stdio::Inherit => if passed {
            InputSource::Passed
        } else {
            InputSource::Inherit
        },
    }
}

/// The output target for a stream whose redirection is `redirect`; a
/// redirection wins over a stream handed down.
pub fn output_target(redirect: &Stdio, passed: bool) -> (r: OutputTarget)
    ensures
        match *redirect {
            Stdio::FileDescriptor(fd) => r == OutputTarget::Descriptor(fd),
            Stdio::Filename(name) => r matches OutputTarget::File(n) && n@ == name@,
            Stdio::Inherit => r == if passed {
                OutputTarget::Passed
            } else {
                OutputTarget::Inherit
            },
        },
{
    match redirect {
        Stdio::FileDescriptor(fd) => OutputTarget::Descriptor(*fd),
        Stdio::Filename(name) => OutputTarget::File(copy_string(name)),
        Stdio::Inherit => if passed {
            OutputTarget::Passed
        } else {
            OutputTarget::Inherit
        },
    }
}

/// How the two commands of a connection are started.
#[derive(Debug, PartialEq, Eq, Structural)]
pub struct ConnectionPlan {
    /// The first command writes into a new pipe.
    pub pipe_first_output: bool,
    /// The first command gets the group's input.
    pub first_takes_input: bool,
    /// The shell waits for the first command before going on.
    pub wait_for_first: bool,
    /// The second command reads the first one's output.
    pub second_reads_first: bool,
    /// The second command joins the first one's process group.
    pub second_joins_group: bool,
}

/// How the commands of `first <connector> second` are started: a pipe
/// runs both at once in one process group, the first writing into the
/// second; the other connectors wait for the first command and start the
/// second in a new group.
pub fn connection_plan(connector: Connector) -> (p: ConnectionPlan)
    ensures
        p.first_takes_input,
        p.pipe_first_output == (connector == Connector::Pipe),
        p.second_reads_first == (connector == Connector::Pipe),
        p.second_joins_group == (connector == Connector::Pipe),
        p.wait_for_first == (connector != Connector::Pipe),
{
    match connector {
        Connector::Pipe => ConnectionPlan {
            pipe_first_output: true,
            first_takes_input: true,
            wait_for_first: false,
            second_reads_first: true,
            second_joins_group: true,
        },
        _ => ConnectionPlan {
            pipe_first_output: false,
            first_takes_input: true,
            wait_for_first: true,
            second_reads_first: false,
            second_joins_group: false,
        },
    }
}

/// Whether the second command of a connection runs, given whether the
/// first one succeeded: `&&` runs it after a success, `||` after a
/// failure, `;` and `|` always.
pub open spec fn second_runs(connector: Connector, first_succeeded: bool) -> bool {
    match connector {
        Connector::And => first_succeeded,
        Connector::Or => !first_succeeded,
        _ => true,
    }
}

/// Whether the second command of a connection runs.
pub fn runs_second(connector: Connector, first_succeeded: bool) -> (b: bool)
    ensures
        b == second_runs(connector, first_succeeded),
{
    match connector {
        Connector::And => first_succeeded,
        Connector::Or => !first_succeeded,
        _ => true,
    }
}

/// The process group of a connection once both sides are started: for a
/// pipe, the group the second side reported; otherwise the second side's
/// group when it ran, none when it did not.
pub fn connection_group(connector: Connector, second_ran: bool, second_group: Option<u32>) -> (r: Option<u32>)
    ensures
        r == if connector == Connector::Pipe || second_ran {
            second_group
        } else {
            None
        },
{
    if connector == Connector::Pipe || second_ran {
        second_group
    } else {
        None
    }
}

/// The process group a started program joins: the group of the pipeline
/// when there is one, else a new group named after the program.
pub fn process_group_for(pgid: Option<u32>, child: u32) -> (g: u32)
    ensures
        g == match pgid {
            Some(p) => p,
            None => child,
        },
{
    match pgid {
        Some(p) => p,
        None => child,
    }
}

/// Whether the programs of `group` run in the foreground.
pub fn runs_in_foreground(group: &CommandGroup) -> (b: bool)
    ensures
        b == !group.background,
{
    !group.background
}

/// What finishing a process takes.
#[derive(Debug, PartialEq, Eq, Structural)]
pub enum WaitNeed {
    /// Nothing: it completed with this status.
    Done(ExitStatus),
    /// Waiting for the process with this identifier.
    WaitFor(ProcessId),
}

/// What finishing `process` takes: a completed process is done with the
/// status it recorded; any other is waited for by its identifier.
pub fn wait_need(process: &Process) -> (r: WaitNeed)
    requires
        process.status == ProcessStatus::Completed ==> process.status_code is Some,
        process.status != ProcessStatus::Completed ==> process.id is Some,
    ensures
        r == if process.status == ProcessStatus::Completed {
            WaitNeed::Done(process.status_code.unwrap())
        } else {
            WaitNeed::WaitFor(process.id.unwrap())
        },
{
    if process.status == ProcessStatus::Completed {
        WaitNeed::Done(process.status_code.unwrap())
    } else {
        WaitNeed::WaitFor(process.id.unwrap())
    }
}

} // verus!
