//! The form of a command that the executor runs: each simple command split
//! into its program and arguments, with its standard streams resolved from
//! its redirections.

use vstd::prelude::*;
use vstd::std_specs::convert::FromSpecImpl;

use crate::lang::parser;
use crate::lang::parser::ast::{
    self, Connector, Redirect, command_size, RedirectInstruction, Redirectee, SpecCommand, SpecRedirect,
    SpecRedirectee, redirect_views,
};
use crate::text::{copy_string, copy_strings, views};

verus! {

/// Where a standard stream of a program goes.
#[derive(Clone, Debug, PartialEq)]
pub enum Stdio {
    /// The stream the shell itself has.
    Inherit,
    FileDescriptor(i32),
    Filename(String),
}

impl Default for Stdio {
    fn default() -> (s: Stdio)
        ensures
            s == Stdio::Inherit,
    {
        Stdio::Inherit
    }
}

/// The stream that a redirection's target names.
pub open spec fn stdio_of_redirect(r: Redirect) -> Stdio {
    match r.redirectee {
        Redirectee::FileDescriptor(fd) => Stdio::FileDescriptor(fd),
        Redirectee::Filename(name) => Stdio::Filename(name),
    }
}

impl From<Redirect> for Stdio {
    fn from(redirect: Redirect) -> (s: Stdio) {
        match redirect.redirectee {
            Redirectee::FileDescriptor(fd) => Stdio::FileDescriptor(fd),
            Redirectee::Filename(filename) => Stdio::Filename(filename),
        }
    }
}

impl FromSpecImpl<Redirect> for Stdio {
    open spec fn obeys_from_spec() -> bool {
        true
    }

    open spec fn from_spec(v: Redirect) -> Stdio {
        stdio_of_redirect(v)
    }
}

/// Mathematical form of a `Stdio`.
pub enum SpecStdio {
    Inherit,
    FileDescriptor(i32),
    Filename(Seq<char>),
}

impl View for Stdio {
    type V = SpecStdio;

    open spec fn view(&self) -> SpecStdio {
        match self {
            Stdio::Inherit => SpecStdio::Inherit,
            Stdio::FileDescriptor(fd) => SpecStdio::FileDescriptor(*fd),
            Stdio::Filename(name) => SpecStdio::Filename(name@),
        }
    }
}

/// A program to run, with its arguments and standard streams.
#[derive(Debug, PartialEq)]
pub struct SimpleCommand {
    pub program: String,
    pub args: Vec<String>,
    pub stdin: Stdio,
    pub stdout: Stdio,
    pub stderr: Stdio,
}

/// Mathematical form of a `SimpleCommand`.
pub struct SpecSimpleCommand {
    pub program: Seq<char>,
    pub args: Seq<Seq<char>>,
    pub stdin: SpecStdio,
    pub stdout: SpecStdio,
    pub stderr: SpecStdio,
}

impl View for SimpleCommand {
    type V = SpecSimpleCommand;

    open spec fn view(&self) -> SpecSimpleCommand {
        SpecSimpleCommand {
            program: self.program@,
            args: views(self.args@),
            stdin: self.stdin@,
            stdout: self.stdout@,
            stderr: self.stderr@,
        }
    }
}

/// A command ready to run: a program, or two commands joined by a connector.
#[derive(Debug, PartialEq)]
pub enum Command {
    Simple(SimpleCommand),
    Connection { first: Box<Command>, second: Box<Command>, connector: Connector },
}

/// Mathematical form of a `Command`.
pub enum SpecIrCommand {
    Simple(SpecSimpleCommand),
    Connection { first: Box<SpecIrCommand>, second: Box<SpecIrCommand>, connector: Connector },
}

/// The mathematical form of a command ready to run.
pub open spec fn ir_view(c: Command) -> SpecIrCommand
    decreases c,
{
    match c {
        Command::Simple(s) => SpecIrCommand::Simple(s@),
        Command::Connection { first, second, connector } => SpecIrCommand::Connection {
            first: Box::new(ir_view(*first)),
            second: Box::new(ir_view(*second)),
            connector,
        },
    }
}

impl View for Command {
    type V = SpecIrCommand;

    open spec fn view(&self) -> SpecIrCommand {
        ir_view(*self)
    }
}

/// A command line ready to run, with its text and whether it runs in the
/// background.
#[derive(Debug, PartialEq)]
pub struct CommandGroup {
    pub input: String,
    pub command: Command,
    pub background: bool,
}

/// The three standard streams.
#[derive(Copy, Clone, Debug, PartialEq, Eq, Structural)]
pub enum Stream {
    Stdin,
    Stdout,
    Stderr,
}

/// Whether `r` redirects standard input: `<file` or `<&n`.
pub open spec fn redirects_stdin(r: SpecRedirect) -> bool {
    &&& r.instruction == RedirectInstruction::Input
    &&& r.redirector is None
}

/// Whether `r` redirects standard output: `>file`, `1>file`, `>&n` or
/// `1>&n`.
pub open spec fn redirects_stdout(r: SpecRedirect) -> bool {
    &&& (r.redirector is None || r.redirector == Some(SpecRedirectee::FileDescriptor(1)))
    &&& r.instruction == RedirectInstruction::Output
}

/// Whether `r` redirects standard error: `2>file` or `2>&n`.
pub open spec fn redirects_stderr(r: SpecRedirect) -> bool {
    &&& r.redirector == Some(SpecRedirectee::FileDescriptor(2))
    &&& r.instruction == RedirectInstruction::Output
}

/// Whether `r` redirects the stream `s`.
pub open spec fn redirects_stream(r: SpecRedirect, s: Stream) -> bool {
    match s {
        Stream::Stdin => redirects_stdin(r),
        Stream::Stdout => redirects_stdout(r),
        Stream::Stderr => redirects_stderr(r),
    }
}

/// The last redirection of `rs` that redirects the stream `s`.
pub open spec fn last_redirect(rs: Seq<SpecRedirect>, s: Stream) -> Option<SpecRedirect>
    decreases rs.len(),
{
    if rs.len() == 0 {
        None
    } else if redirects_stream(rs.last(), s) {
        Some(rs.last())
    } else {
        last_redirect(rs.drop_last(), s)
    }
}

/// The three standard streams of a program.
pub struct SpecStreams {
    pub stdin: SpecStdio,
    pub stdout: SpecStdio,
    pub stderr: SpecStdio,
}

/// The streams of a program without redirections: all inherited.
pub open spec fn inherited_streams() -> SpecStreams {
    SpecStreams { stdin: SpecStdio::Inherit, stdout: SpecStdio::Inherit, stderr: SpecStdio::Inherit }
}

/// The stream `s` of `st`.
pub open spec fn stream_value(st: SpecStreams, s: Stream) -> SpecStdio {
    match s {
        Stream::Stdin => st.stdin,
        Stream::Stdout => st.stdout,
        Stream::Stderr => st.stderr,
    }
}

/// What descriptor `fd` designates when the streams are `st`: the target
/// a standard stream was redirected to, else the descriptor itself.
pub open spec fn descriptor_target(st: SpecStreams, fd: i32) -> SpecStdio {
    let current = if fd == 0 {
        st.stdin
    } else if fd == 1 {
        st.stdout
    } else if fd == 2 {
        st.stderr
    } else {
        SpecStdio::Inherit
    };
    if current is Inherit {
        SpecStdio::FileDescriptor(fd)
    } else {
        current
    }
}

/// Where the redirection `r` points when the streams are `st`: its file,
/// or what its descriptor designates at that point.
pub open spec fn redirect_target(st: SpecStreams, r: SpecRedirect) -> SpecStdio {
    match r.redirectee {
        SpecRedirectee::Filename(name) => SpecStdio::Filename(name),
        SpecRedirectee::FileDescriptor(fd) => descriptor_target(st, fd),
    }
}

/// The streams after the redirection `r`.
pub open spec fn apply_redirect(st: SpecStreams, r: SpecRedirect) -> SpecStreams {
    if redirects_stdin(r) {
        SpecStreams { stdin: redirect_target(st, r), ..st }
    } else if redirects_stdout(r) {
        SpecStreams { stdout: redirect_target(st, r), ..st }
    } else if redirects_stderr(r) {
        SpecStreams { stderr: redirect_target(st, r), ..st }
    } else {
        st
    }
}

/// The streams after the redirections `rs`, taken from left to right.
pub open spec fn streams(rs: Seq<SpecRedirect>) -> SpecStreams
    decreases rs.len(),
{
    if rs.len() == 0 {
        inherited_streams()
    } else {
        apply_redirect(streams(rs.drop_last()), rs.last())
    }
}

/// The program for the words and redirections of a simple command.
pub open spec fn simple_program(words: Seq<Seq<char>>, rs: Seq<SpecRedirect>) -> SpecSimpleCommand {
    SpecSimpleCommand {
        program: words[0],
        args: words.drop_first(),
        stdin: streams(rs).stdin,
        stdout: streams(rs).stdout,
        stderr: streams(rs).stderr,
    }
}

/// The command ready to run that a syntax tree stands for.
pub open spec fn interpret(c: SpecCommand) -> SpecIrCommand
    decreases c,
{
    match c {
        SpecCommand::Simple { words, redirects, .. } => SpecIrCommand::Simple(
            simple_program(words, redirects),
        ),
        SpecCommand::Connection { first, second, connector } => SpecIrCommand::Connection {
            first: Box::new(interpret(*first)),
            second: Box::new(interpret(*second)),
            connector,
        },
    }
}

/// Whether some simple command of `c` is marked to run in the background.
pub open spec fn any_background(c: SpecCommand) -> bool
    decreases c,
{
    match c {
        SpecCommand::Simple { background, .. } => background,
        SpecCommand::Connection { first, second, .. } => any_background(*first) || any_background(
            *second,
        ),
    }
}

/// Whether every simple command of `c` has at least one word.
pub open spec fn has_programs(c: SpecCommand) -> bool
    decreases c,
{
    match c {
        SpecCommand::Simple { words, .. } => words.len() > 0,
        SpecCommand::Connection { first, second, .. } => has_programs(*first) && has_programs(
            *second,
        ),
    }
}

/// Whether `redirect` redirects standard input.
pub fn is_stdin_redirect(redirect: &Redirect) -> (b: bool)
    ensures
        b == redirects_stdin(redirect@),
{
    redirect.instruction == RedirectInstruction::Input && redirect.redirector.is_none()
}

/// Whether `redirect` redirects standard output.
pub fn is_stdout_redirect(redirect: &Redirect) -> (b: bool)
    ensures
        b == redirects_stdout(redirect@),
{
    match redirect.redirector {
        None => {},
        Some(Redirectee::FileDescriptor(1)) => {},
        _ => {
            return false;
        },
    }
    redirect.instruction == RedirectInstruction::Output
}

/// Whether `redirect` redirects standard error.
pub fn is_stderr_redirect(redirect: &Redirect) -> (b: bool)
    ensures
        b == redirects_stderr(redirect@),
{
    match redirect.redirector {
        Some(Redirectee::FileDescriptor(2)) => {},
        _ => {
            return false;
        },
    }
    redirect.instruction == RedirectInstruction::Output
}

/// The last redirection of `redirects` for the stream `s`.
fn last_redirect_for(redirects: &[Redirect], s: Stream) -> (r: Option<&Redirect>)
    ensures
        match r {
            Some(x) => last_redirect(redirect_views(redirects@), s) == Some(x@),
            None => last_redirect(redirect_views(redirects@), s) is None,
        },
{
    let ghost rv = redirect_views(redirects@);
    let mut i = redirects.len();
    assert(rv.take(i as int) =~= rv);
    while i > 0
        invariant
            i <= redirects@.len(),
            rv == redirect_views(redirects@),
            last_redirect(rv, s) == last_redirect(rv.take(i as int), s),
        decreases i,
    {
        let r = &redirects[i - 1];
        let hit = match s {
            Stream::Stdin => is_stdin_redirect(r),
            Stream::Stdout => is_stdout_redirect(r),
            Stream::Stderr => is_stderr_redirect(r),
        };
        assert(rv.take(i as int).last() == r@);
        assert(rv.take(i as int).drop_last() =~= rv.take(i - 1));
        if hit {
            return Some(r);
        }
        i = i - 1;
    }
    None
}

/// The last redirection of standard input.
pub fn get_stdin_redirect(redirects: &[Redirect]) -> (r: Option<&Redirect>)
    ensures
        match r {
            Some(x) => last_redirect(redirect_views(redirects@), Stream::Stdin) == Some(x@),
            None => last_redirect(redirect_views(redirects@), Stream::Stdin) is None,
        },
{
    last_redirect_for(redirects, Stream::Stdin)
}

/// The last redirection of standard output.
pub fn get_stdout_redirect(redirects: &[Redirect]) -> (r: Option<&Redirect>)
    ensures
        match r {
            Some(x) => last_redirect(redirect_views(redirects@), Stream::Stdout) == Some(x@),
            None => last_redirect(redirect_views(redirects@), Stream::Stdout) is None,
        },
{
    last_redirect_for(redirects, Stream::Stdout)
}

/// The last redirection of standard error.
pub fn get_stderr_redirect(redirects: &[Redirect]) -> (r: Option<&Redirect>)
    ensures
        match r {
            Some(x) => last_redirect(redirect_views(redirects@), Stream::Stderr) == Some(x@),
            None => last_redirect(redirect_views(redirects@), Stream::Stderr) is None,
        },
{
    last_redirect_for(redirects, Stream::Stderr)
}

/// A copy of `s`.
fn copy_stdio(s: &Stdio) -> (c: Stdio)
    ensures
        c@ == s@,
{
    match s {
        Stdio::Inherit => Stdio::Inherit,
        Stdio::FileDescriptor(fd) => Stdio::FileDescriptor(*fd),
        Stdio::Filename(name) => Stdio::Filename(copy_string(name)),
    }
}

/// Where `redirect` points when the streams are `stdin`, `stdout` and
/// `stderr`.
fn target_of(stdin: &Stdio, stdout: &Stdio, stderr: &Stdio, redirect: &Redirect) -> (t: Stdio)
    ensures
        t@ == redirect_target(
            SpecStreams { stdin: stdin@, stdout: stdout@, stderr: stderr@ },
            redirect@,
        ),
{
    match &redirect.redirectee {
        Redirectee::Filename(name) => Stdio::Filename(copy_string(name)),
        Redirectee::FileDescriptor(fd) => {
            let current = if *fd == 0 {
                copy_stdio(stdin)
            } else if *fd == 1 {
                copy_stdio(stdout)
            } else if *fd == 2 {
                copy_stdio(stderr)
            } else {
                Stdio::Inherit
            };
            match current {
                Stdio::Inherit => Stdio::FileDescriptor(*fd),
                other => other,
            }
        },
    }
}

/// Turns syntax trees into commands ready to run, noting whether any part
/// asked to run in the background.
#[derive(Debug)]
pub struct Interpreter {
    pub background: bool,
}

impl Interpreter {
    /// An interpreter that has seen no background marker yet.
    pub fn new() -> (i: Interpreter)
        ensures
            !i.background,
    {
        Interpreter { background: false }
    }

    /// The command ready to run for the parsed command line `input`.
    pub fn parse(input: parser::Command) -> (g: CommandGroup)
        requires
            has_programs(input.inner@),
        ensures
            g.input@ == input.input@,
            g.command@ == interpret(input.inner@),
            g.background == any_background(input.inner@),
    {
        let mut interpreter = Interpreter::new();
        let command = interpreter.visit_command(&input.inner);
        CommandGroup { input: input.input, command, background: interpreter.background }
    }

    /// The program for a simple command; notes its background marker.
    pub fn visit_simple_command(
        &mut self,
        words: &[String],
        redirects: &[Redirect],
        background: bool,
    ) -> (c: Command)
        requires
            words@.len() > 0,
        ensures
            final(self).background == (old(self).background || background),
            c@ == SpecIrCommand::Simple(simple_program(views(words@), redirect_views(redirects@))),
    {
        if !self.background && background {
            self.background = background;
        }
        let program = copy_string(&words[0]);
        let mut args: Vec<String> = Vec::new();
        let mut i: usize = 1;
        while i < words.len()
            invariant
                1 <= i <= words@.len(),
                views(args@) == views(words@).drop_first().take(i - 1),
            decreases words@.len() - i,
        {
            let ghost before = args@;
            args.push(copy_string(&words[i]));
            proof {
                assert(views(args@) =~= views(before).push(words@[i as int]@));
                assert(views(words@).drop_first().take(i as int) =~= views(words@).drop_first().take(
                    i - 1,
                ).push(words@[i as int]@));
            }
            i = i + 1;
        }
        assert(views(words@).drop_first().take(words@.len() - 1) =~= views(words@).drop_first());
        let ghost rv = redirect_views(redirects@);
        let mut stdin = Stdio::Inherit;
        let mut stdout = Stdio::Inherit;
        let mut stderr = Stdio::Inherit;
        assert(rv.take(0) =~= Seq::<SpecRedirect>::empty());
        for i in 0..redirects.len()
            invariant
                rv == redirect_views(redirects@),
                (SpecStreams { stdin: stdin@, stdout: stdout@, stderr: stderr@ }) == streams(
                    rv.take(i as int),
                ),
        {
            let r = &redirects[i];
            let target = target_of(&stdin, &stdout, &stderr, r);
            if is_stdin_redirect(r) {
                stdin = target;
            } else if is_stdout_redirect(r) {
                stdout = target;
            } else if is_stderr_redirect(r) {
                stderr = target;
            }
            assert(rv.take(i + 1).drop_last() =~= rv.take(i as int));
            assert(rv.take(i + 1).last() == r@);
        }
        assert(rv.take(redirects@.len() as int) =~= rv);
        Command::Simple(SimpleCommand { program, args, stdin, stdout, stderr })
    }

    /// The command ready to run for two joined commands.
    pub fn visit_connection_command(
        &mut self,
        first: &ast::Command,
        second: &ast::Command,
        connector: Connector,
    ) -> (c: Command)
        requires
            has_programs(first@),
            has_programs(second@),
        ensures
            final(self).background == (old(self).background || any_background(first@)
                || any_background(second@)),
            c@ == (SpecIrCommand::Connection {
                first: Box::new(interpret(first@)),
                second: Box::new(interpret(second@)),
                connector,
            }),
        decreases 2 * (command_size(first@) + command_size(second@)) + 1,
    {
        let a = self.visit_command(first);
        let b = self.visit_command(second);
        Command::Connection { first: Box::new(a), second: Box::new(b), connector }
    }

    /// The command ready to run for `command`.
    pub fn visit_command(&mut self, command: &ast::Command) -> (c: Command)
        requires
            has_programs(command@),
        ensures
            final(self).background == (old(self).background || any_background(command@)),
            c@ == interpret(command@),
        decreases 2 * command_size(command@),
    {
        match command {
            ast::Command::Simple { words, redirects, background } => self.visit_simple_command(
                words.as_slice(),
                redirects.as_slice(),
                *background,
            ),
            ast::Command::Connection { first, second, connector } => self.visit_connection_command(
                first,
                second,
                *connector,
            ),
        }
    }
}

/// A redirection redirects at most one standard stream.
pub proof fn lemma_streams_exclusive(r: SpecRedirect)
    ensures
        !(redirects_stdin(r) && redirects_stdout(r)),
        !(redirects_stdin(r) && redirects_stderr(r)),
        !(redirects_stdout(r) && redirects_stderr(r)),
{
}

/// The last redirection of a stream wins: a later redirection of the
/// stream replaces the earlier ones, and a redirection of another stream
/// leaves it as it was.
pub proof fn lemma_last_redirect_wins(rs: Seq<SpecRedirect>, r: SpecRedirect, s: Stream)
    ensures
        last_redirect(rs.push(r), s) == if redirects_stream(r, s) {
            Some(r)
        } else {
            last_redirect(rs, s)
        },
{
    assert(rs.push(r).drop_last() =~= rs);
}

/// A stream nobody redirects is inherited; a stream whose last redirection
/// names a file goes to that file, whatever came before it.
pub proof fn lemma_last_file_redirect_wins(rs: Seq<SpecRedirect>, s: Stream)
    ensures
        match last_redirect(rs, s) {
            None => stream_value(streams(rs), s) == SpecStdio::Inherit,
            Some(r) => match r.redirectee {
                SpecRedirectee::Filename(name) => stream_value(streams(rs), s)
                    == SpecStdio::Filename(name),
                SpecRedirectee::FileDescriptor(_) => true,
            },
        },
    decreases rs.len(),
{
    if rs.len() > 0 {
        let r = rs.last();
        lemma_streams_exclusive(r);
        let before = streams(rs.drop_last());
        assert(streams(rs) == apply_redirect(before, r));
        if !redirects_stream(r, s) {
            lemma_last_file_redirect_wins(rs.drop_last(), s);
            assert(last_redirect(rs, s) == last_redirect(rs.drop_last(), s));
            assert(stream_value(apply_redirect(before, r), s) == stream_value(before, s));
        } else {
            assert(stream_value(apply_redirect(before, r), s) == redirect_target(before, r));
        }
    }
}

} // verus!
