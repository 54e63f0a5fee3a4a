//! The syntax tree of a command line.

pub mod visit;

use vstd::prelude::*;

use crate::text::{copy_string, copy_strings, views};

verus! {

/// Where a redirection reads or writes: an open file descriptor or a file.
#[derive(Clone, Debug, PartialEq)]
pub enum Redirectee {
    FileDescriptor(i32),
    Filename(String),
}

/// The direction of a redirection.
#[derive(Copy, Clone, Debug, PartialEq, Eq, Structural)]
pub enum RedirectInstruction {
    Output,
    Input,
}

/// A redirection such as `2>err`, `<in` or `1>&2`.
#[derive(Clone, Debug, PartialEq)]
pub struct Redirect {
    pub redirector: Option<Redirectee>,
    pub instruction: RedirectInstruction,
    pub redirectee: Redirectee,
}

/// How two commands are joined.
#[derive(Copy, Clone, Debug, PartialEq, Eq, Structural)]
pub enum Connector {
    Pipe,
    Semicolon,
    And,
    Or,
}

/// A command line: a simple command, or two commands joined by a connector.
#[derive(Debug, PartialEq)]
pub enum Command {
    Simple { words: Vec<String>, redirects: Vec<Redirect>, background: bool },
    Connection { first: Box<Command>, second: Box<Command>, connector: Connector },
}

/// Mathematical form of a `Redirectee`.
pub enum SpecRedirectee {
    FileDescriptor(i32),
    Filename(Seq<char>),
}

/// Mathematical form of a `Redirect`.
pub struct SpecRedirect {
    pub redirector: Option<SpecRedirectee>,
    pub instruction: RedirectInstruction,
    pub redirectee: SpecRedirectee,
}

/// Mathematical form of a `Command`.
pub enum SpecCommand {
    Simple { words: Seq<Seq<char>>, redirects: Seq<SpecRedirect>, background: bool },
    Connection { first: Box<SpecCommand>, second: Box<SpecCommand>, connector: Connector },
}

impl View for Redirectee {
    type V = SpecRedirectee;

    open spec fn view(&self) -> SpecRedirectee {
        match self {
            Redirectee::FileDescriptor(fd) => SpecRedirectee::FileDescriptor(*fd),
            Redirectee::Filename(name) => SpecRedirectee::Filename(name@),
        }
    }
}

/// The view of an optional redirectee.
pub open spec fn opt_redirectee_view(r: Option<Redirectee>) -> Option<SpecRedirectee> {
    match r {
        Some(x) => Some(x@),
        None => None,
    }
}

impl View for Redirect {
    type V = SpecRedirect;

    open spec fn view(&self) -> SpecRedirect {
        SpecRedirect {
            redirector: opt_redirectee_view(self.redirector),
            instruction: self.instruction,
            redirectee: self.redirectee@,
        }
    }
}

/// The view of each redirect of a sequence.
pub open spec fn redirect_views(v: Seq<Redirect>) -> Seq<SpecRedirect> {
    v.map_values(|r: Redirect| r@)
}

/// The mathematical form of a command.
pub open spec fn command_view(c: Command) -> SpecCommand
    decreases c,
{
    match c {
        Command::Simple { words, redirects, background } => SpecCommand::Simple {
            words: views(words@),
            redirects: redirect_views(redirects@),
            background,
        },
        Command::Connection { first, second, connector } => SpecCommand::Connection {
            first: Box::new(command_view(*first)),
            second: Box::new(command_view(*second)),
            connector,
        },
    }
}

/// The number of simple commands and connectors in `c`.
pub open spec fn command_size(c: SpecCommand) -> nat
    decreases c,
{
    match c {
        SpecCommand::Simple { .. } => 1,
        SpecCommand::Connection { first, second, .. } => 1 + command_size(*first) + command_size(
            *second,
        ),
    }
}

impl View for Command {
    type V = SpecCommand;

    open spec fn view(&self) -> SpecCommand {
        command_view(*self)
    }
}

/// A copy of `r`.
pub fn copy_redirectee(r: &Redirectee) -> (c: Redirectee)
    ensures
        c@ == r@,
{
    match r {
        Redirectee::FileDescriptor(fd) => Redirectee::FileDescriptor(*fd),
        Redirectee::Filename(name) => Redirectee::Filename(copy_string(name)),
    }
}

/// A copy of `r`.
pub fn copy_redirect(r: &Redirect) -> (c: Redirect)
    ensures
        c@ == r@,
{
    let redirector = match &r.redirector {
        Some(x) => Some(copy_redirectee(x)),
        None => None,
    };
    Redirect { redirector, instruction: r.instruction, redirectee: copy_redirectee(&r.redirectee) }
}

/// A copy of a vector of redirects.
pub fn copy_redirects(v: &Vec<Redirect>) -> (c: Vec<Redirect>)
    ensures
        redirect_views(c@) == redirect_views(v@),
{
    let mut c: Vec<Redirect> = Vec::new();
    for i in 0..v.len()
        invariant
            c@.len() == i,
            redirect_views(c@) == redirect_views(v@).take(i as int),
    {
        let ghost before = c@;
        let r = copy_redirect(&v[i]);
        c.push(r);
        assert forall|j: int| 0 <= j <= i implies redirect_views(c@)[j] == redirect_views(
            v@,
        )[j] by {
            if j < i {
                assert(redirect_views(before)[j] == redirect_views(v@).take(i as int)[j]);
            }
        }
        assert(redirect_views(c@) =~= redirect_views(v@).take(i + 1));
    }
    assert(redirect_views(v@).take(v@.len() as int) == redirect_views(v@));
    c
}

/// One part of a simple command: a word or a redirection.
#[derive(Debug)]
pub enum SimpleCommandPart {
    Word(String),
    Redirect(Redirect),
}

/// Collects the parts of a simple command in the order they appear.
#[derive(Debug, Default)]
pub struct SimpleCommandBuilder {
    pub words: Vec<String>,
    pub redirects: Vec<Redirect>,
    pub background: bool,
}

impl SimpleCommandBuilder {
    /// A builder with no parts yet.
    pub fn new(background: bool) -> (b: SimpleCommandBuilder)
        ensures
            b.words@.len() == 0,
            b.redirects@.len() == 0,
            b.background == background,
    {
        SimpleCommandBuilder { words: Vec::new(), redirects: Vec::new(), background }
    }

    /// Appends a part: a word to the words, a redirection to the redirections.
    pub fn update(self, command_part: SimpleCommandPart) -> (b: SimpleCommandBuilder)
        ensures
            b.background == self.background,
            match command_part {
                SimpleCommandPart::Word(w) => {
                    &&& views(b.words@) == views(self.words@).push(w@)
                    &&& redirect_views(b.redirects@) == redirect_views(self.redirects@)
                },
                SimpleCommandPart::Redirect(r) => {
                    &&& views(b.words@) == views(self.words@)
                    &&& redirect_views(b.redirects@) == redirect_views(self.redirects@).push(r@)
                },
            },
    {
        let mut b = self;
        match command_part {
            SimpleCommandPart::Word(w) => {
                b.words.push(w);
                assert(views(b.words@) =~= views(self.words@).push(w@));
            },
            SimpleCommandPart::Redirect(r) => {
                b.redirects.push(r);
                assert(redirect_views(b.redirects@) =~= redirect_views(self.redirects@).push(r@));
            },
        }
        b
    }

    /// The simple command made of the collected parts.
    pub fn build(&self) -> (c: Command)
        ensures
            c@ == (SpecCommand::Simple {
                words: views(self.words@),
                redirects: redirect_views(self.redirects@),
                background: self.background,
            }),
    {
        Command::Simple {
            words: copy_strings(&self.words),
            redirects: copy_redirects(&self.redirects),
            background: self.background,
        }
    }
}

} // verus!
