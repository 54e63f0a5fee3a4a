//! Parsing of command lines into syntax trees.

pub mod ast;
pub mod grammar;
pub mod lexer;

use vstd::prelude::*;

use crate::errors::{Error, ErrorKind};
use crate::lang::parser::ast::SpecCommand;
use crate::lang::parser::grammar::{command, parse_tokens};
use crate::lang::parser::lexer::{lex, lex_input};
use crate::text::chars_of;

verus! {

/// The syntax tree of the command line `s`, or `None` if `s` is not a
/// command line.
pub open spec fn parse_spec(s: Seq<char>) -> Option<SpecCommand> {
    match lex(s) {
        Some(ts) => command(ts),
        None => None,
    }
}

/// A parsed command line together with its text.
#[derive(Debug)]
pub struct Command {
    pub input: String,
    pub inner: ast::Command,
}

impl Command {
    /// Pairs the text `input` with its syntax tree.
    pub fn new(input: &str, inner: ast::Command) -> (c: Command)
        ensures
            c.input@ == input@,
            c.inner == inner,
    {
        Command { input: input.to_owned(), inner }
    }

    /// Parses the command line `input`; a syntax error holds the line.
    pub fn parse(input: &str) -> (r: Result<Command, Error>)
        ensures
            match r {
                Ok(c) => {
                    &&& parse_spec(input@) == Some(c.inner@)
                    &&& c.input@ == input@
                },
                Err(e) => {
                    &&& parse_spec(input@) is None
                    &&& e.kind matches ErrorKind::Syntax(line) && line@ == input@
                },
            },
    {
        let chars = chars_of(input);
        match lex_input(&chars) {
            Some(tokens) => match parse_tokens(&tokens) {
                Some(inner) => Ok(Command { input: input.to_owned(), inner }),
                None => Err(Error::syntax(input)),
            },
            None => Err(Error::syntax(input)),
        }
    }
}

/// A line that holds only white space (the empty line among them) is no
/// command line: it is a syntax error.
pub proof fn lemma_blank_line_rejected(s: Seq<char>)
    requires
        forall|i: int| 0 <= i < s.len() ==> crate::text::is_space(s[i]),
    ensures
        parse_spec(s) is None,
{
    crate::lang::parser::lexer::lemma_blank_lexes_to_nothing(s);
    let ts = Seq::<crate::lang::parser::lexer::SpecToken>::empty();
    assert(crate::lang::parser::grammar::part_of(ts) is None);
    assert(crate::lang::parser::grammar::parts(ts).0.len() == 0);
}

} // verus!
