//! Walking a syntax tree.

use vstd::prelude::*;

use crate::lang::parser::ast::{Command, Connector, Redirect};

verus! {

/// A pass over a syntax tree that yields a `T` for each command.
pub trait Visitor<T> {
    /// The result for a simple command with these parts.
    fn visit_simple_command(&mut self, words: &[String], redirects: &[Redirect], background: bool) -> T;

    /// The result for two commands joined by `connector`.
    fn visit_connection_command(&mut self, first: &Command, second: &Command, connector: Connector) -> T;

    /// The result for any command.
    fn visit_command(&mut self, command: &Command) -> T;
}

} // verus!
