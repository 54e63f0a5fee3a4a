//! The language of the shell: its grammar, its intermediate form and the
//! expansions applied between them.

pub mod intermediate_representation;
pub mod variable_expansion;
pub mod parser;
