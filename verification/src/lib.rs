//! Bsh: the verified core of a small Unix shell.

pub mod builtins;
pub mod editor;
pub mod errors;
pub mod execute_command;
pub mod history;
pub mod job;
pub mod job_control;
pub mod jobs;
pub mod lang;
pub mod num;
pub mod parse;
pub mod shell;
pub mod text;
pub mod util;
