use bsh::editor::Editor;
use bsh::errors::Error;
use bsh::execute_command::runs_second;
use bsh::lang::intermediate_representation::{Command, SimpleCommand, Stdio};
use bsh::lang::parser::ast::Connector;
use bsh::shell::{exit_code, prepare_command_line, spawn_failure, LinePlan, ShellConfig};
use bsh::util::ExitStatus;
use bsh::builtins::exit::exit_request;

fn plan(line: &str) -> LinePlan {
    let mut editor = Editor::with_capacity(0);
    prepare_command_line(&mut editor, &ShellConfig::noninteractive(), line, None, vec![]).unwrap()
}

fn command_of(line: &str) -> Command {
    match plan(line) {
        LinePlan::Run(group) => {
            assert!(!group.background);
            assert_eq!(group.input, line);
            group.command
        }
        _ => panic!("expected a command to run"),
    }
}

fn simple(c: &Command) -> &SimpleCommand {
    match c {
        Command::Simple(s) => s,
        _ => panic!("expected a simple command"),
    }
}

fn connection(c: &Command) -> (&Command, &Command, Connector) {
    match c {
        Command::Connection { first, second, connector } => (first, second, *connector),
        _ => panic!("expected a connection"),
    }
}

#[test]
fn echo_line_runs_echo() {
    let c = command_of("echo foo");
    let s = simple(&c);
    assert_eq!(s.program, "echo");
    assert_eq!(s.args, vec!["foo".to_string()]);
    assert_eq!(s.stdin, Stdio::Inherit);
    assert_eq!(s.stdout, Stdio::Inherit);
    assert_eq!(s.stderr, Stdio::Inherit);
}

#[test]
fn logical_lines_run_second_as_first_ends() {
    let c = command_of("echo 1 || echo 2");
    let (first, second, connector) = connection(&c);
    assert_eq!(connector, Connector::Or);
    assert_eq!(simple(first).args, vec!["1".to_string()]);
    assert_eq!(simple(second).args, vec!["2".to_string()]);
    assert!(!runs_second(connector, true));

    let c = command_of("echo 1 && echo 2");
    let (_, _, connector) = connection(&c);
    assert_eq!(connector, Connector::And);
    assert!(runs_second(connector, true));
}

#[test]
fn pipeline_line_pipes() {
    let c = command_of("echo needle | grep needle");
    let (first, second, connector) = connection(&c);
    assert_eq!(connector, Connector::Pipe);
    assert_eq!(simple(first).program, "echo");
    assert_eq!(simple(second).program, "grep");
    assert_eq!(simple(second).args, vec!["needle".to_string()]);
}

#[test]
fn redirect_lines_name_files() {
    let c = command_of("echo 'test needle, please ignore' >outfile; grep <outfile 'needle'");
    let (first, second, connector) = connection(&c);
    assert_eq!(connector, Connector::Semicolon);
    assert_eq!(simple(first).args, vec!["test needle, please ignore".to_string()]);
    assert_eq!(simple(first).stdout, Stdio::Filename("outfile".to_string()));
    assert_eq!(simple(second).stdin, Stdio::Filename("outfile".to_string()));
    assert_eq!(simple(second).args, vec!["needle".to_string()]);

    let c = command_of("2>errfile >&2 echo needle");
    let s = simple(&c);
    assert_eq!(s.program, "echo");
    assert_eq!(s.args, vec!["needle".to_string()]);
    assert_eq!(s.stderr, Stdio::Filename("errfile".to_string()));
    assert_eq!(s.stdout, Stdio::Filename("errfile".to_string()));
}

#[test]
fn missing_program_reported() {
    let (message, status) = spawn_failure(Error::command_not_found("foo")).unwrap();
    assert_eq!(message, "bsh: foo: command not found");
    assert_eq!(status.code(), Some(127));
}

#[test]
fn semicolon_alone_is_a_syntax_error() {
    match plan(";") {
        LinePlan::SyntaxError { message, status } => {
            assert_eq!(message, "bsh: syntax error near: ;");
            assert_eq!(status.code(), Some(2));
        }
        _ => panic!("expected a syntax error"),
    }
}

#[test]
fn exit_argument_becomes_a_byte() {
    for (arg, code) in [("85", 85), ("500", 244), ("-500", 12)] {
        let request = exit_request(false, &[arg.to_string()]).unwrap();
        assert!(request.warning.is_none());
        assert_eq!(exit_code(request.status, ExitStatus { raw: 0 }), code);
    }
}
