use bsh::editor::Editor;
use bsh::execute_command::{
    connection_group, connection_plan, output_target, process_group_for, runs_second,
    stdin_source, InputSource, OutputTarget,
};
use bsh::lang::intermediate_representation::Stdio;
use bsh::lang::parser::ast::Connector;
use bsh::shell::{exit_code, exit_code_like_u8, prepare_command_line, prompt_text, LinePlan, ShellConfig};
use bsh::util::{BshExitStatusExt, ExitStatus};

#[test]
fn configs() {
    let c = ShellConfig::interactive(50);
    assert!(c.enable_command_history && c.enable_job_control && c.display_messages);
    assert_eq!(c.command_history_capacity, 50);
    let c = ShellConfig::noninteractive();
    assert!(!c.enable_command_history && !c.enable_job_control && !c.display_messages);
    assert_eq!(c.command_history_capacity, 0);
}

#[test]
fn exit_codes_are_bytes() {
    assert_eq!(exit_code_like_u8(85), 85);
    assert_eq!(exit_code_like_u8(500), 244);
    assert_eq!(exit_code_like_u8(-12), 244);
    assert_eq!(exit_code_like_u8(-500) & 0xff, 12);
    assert_eq!(exit_code(Some(ExitStatus::from_status(500)), ExitStatus::from_success()), 244);
    assert_eq!(exit_code(Some(ExitStatus::from_status(-500)), ExitStatus::from_success()), 12);
    assert_eq!(exit_code(None, ExitStatus::from_status(3)), 3);
}

#[test]
fn prompt() {
    assert_eq!(prompt_text(0, "~/src"), "0|~/src\n$ ");
    assert_eq!(prompt_text(-1, "/"), "-1|/\n$ ");
}

#[test]
fn command_lines() {
    let config = ShellConfig::interactive(10);
    let mut editor = Editor::with_capacity(10);
    assert!(matches!(
        prepare_command_line(&mut editor, &config, "", None, vec![]),
        Ok(LinePlan::Skip)
    ));
    match prepare_command_line(&mut editor, &config, ";", None, vec![]) {
        Ok(LinePlan::SyntaxError { message, status }) => {
            assert_eq!(message, "bsh: syntax error near: ;");
            assert_eq!(status.code(), Some(2));
        }
        _ => panic!("expected a syntax error"),
    }
    assert_eq!(editor.history_count, 1);
    let vars = vec![("X".to_string(), "v".to_string())];
    match prepare_command_line(&mut editor, &config, "echo $X &", Some("/h".to_string()), vars) {
        Ok(LinePlan::Run(group)) => {
            assert!(group.background);
            assert_eq!(group.input, "echo $X &");
            match group.command {
                bsh::lang::intermediate_representation::Command::Simple(s) => {
                    assert_eq!(s.program, "echo");
                    assert_eq!(s.args, vec!["v".to_string()]);
                }
                _ => panic!("expected a simple command"),
            }
        }
        _ => panic!("expected a command to run"),
    }
    assert_eq!(editor.history_count, 2);
    let err = prepare_command_line(&mut editor, &config, "!nothing", None, vec![]).err().unwrap();
    assert_eq!(err.message(), "!nothing: event not found");
    assert_eq!(editor.history_count, 2);
}

#[test]
fn streams_and_connections() {
    assert_eq!(stdin_source(&Stdio::FileDescriptor(0), true), InputSource::Inherit);
    assert_eq!(stdin_source(&Stdio::FileDescriptor(3), true), InputSource::Descriptor(3));
    assert_eq!(stdin_source(&Stdio::Filename("f".into()), true), InputSource::File("f".into()));
    assert_eq!(stdin_source(&Stdio::Inherit, true), InputSource::Passed);
    assert_eq!(stdin_source(&Stdio::Inherit, false), InputSource::Inherit);
    assert_eq!(output_target(&Stdio::FileDescriptor(1), true), OutputTarget::Descriptor(1));
    assert_eq!(output_target(&Stdio::Filename("o".into()), true), OutputTarget::File("o".into()));
    assert_eq!(output_target(&Stdio::Inherit, true), OutputTarget::Passed);
    assert_eq!(output_target(&Stdio::Inherit, false), OutputTarget::Inherit);
    let pipe = connection_plan(Connector::Pipe);
    assert!(pipe.pipe_first_output && pipe.second_reads_first && !pipe.wait_for_first);
    let and = connection_plan(Connector::And);
    assert!(and.wait_for_first && !and.pipe_first_output && !and.second_joins_group);
    assert!(runs_second(Connector::And, true) && !runs_second(Connector::And, false));
    assert!(!runs_second(Connector::Or, true) && runs_second(Connector::Or, false));
    assert!(runs_second(Connector::Semicolon, false) && runs_second(Connector::Pipe, false));
    assert_eq!(connection_group(Connector::And, false, Some(4)), None);
    assert_eq!(connection_group(Connector::Pipe, false, Some(4)), Some(4));
    assert_eq!(process_group_for(None, 77), 77);
    assert_eq!(process_group_for(Some(5), 77), 5);
}

#[test]
fn history_event_is_what_runs() {
    let config = ShellConfig::interactive(10);
    let mut editor = Editor::with_capacity(10);
    editor.add_history_entry("echo hi");
    match prepare_command_line(&mut editor, &config, "!1", None, vec![]) {
        Ok(LinePlan::Run(group)) => {
            assert_eq!(group.input, "echo hi");
            match group.command {
                bsh::lang::intermediate_representation::Command::Simple(s) => {
                    assert_eq!(s.program, "echo");
                    assert_eq!(s.args, vec!["hi".to_string()]);
                }
                _ => panic!("expected a simple command"),
            }
        }
        _ => panic!("expected a command to run"),
    }
    assert_eq!(editor.get_history_entry(1).map(String::as_str), Some("!1"));
}
