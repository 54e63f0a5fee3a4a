use bsh::parse::{ParseCommandBuilder, ParseError, ParseJob, ParseJobBuilder};

#[test]
fn empty() {
    assert!(ParseJob::parse("").unwrap().is_none());
}

#[test]
fn single_cmd() {
    let input = "cmd";
    let process = ParseCommandBuilder::new("cmd").build();
    let mut info = ParseJobBuilder::new(input);
    info.command(process);
    assert_eq!(info.build(), ParseJob::parse(input).unwrap().unwrap());
}

#[test]
fn single_cmd_with_args() {
    let input = "cmd var1 var2 var3";
    let mut process = ParseCommandBuilder::new("cmd");
    process.args(&["var1", "var2", "var3"]);
    let mut info = ParseJobBuilder::new(input);
    info.command(process.build());
    assert_eq!(info.build(), ParseJob::parse(input).unwrap().unwrap());
}

#[test]
fn single_cmd_with_arg() {
    let input = "cmd var1";
    let mut process = ParseCommandBuilder::new("cmd");
    process.arg("var1");
    let mut info = ParseJobBuilder::new(input);
    info.command(process.build());
    assert_eq!(info.build(), ParseJob::parse("cmd var1").unwrap().unwrap());
}

#[test]
fn infile_valid() {
    let input_no_space = "cmd <infile";
    let input_with_space = "cmd < infile";
    let mut infob = ParseJobBuilder::new(input_no_space);
    infob.command(ParseCommandBuilder::new("cmd").build());
    infob.infile("infile");
    let info = infob.build();
    assert_eq!(info.infile, ParseJob::parse(input_no_space).unwrap().unwrap().infile);
    assert_eq!(info.infile, ParseJob::parse(input_with_space).unwrap().unwrap().infile);
}

#[test]
fn infile_invalid() {
    assert!(ParseJob::parse("cmd <").is_err());
}

#[test]
fn outfile_valid() {
    let input_no_space = "cmd >outfile";
    let input_with_space = "cmd > outfile";
    let mut infob = ParseJobBuilder::new(input_no_space);
    infob.command(ParseCommandBuilder::new("cmd").build());
    infob.outfile("outfile");
    let info = infob.build();
    assert_eq!(info.outfile, ParseJob::parse(input_no_space).unwrap().unwrap().outfile);
    assert_eq!(info.outfile, ParseJob::parse(input_with_space).unwrap().unwrap().outfile);
}

#[test]
fn outfile_invalid() {
    assert!(ParseJob::parse("cmd >").is_err());
}

#[test]
fn doc_example_echo_test() {
    let job = ParseJob::parse("echo test").unwrap().unwrap();
    assert_eq!(job.command, "echo test");
    assert!(job.infile.is_none());
    assert!(job.outfile.is_none());
    assert!(!job.background);
    let mut expected_command = ParseCommandBuilder::new("echo");
    expected_command.arg("test");
    assert_eq!(job.commands, vec![expected_command.build()]);
}

#[test]
fn blank_line_is_empty_and_command_is_trimmed() {
    assert!(ParseJob::parse(" \t  ").unwrap().is_none());
    let job = ParseJob::parse("  cmd a  &  ").unwrap().unwrap();
    assert_eq!(job.command, "cmd a  &");
    assert!(job.background);
    assert_eq!(job.commands[0].args, vec!["a".to_string()]);
}

#[test]
fn syntax_error_message_holds_the_input() {
    match ParseJob::parse(" cmd > ") {
        Err(ParseError::SyntaxError(line)) => assert_eq!(line, " cmd > "),
        other => panic!("unexpected {:?}", other),
    }
    let err = ParseJob::parse("cmd <").unwrap_err();
    assert_eq!(err.message(), "-bsh: syntax error in line `cmd <`");
}

#[test]
fn later_files_replace_earlier_ones() {
    let job = ParseJob::parse("cmd <a <b >c > d").unwrap().unwrap();
    assert_eq!(job.infile, Some("b".to_string()));
    assert_eq!(job.outfile, Some("d".to_string()));
}
