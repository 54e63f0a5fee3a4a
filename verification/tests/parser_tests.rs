use bsh::lang::parser::ast::{Command, Connector, Redirect, RedirectInstruction, Redirectee};
use bsh::lang::parser::Command as ParsedCommand;

fn parse(input: &str) -> Result<Command, bsh::errors::Error> {
    ParsedCommand::parse(input).map(|c| c.inner)
}

fn simple_command(words: &[&str]) -> Command {
    Command::Simple {
        words: words.iter().map(|s| s.to_string()).collect(),
        redirects: vec![],
        background: false,
    }
}

fn input_redirection(filename: &str) -> Redirect {
    Redirect {
        redirector: None,
        instruction: RedirectInstruction::Input,
        redirectee: Redirectee::Filename(filename.into()),
    }
}

fn output_filename_redirection(filename: &str) -> Redirect {
    Redirect {
        redirector: None,
        instruction: RedirectInstruction::Output,
        redirectee: Redirectee::Filename(filename.into()),
    }
}

fn output_fd_redirection(fd: i32) -> Redirect {
    Redirect {
        redirector: None,
        instruction: RedirectInstruction::Output,
        redirectee: Redirectee::FileDescriptor(fd),
    }
}

fn fd_to_file_redirection(fd: i32, filename: &str) -> Redirect {
    Redirect {
        redirector: Some(Redirectee::FileDescriptor(fd)),
        instruction: RedirectInstruction::Output,
        redirectee: Redirectee::Filename(filename.into()),
    }
}

fn fd_to_fd_redirection(input_fd: i32, instruction: RedirectInstruction, output_fd: i32) -> Redirect {
    Redirect {
        redirector: Some(Redirectee::FileDescriptor(input_fd)),
        instruction,
        redirectee: Redirectee::FileDescriptor(output_fd),
    }
}

#[test]
fn ast_test_simple_command() {
    assert!(parse("").is_err());
    assert_eq!(
        parse("echo bob").expect("'echo bob' should be valid"),
        simple_command(&["echo", "bob"])
    );
    assert_eq!(
        parse("ls ~/1code").expect("'ls ~/1code' should be valid"),
        simple_command(&["ls", "~/1code"])
    );
    assert_eq!(
        parse("echo 5").expect("'echo 5' should be valid"),
        simple_command(&["echo", "5"])
    );
}

#[test]
fn ast_test_input_redirection() {
    assert_eq!(
        parse("echo bob <in").expect("'echo bob <in' should be valid"),
        Command::Simple {
            words: vec!["echo".into(), "bob".into()],
            redirects: vec![input_redirection("in")],
            background: false,
        }
    );
    assert_eq!(
        parse("echo bob < in").expect("'echo bob < in' should be valid"),
        Command::Simple {
            words: vec!["echo".into(), "bob".into()],
            redirects: vec![input_redirection("in")],
            background: false,
        }
    );
    assert!(parse("<").is_err());
    assert!(parse("echo <").is_err());
}

#[test]
fn ast_test_output_redirection() {
    assert_eq!(
        parse("echo bob >out").expect("'echo bob >out' should be valid"),
        Command::Simple {
            words: vec!["echo".into(), "bob".into()],
            redirects: vec![output_filename_redirection("out")],
            background: false,
        }
    );
    assert_eq!(
        parse("echo bob > out").expect("'echo bob > out' should be valid"),
        Command::Simple {
            words: vec!["echo".into(), "bob".into()],
            redirects: vec![output_filename_redirection("out")],
            background: false,
        }
    );
    assert_eq!(
        parse("echo bob 1>out").expect("'echo bob 1>out' should be valid"),
        Command::Simple {
            words: vec!["echo".into(), "bob".into()],
            redirects: vec![fd_to_file_redirection(1, "out")],
            background: false,
        }
    );
    assert_eq!(
        parse("echo bob 1> out").expect("'echo bob 1>out' should be valid"),
        Command::Simple {
            words: vec!["echo".into(), "bob".into()],
            redirects: vec![fd_to_file_redirection(1, "out")],
            background: false,
        }
    );
    assert!(parse(">").is_err());
    assert!(parse("echo >").is_err());
}

#[test]
fn test_fd_duplication() {
    assert_eq!(
        parse("echo bob 1>&2").expect("'echo bob 1>&2' should be valid"),
        Command::Simple {
            words: vec!["echo".into(), "bob".into()],
            redirects: vec![fd_to_fd_redirection(1, RedirectInstruction::Output, 2)],
            background: false,
        }
    );
    assert_eq!(
        parse("echo bob 2<&1").expect("'echo bob 2>&1' should be valid"),
        Command::Simple {
            words: vec!["echo".into(), "bob".into()],
            redirects: vec![fd_to_fd_redirection(2, RedirectInstruction::Input, 1)],
            background: false,
        }
    );
}

#[test]
fn ast_test_multiple_unique_redirection() {
    assert_eq!(
        parse(">out echo <in bob").expect("'>out echo <in bob' should be valid"),
        Command::Simple {
            words: vec!["echo".into(), "bob".into()],
            redirects: vec![output_filename_redirection("out"), input_redirection("in")],
            background: false,
        }
    );
    assert_eq!(
        parse("2>errfile >&2 echo needle").expect("'2>errfile >&2 echo needle' should be valid"),
        Command::Simple {
            words: vec!["echo".into(), "needle".into()],
            redirects: vec![fd_to_file_redirection(2, "errfile"), output_fd_redirection(2)],
            background: false,
        }
    );
}

#[test]
fn ast_test_multiple_same_redirects() {
    assert_eq!(
        parse("<in1 <in2").expect("'<in1 <in2' should be valid"),
        Command::Simple {
            words: vec![],
            redirects: vec![input_redirection("in1"), input_redirection("in2")],
            background: false,
        }
    );
    assert_eq!(
        parse(">out1 >out2").expect("'>out1 >out2' should be valid"),
        Command::Simple {
            words: vec![],
            redirects: vec![
                output_filename_redirection("out1"),
                output_filename_redirection("out2"),
            ],
            background: false,
        }
    );
}

#[test]
fn ast_test_connection_command() {
    assert_eq!(
        parse("cmd1 | cmd2").expect("'cmd1 | cmd2' should be valid"),
        Command::Connection {
            first: Box::new(simple_command(&["cmd1"])),
            second: Box::new(simple_command(&["cmd2"])),
            connector: Connector::Pipe,
        }
    );
    assert_eq!(
        parse("cmd1 ; cmd2").expect("'cmd1 ; cmd2' should be valid"),
        Command::Connection {
            first: Box::new(simple_command(&["cmd1"])),
            second: Box::new(simple_command(&["cmd2"])),
            connector: Connector::Semicolon,
        }
    );
    assert_eq!(
        parse("<in cmd1 | cmd2 >out").expect("'<in cmd1 | cmd2 >out' should be valid"),
        Command::Connection {
            first: Box::new(Command::Simple {
                words: vec!["cmd1".into()],
                redirects: vec![input_redirection("in")],
                background: false,
            }),
            second: Box::new(Command::Simple {
                words: vec!["cmd2".into()],
                redirects: vec![output_filename_redirection("out")],
                background: false,
            }),
            connector: Connector::Pipe,
        }
    );
    assert_eq!(
        parse("cmd1 && cmd2").expect("'cmd1 && cmd2' should be valid"),
        Command::Connection {
            first: Box::new(Command::Simple {
                words: vec!["cmd1".into()],
                redirects: vec![],
                background: false,
            }),
            second: Box::new(Command::Simple {
                words: vec!["cmd2".into()],
                redirects: vec![],
                background: false,
            }),
            connector: Connector::And
        }
    );
    assert_eq!(
        parse("cmd1 || cmd2").expect("'cmd1 || cmd2' should be valid"),
        Command::Connection {
            first: Box::new(Command::Simple {
                words: vec!["cmd1".into()],
                redirects: vec![],
                background: false,
            }),
            second: Box::new(Command::Simple {
                words: vec!["cmd2".into()],
                redirects: vec![],
                background: false,
            }),
            connector: Connector::Or
        }
    );
}

#[test]
fn ast_test_long_connection_command() {
    assert_eq!(
        parse("cmd1 | cmd2 | cmd3").expect("'cmd1 | cmd2 | cmd3' should be valid"),
        Command::Connection {
            first: Box::new(simple_command(&["cmd1"])),
            second: Box::new(Command::Connection {
                first: Box::new(simple_command(&["cmd2"])),
                second: Box::new(simple_command(&["cmd3"])),
                connector: Connector::Pipe,
            }),
            connector: Connector::Pipe,
        }
    );
    assert_eq!(
        parse("cmd1 | cmd2 ; cmd3").expect("'cmd1 | cmd2 ; cmd3' should be valid"),
        Command::Connection {
            first: Box::new(simple_command(&["cmd1"])),
            second: Box::new(Command::Connection {
                first: Box::new(simple_command(&["cmd2"])),
                second: Box::new(simple_command(&["cmd3"])),
                connector: Connector::Semicolon,
            }),
            connector: Connector::Pipe,
        }
    );
}

#[test]
fn ast_test_job_background() {
    assert_eq!(
        parse("cmd &").unwrap(),
        Command::Simple {
            words: vec!["cmd".into()],
            redirects: vec![],
            background: true,
        }
    );
    assert_eq!(
        parse("cmd1 & | cmd2").unwrap(),
        Command::Connection {
            first: Box::new(Command::Simple {
                words: vec!["cmd1".into()],
                redirects: vec![],
                background: true,
            }),
            second: Box::new(simple_command(&["cmd2"])),
            connector: Connector::Pipe,
        }
    );
    assert!(parse("&").is_err());
}

#[test]
fn ast_test_quotes() {
    assert_eq!(
        parse(">'out' 'echo' <in 'arg'").expect(">''out' 'echo' <in 'arg' should be valid"),
        Command::Simple {
            words: vec!["echo".into(), "arg".into()],
            redirects: vec![output_filename_redirection("out"), input_redirection("in")],
            background: false,
        }
    );
    assert_eq!(
        parse(">'out 1' echo 'arg arg arg'").expect("'>'out 1' echo 'arg arg arg'' should be valid"),
        Command::Simple {
            words: vec!["echo".into(), "arg arg arg".into()],
            redirects: vec![output_filename_redirection("out 1")],
            background: false,
        }
    );
    assert_eq!(
        parse(r#">"out" "echo" <in "arg""#).expect(r#"'>"out" "echo" <in "arg"' should ve valid"#),
        Command::Simple {
            words: vec!["echo".into(), "arg".into()],
            redirects: vec![output_filename_redirection("out"), input_redirection("in")],
            background: false,
        }
    );
    assert!(parse("echo 'arg").is_err());
    assert!(parse(r#"echo "arg"#).is_err());
}

#[test]
fn ast_test_nested_quotes() {
    assert_eq!(
        parse(r#"echo '"arg"'"#).expect(r#"'echo '"arg"' should be valid"#),
        simple_command(&["echo", r#""arg""#])
    );
    assert_eq!(
        parse(r#"echo "'arg'""#).expect(r#"'echo "'arg'"' should be valid"#),
        simple_command(&["echo", "'arg'"])
    );
    assert_eq!(
        parse(r#"echo '"arg"'"#).expect(r#"'echo '"arg"'' should be valid"#),
        simple_command(&["echo", r#""arg""#])
    );
    assert_eq!(
        parse(r#"echo "arg'""#).expect(r#"'echo "arg'""' should be valid"#),
        simple_command(&["echo", r#"arg'"#])
    );
}

#[test]
fn test_quotes_allow_special_characters() {
    assert_eq!(
        parse(r#"echo '& ; echo |'"#).expect(r#"'echo '& ; echo |'' should be valid"#),
        simple_command(&["echo", r#"& ; echo |"#])
    );
}

#[test]
fn parsed_command_keeps_its_text() {
    let parsed = ParsedCommand::parse("echo a | wc").unwrap();
    assert_eq!(parsed.input, "echo a | wc");
}

#[test]
fn syntax_error_holds_the_line() {
    let err = ParsedCommand::parse(";").unwrap_err();
    assert_eq!(err.kind, bsh::errors::ErrorKind::Syntax(";".to_string()));
    assert_eq!(err.message(), "syntax error: ';'");
}

#[test]
fn blank_lines_do_not_parse() {
    assert!(parse("   ").is_err());
    assert!(parse("\t").is_err());
}

#[test]
fn dangling_connectors_do_not_parse() {
    assert!(parse("cmd1 |").is_err());
    assert!(parse("| cmd1").is_err());
    assert!(parse("cmd1 && && cmd2").is_err());
    assert!(parse("cmd1 >&").is_err());
}

#[test]
fn descriptor_input_redirection() {
    assert_eq!(
        parse("cat <&3").unwrap(),
        Command::Simple {
            words: vec!["cat".into()],
            redirects: vec![Redirect {
                redirector: None,
                instruction: RedirectInstruction::Input,
                redirectee: Redirectee::FileDescriptor(3),
            }],
            background: false,
        }
    );
}
