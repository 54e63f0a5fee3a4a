use bsh::lang::intermediate_representation::{
    get_stderr_redirect, get_stdin_redirect, get_stdout_redirect, is_stderr_redirect,
    is_stdin_redirect, is_stdout_redirect, Command, CommandGroup, Interpreter, SimpleCommand,
    Stdio,
};
use bsh::lang::parser::ast;
use bsh::lang::parser::Command as ParsedCommand;

struct SimpleCommandBuilder(SimpleCommand);

impl SimpleCommandBuilder {
    fn new(program: &str) -> Self {
        SimpleCommandBuilder(SimpleCommand {
            program: program.into(),
            args: vec![],
            stdin: Stdio::Inherit,
            stdout: Stdio::Inherit,
            stderr: Stdio::Inherit,
        })
    }

    fn arg(mut self, arg: &str) -> Self {
        self.0.args.push(arg.to_string());
        self
    }

    fn stdin(self, stdin: Stdio) -> Self {
        SimpleCommandBuilder(SimpleCommand { stdin, ..self.0 })
    }

    fn stdout(self, stdout: Stdio) -> Self {
        SimpleCommandBuilder(SimpleCommand { stdout, ..self.0 })
    }

    fn stderr(self, stderr: Stdio) -> Self {
        SimpleCommandBuilder(SimpleCommand { stderr, ..self.0 })
    }

    fn build(self) -> SimpleCommand {
        self.0
    }
}

fn input_redirection(filename: &str) -> ast::Redirect {
    ast::Redirect {
        redirector: None,
        instruction: ast::RedirectInstruction::Input,
        redirectee: ast::Redirectee::Filename(filename.into()),
    }
}

fn output_filename_redirection(filename: &str) -> ast::Redirect {
    ast::Redirect {
        redirector: None,
        instruction: ast::RedirectInstruction::Output,
        redirectee: ast::Redirectee::Filename(filename.into()),
    }
}

fn fd_to_file_redirection(fd: i32, filename: &str) -> ast::Redirect {
    ast::Redirect {
        redirector: Some(ast::Redirectee::FileDescriptor(fd)),
        instruction: ast::RedirectInstruction::Output,
        redirectee: ast::Redirectee::Filename(filename.into()),
    }
}

#[test]
fn intermediate_representation_test_simple_command() {
    let input = "echo test".to_string();
    assert_eq!(
        Interpreter::parse(ParsedCommand {
            input: input.clone(),
            inner: ast::Command::Simple {
                words: vec!["echo".into(), "test".into()],
                redirects: vec![],
                background: false,
            },
        }),
        CommandGroup {
            input,
            command: Command::Simple(SimpleCommandBuilder::new("echo").arg("test").build()),
            background: false,
        }
    );
}

#[test]
fn test_stdin_redirects() {
    let one_stdin_redirect_input = "echo test <in".to_string();
    assert_eq!(
        Interpreter::parse(ParsedCommand {
            input: one_stdin_redirect_input.clone(),
            inner: ast::Command::Simple {
                words: vec!["echo".into(), "test".into()],
                redirects: vec![input_redirection("in")],
                background: false,
            },
        }),
        CommandGroup {
            input: one_stdin_redirect_input,
            command: Command::Simple(
                SimpleCommandBuilder::new("echo")
                    .arg("test")
                    .stdin(Stdio::Filename("in".into()))
                    .build()
            ),
            background: false,
        }
    );

    let multiple_stdin_redirect_input = "<in1 echo test <in2".to_string();
    assert_eq!(
        Interpreter::parse(ParsedCommand {
            input: multiple_stdin_redirect_input.clone(),
            inner: ast::Command::Simple {
                words: vec!["echo".into(), "test".into()],
                redirects: vec![input_redirection("in1"), input_redirection("in2")],
                background: false,
            },
        }),
        CommandGroup {
            input: multiple_stdin_redirect_input,
            command: Command::Simple(
                SimpleCommandBuilder::new("echo")
                    .arg("test")
                    .stdin(Stdio::Filename("in2".into()))
                    .build()
            ),
            background: false,
        }
    );
}

#[test]
fn test_stdout_redirects() {
    let one_stdout_redirect_input = "echo test >out".to_string();
    assert_eq!(
        Interpreter::parse(ParsedCommand {
            input: one_stdout_redirect_input.clone(),
            inner: ast::Command::Simple {
                words: vec!["echo".into(), "test".into()],
                redirects: vec![output_filename_redirection("out")],
                background: false,
            },
        }),
        CommandGroup {
            input: one_stdout_redirect_input,
            command: Command::Simple(
                SimpleCommandBuilder::new("echo")
                    .arg("test")
                    .stdout(Stdio::Filename("out".into()))
                    .build()
            ),
            background: false,
        }
    );

    let multiple_stdout_redirect_input = "<out1 echo test <out2".to_string();
    assert_eq!(
        Interpreter::parse(ParsedCommand {
            input: multiple_stdout_redirect_input.clone(),
            inner: ast::Command::Simple {
                words: vec!["echo".into(), "test".into()],
                redirects: vec![
                    output_filename_redirection("out1"),
                    output_filename_redirection("out2")
                ],
                background: false,
            },
        }),
        CommandGroup {
            input: multiple_stdout_redirect_input,
            command: Command::Simple(
                SimpleCommandBuilder::new("echo")
                    .arg("test")
                    .stdout(Stdio::Filename("out2".into()))
                    .build()
            ),
            background: false,
        }
    );
}

#[test]
fn test_stderr_redirects() {
    let one_stderr_redirect_input = "echo test 2>err".to_string();
    assert_eq!(
        Interpreter::parse(ParsedCommand {
            input: one_stderr_redirect_input.clone(),
            inner: ast::Command::Simple {
                words: vec!["echo".into(), "test".into()],
                redirects: vec![fd_to_file_redirection(2, "err")],
                background: false,
            },
        }),
        CommandGroup {
            input: one_stderr_redirect_input,
            command: Command::Simple(
                SimpleCommandBuilder::new("echo")
                    .arg("test")
                    .stderr(Stdio::Filename("err".into()))
                    .build()
            ),
            background: false,
        }
    );

    let multiple_stderr_redirect_input = "2>err1 echo test 2>err2".to_string();
    assert_eq!(
        Interpreter::parse(ParsedCommand {
            input: multiple_stderr_redirect_input.clone(),
            inner: ast::Command::Simple {
                words: vec!["echo".into(), "test".into()],
                redirects: vec![
                    fd_to_file_redirection(2, "err1"),
                    fd_to_file_redirection(2, "err2"),
                ],
                background: false,
            },
        }),
        CommandGroup {
            input: multiple_stderr_redirect_input,
            command: Command::Simple(
                SimpleCommandBuilder::new("echo")
                    .arg("test")
                    .stderr(Stdio::Filename("err2".into()))
                    .build()
            ),
            background: false,
        }
    );
}

#[test]
fn test_connection_commands() {
    let input = "cmd1 | cmd2".to_string();
    assert_eq!(
        Interpreter::parse(ParsedCommand {
            input: input.clone(),
            inner: ast::Command::Connection {
                first: Box::new(ast::Command::Simple {
                    words: vec!["cmd1".into()],
                    redirects: vec![],
                    background: false,
                }),
                second: Box::new(ast::Command::Simple {
                    words: vec!["cmd2".into()],
                    redirects: vec![],
                    background: false,
                }),
                connector: ast::Connector::Pipe,
            },
        }),
        CommandGroup {
            input,
            command: Command::Connection {
                first: Box::new(Command::Simple(SimpleCommandBuilder::new("cmd1").build())),
                second: Box::new(Command::Simple(SimpleCommandBuilder::new("cmd2").build())),
                connector: ast::Connector::Pipe,
            },
            background: false,
        }
    );
}

#[test]
fn intermediate_representation_test_job_background() {
    let single_ampersand_input = "cmd1 &".to_string();
    assert_eq!(
        Interpreter::parse(ParsedCommand {
            input: single_ampersand_input.clone(),
            inner: ast::Command::Simple {
                words: vec!["cmd1".into()],
                redirects: vec![],
                background: true,
            },
        }),
        CommandGroup {
            input: single_ampersand_input,
            command: Command::Simple(SimpleCommandBuilder::new("cmd1").build()),
            background: true,
        }
    );
}

#[test]
fn background_anywhere_marks_the_group() {
    let parsed = ParsedCommand::parse("cmd1 | cmd2 &").unwrap();
    let group = Interpreter::parse(parsed);
    assert!(group.background);
    let parsed = ParsedCommand::parse("cmd1 & ; cmd2").unwrap();
    assert!(Interpreter::parse(parsed).background);
    let parsed = ParsedCommand::parse("cmd1 ; cmd2").unwrap();
    assert!(!Interpreter::parse(parsed).background);
}

#[test]
fn stream_predicates_are_exclusive() {
    let stdin = input_redirection("a");
    let stdout = output_filename_redirection("b");
    let stdout_fd1 = fd_to_file_redirection(1, "c");
    let stderr = fd_to_file_redirection(2, "d");
    let dup = ast::Redirect {
        redirector: Some(ast::Redirectee::FileDescriptor(2)),
        instruction: ast::RedirectInstruction::Output,
        redirectee: ast::Redirectee::FileDescriptor(1),
    };
    assert!(is_stdin_redirect(&stdin) && !is_stdout_redirect(&stdin) && !is_stderr_redirect(&stdin));
    assert!(!is_stdin_redirect(&stdout) && is_stdout_redirect(&stdout) && !is_stderr_redirect(&stdout));
    assert!(is_stdout_redirect(&stdout_fd1));
    assert!(!is_stdin_redirect(&stderr) && !is_stdout_redirect(&stderr) && is_stderr_redirect(&stderr));
    assert!(!is_stdin_redirect(&dup) && !is_stdout_redirect(&dup) && is_stderr_redirect(&dup));
}

#[test]
fn last_matching_redirect_wins() {
    let redirects = vec![
        input_redirection("in1"),
        output_filename_redirection("out1"),
        fd_to_file_redirection(2, "err1"),
        input_redirection("in2"),
        fd_to_file_redirection(1, "out2"),
    ];
    assert_eq!(get_stdin_redirect(&redirects), Some(&redirects[3]));
    assert_eq!(get_stdout_redirect(&redirects), Some(&redirects[4]));
    assert_eq!(get_stderr_redirect(&redirects), Some(&redirects[2]));
    assert_eq!(get_stdin_redirect(&[]), None);
}

#[test]
fn descriptor_redirect_becomes_descriptor_stream() {
    let r = fd_to_file_redirection(1, "x");
    assert_eq!(Stdio::from(r), Stdio::Filename("x".into()));
    let r = ast::Redirect {
        redirector: None,
        instruction: ast::RedirectInstruction::Output,
        redirectee: ast::Redirectee::FileDescriptor(2),
    };
    assert_eq!(Stdio::from(r), Stdio::FileDescriptor(2));
    assert_eq!(Stdio::default(), Stdio::Inherit);
}

fn streams_of(line: &str) -> (Stdio, Stdio, Stdio) {
    let group = Interpreter::parse(ParsedCommand::parse(line).unwrap());
    match group.command {
        Command::Simple(s) => (s.stdin, s.stdout, s.stderr),
        _ => panic!("expected a simple command"),
    }
}

#[test]
fn descriptor_redirects_take_what_the_descriptor_names() {
    let (_, stdout, stderr) = streams_of("echo x >&2");
    assert_eq!(stdout, Stdio::FileDescriptor(2));
    assert_eq!(stderr, Stdio::Inherit);

    let (_, stdout, stderr) = streams_of("2>errfile >&2 echo needle");
    assert_eq!(stdout, Stdio::Filename("errfile".into()));
    assert_eq!(stderr, Stdio::Filename("errfile".into()));

    let (_, stdout, stderr) = streams_of("echo x >out 2>&1");
    assert_eq!(stdout, Stdio::Filename("out".into()));
    assert_eq!(stderr, Stdio::Filename("out".into()));

    let (_, stdout, stderr) = streams_of("echo x 2>&1 >out");
    assert_eq!(stdout, Stdio::Filename("out".into()));
    assert_eq!(stderr, Stdio::FileDescriptor(1));

    let (stdin, _, _) = streams_of("cat <in <&3");
    assert_eq!(stdin, Stdio::FileDescriptor(3));
}
