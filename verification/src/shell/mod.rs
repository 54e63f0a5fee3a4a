//! The shell's policy and the decisions it takes for each command line:
//! its configuration, the exit code it ends with, its prompt, and how a
//! line becomes a command ready to run.

pub mod unix;

use vstd::prelude::*;
use vstd::string::StringExecFns;

use crate::editor::{Editor, Expansion, accepts_line, expansion, expansion_searches, history_ignores_dups, history_ignores_space, history_max_len};
use crate::errors::{Error, ErrorKind};
use crate::lang::intermediate_representation::{CommandGroup, Interpreter, any_background, has_programs, interpret};
use crate::lang::parser::{Command, parse_spec};
use crate::lang::parser::ast::{SpecCommand};
use crate::lang::variable_expansion::{expand_command, expand_variables, opt_view, pair_views};
use crate::num::{signed_decimal, i64_to_string};
use crate::util::{BshExitStatusExt, ExitStatus, raw_of_code, status_code};

verus! {

pub const HISTORY_FILE_NAME: &'static str = ".bsh_history";

pub const SYNTAX_ERROR_EXIT_STATUS: i32 = 2;

pub const COMMAND_NOT_FOUND_EXIT_STATUS: i32 = 127;

/// What the shell does: keep a command history, support job control,
/// print extra messages.
#[derive(Debug, Copy, Clone)]
pub struct ShellConfig {
    /// Whether new command lines are added to the history (checked before
    /// the other history settings).
    pub enable_command_history: bool,
    /// The number of history entries kept.
    pub command_history_capacity: usize,
    /// Whether `fg` and `bg` are supported.
    pub enable_job_control: bool,
    /// Whether some messages (such as "exit") are printed.
    pub display_messages: bool,
}

impl ShellConfig {
    /// An interactive shell: history, job control and messages.
    pub fn interactive(command_history_capacity: usize) -> (c: ShellConfig)
        ensures
            c.enable_command_history,
            c.command_history_capacity == command_history_capacity,
            c.enable_job_control,
            c.display_messages,
    {
        ShellConfig {
            enable_command_history: true,
            command_history_capacity,
            enable_job_control: true,
            display_messages: true,
        }
    }

    /// A shell running a script: no history, no job control, few messages.
    pub fn noninteractive() -> (c: ShellConfig)
        ensures
            !c.enable_command_history,
            c.command_history_capacity == 0,
            !c.enable_job_control,
            !c.display_messages,
    {
        ShellConfig::default()
    }
}

impl Default for ShellConfig {
    fn default() -> (c: ShellConfig)
        ensures
            !c.enable_command_history,
            c.command_history_capacity == 0,
            !c.enable_job_control,
            !c.display_messages,
    {
        ShellConfig {
            enable_command_history: false,
            command_history_capacity: 0,
            enable_job_control: false,
            display_messages: false,
        }
    }
}

/// The remainder of `a` by `b` with the sign of `a`, as Rust's `%` gives.
pub open spec fn rem_toward_zero(a: int, b: int) -> int {
    if a >= 0 {
        a % b
    } else {
        -((-a) % b)
    }
}

/// The code the shell passes to the system when it exits with `code`:
/// `(256 + code) % 256` for a negative code, else `code % 256`.
pub open spec fn code_like_u8(code: int) -> int {
    if code < 0 {
        rem_toward_zero(256 + code, 256)
    } else {
        code % 256
    }
}

/// The code the shell passes to the system when it exits with `code`.
pub fn exit_code_like_u8(code: i32) -> (r: i32)
    ensures
        r == code_like_u8(code as int),
{
    if code < 0 {
        let x: i32 = 256 + code;
        if x >= 0 {
            x % 256
        } else {
            -((-x) % 256)
        }
    } else {
        code % 256
    }
}

/// The exit code the shell ends with: that of `n` when given, else that of
/// the last command, brought into a byte.
pub fn exit_code(n: Option<ExitStatus>, last_exit_status: ExitStatus) -> (r: i32)
    requires
        match n {
            Some(s) => status_code(s.raw) is Some,
            None => status_code(last_exit_status.raw) is Some,
        },
    ensures
        r == code_like_u8(
            match n {
                Some(s) => status_code(s.raw).unwrap(),
                None => status_code(last_exit_status.raw).unwrap(),
            } as int,
        ),
{
    let code = match n {
        Some(s) => s.code().unwrap(),
        None => last_exit_status.code().unwrap(),
    };
    exit_code_like_u8(code)
}

/// `<code>|<location>\n$ `: the prompt after a command that ended with
/// `code`, in the directory shown as `location`.
pub fn prompt_text(code: i32, location: &str) -> (s: String)
    ensures
        s@ == signed_decimal(code as int) + seq!['|'] + location@ + "\n$ "@,
{
    let mut s = i64_to_string(code as i64);
    crate::text::push_char(&mut s, '|');
    s.append(location);
    s.append("\n$ ");
    s
}

/// What to do with a command line.
pub enum LinePlan {
    /// Nothing: the line is empty.
    Skip,
    /// Report a syntax error and set the last status.
    SyntaxError { message: String, status: ExitStatus },
    /// Run the command.
    Run(CommandGroup),
}

/// The syntax tree a command line runs: parsed, then expanded.
pub open spec fn expanded_line(
    input: Seq<char>,
    home: Option<Seq<char>>,
    vars: Seq<(Seq<char>, Seq<char>)>,
) -> Option<SpecCommand> {
    match parse_spec(input) {
        Some(c) => Some(expand_command(c, home, vars)),
        None => None,
    }
}

/// The line that runs for the command line `input`: with the history
/// enabled, the entry that a history event designates; otherwise the line
/// itself.
pub open spec fn line_to_run(editor: Editor, config: ShellConfig, input: Seq<char>) -> Seq<char> {
    if config.enable_command_history {
        match expansion(
            editor.entries(),
            editor.history_count as nat,
            editor.history_capacity as nat,
            input,
        ) {
            Expansion::Replaced(line) => line,
            _ => input,
        }
    } else {
        input
    }
}

/// Decides what the command line `input` does. With the history enabled,
/// history expansion is performed first (its failure is the result) and
/// the line as typed is added to the history; the line to run (the
/// expansion's result) is then parsed (a syntax error is reported with
/// status 2), expanded with `home_dir` and `vars`, and turned into a
/// command group.
pub fn prepare_command_line(
    editor: &mut Editor,
    config: &ShellConfig,
    input: &str,
    home_dir: Option<String>,
    vars: Vec<(String, String)>,
) -> (r: Result<LinePlan, Error>)
    requires
        config.enable_command_history && expansion_searches(input@) ==> old(editor).history_count
            > 0,
        config.enable_command_history ==> old(editor).history_count < usize::MAX,
        parse_spec(line_to_run(*old(editor), *config, input@)) matches Some(c) ==> has_programs(c),
    ensures
        input@.len() == 0 ==> (r matches Ok(LinePlan::Skip) && *final(editor) == *old(editor)),
        input@.len() > 0 && !config.enable_command_history ==> *final(editor) == *old(editor),
        input@.len() > 0 && config.enable_command_history && expansion(
            old(editor).entries(),
            old(editor).history_count as nat,
            old(editor).history_capacity as nat,
            input@,
        ) is NotFound ==> (r matches Err(e) && e.kind matches ErrorKind::BuiltinCommand {
            message,
            code,
        } && message@ == input@ + ": event not found"@ && code == 1 && *final(editor)
            == *old(editor)),
        input@.len() > 0 && config.enable_command_history && !(expansion(
            old(editor).entries(),
            old(editor).history_count as nat,
            old(editor).history_capacity as nat,
            input@,
        ) is NotFound) ==> ({
            let added = accepts_line(
                old(editor).entries(),
                history_max_len(old(editor).internal),
                history_ignores_space(old(editor).internal),
                history_ignores_dups(old(editor).internal),
                input@,
            );
            &&& final(editor).history_count == if added {
                old(editor).history_count + 1
            } else {
                old(editor).history_count as int
            }
            &&& added ==> final(editor).entries() == (if old(editor).entries().len()
                == history_max_len(old(editor).internal) {
                old(editor).entries().drop_first()
            } else {
                old(editor).entries()
            }).push(input@)
            &&& !added ==> final(editor).entries() == old(editor).entries()
        }),
        input@.len() > 0 && !(config.enable_command_history && expansion(
            old(editor).entries(),
            old(editor).history_count as nat,
            old(editor).history_capacity as nat,
            input@,
        ) is NotFound) ==> ({
            let line = line_to_run(*old(editor), *config, input@);
            match expanded_line(line, opt_view(home_dir), pair_views(vars@)) {
                None => r matches Ok(LinePlan::SyntaxError { message, status }) && message@
                    == "bsh: syntax error near: "@ + line && status.raw == raw_of_code(
                    SYNTAX_ERROR_EXIT_STATUS,
                ),
                Some(c) => r matches Ok(LinePlan::Run(g)) && g.input@ == line && g.command@
                    == interpret(c) && g.background == any_background(c),
            }
        }),
{
    if input.is_empty() {
        return Ok(LinePlan::Skip);
    }
    let mut command = input.to_owned();
    if config.enable_command_history {
        editor.expand_history(&mut command)?;
        editor.add_history_entry(input);
    }
    let parsed = match Command::parse(command.as_str()) {
        Ok(parsed) => parsed,
        Err(e) => {
            let mut message = "bsh: syntax error near: ".to_owned();
            message.append(command.as_str());
            return Ok(
                LinePlan::SyntaxError {
                    message,
                    status: ExitStatus::from_status(SYNTAX_ERROR_EXIT_STATUS),
                },
            );
        },
    };
    proof {
        crate::lang::variable_expansion::lemma_expansion_keeps_shape(
            parsed.inner@,
            opt_view(home_dir),
            pair_views(vars@),
        );
    }
    let inner_command = expand_variables(&parsed.inner, home_dir, vars);
    let group = Interpreter::parse(Command::new(parsed.input.as_str(), inner_command));
    Ok(LinePlan::Run(group))
}

/// The code the shell passes to the system agrees with the status modulo
/// 256, which is all the system keeps of it.
pub proof fn lemma_code_like_u8_agrees(code: int)
    ensures
        code_like_u8(code) % 256 == code % 256,
        0 <= code ==> 0 <= code_like_u8(code) < 256,
        -256 <= code < 0 ==> 0 <= code_like_u8(code) < 256,
{
    if code < 0 {
        let x = 256 + code;
        if x < 0 {
            let y = -x;
            assert((-(y % 256)) % 256 == (-y) % 256) by (nonlinear_arith)
                requires
                    y > 0,
            {
                vstd::arithmetic::div_mod::lemma_fundamental_div_mod(y, 256);
                vstd::arithmetic::div_mod::lemma_mod_multiples_vanish(y / 256, -(y % 256), 256);
            }
            assert((x - 256) % 256 == x % 256) by {
                vstd::arithmetic::div_mod::lemma_mod_sub_multiples_vanish(x, 256);
            }
        } else {
            assert((x - 256) % 256 == x % 256) by {
                vstd::arithmetic::div_mod::lemma_mod_sub_multiples_vanish(x, 256);
            }
        }
    }
}

/// `exit n` ends the shell with `n` modulo 256: 85 gives 85, 500 gives
/// 244, -500 gives 12.
pub proof fn lemma_exit_code_is_status_mod_256(n: i32)
    ensures
        status_code(raw_of_code(n)) is Some,
        code_like_u8(status_code(raw_of_code(n)).unwrap() as int) == (n as int) % 256,
{
    crate::util::lemma_status_code_of_code(n);
}

/// How a started job is followed.
#[derive(Debug, PartialEq, Eq, Structural)]
pub enum Placement {
    /// Wait for it without handing it the terminal (no job control).
    Wait,
    /// Hand it the terminal and wait for it.
    Foreground,
    /// Leave it running in the background.
    Background,
}

/// How a started job is followed: a shell without a terminal waits for
/// it; otherwise it runs in the foreground or the background as asked.
pub fn job_placement(is_interactive: bool, foreground: bool) -> (p: Placement)
    ensures
        p == if !is_interactive {
            Placement::Wait
        } else if foreground {
            Placement::Foreground
        } else {
            Placement::Background
        },
{
    if !is_interactive {
        Placement::Wait
    } else if foreground {
        Placement::Foreground
    } else {
        Placement::Background
    }
}

/// What the shell does when starting a command group failed: a missing
/// program is reported as `bsh: <program>: command not found` with status
/// 127; any other error is passed on.
pub fn spawn_failure(e: Error) -> (r: Result<(String, ExitStatus), Error>)
    ensures
        match e.kind {
            ErrorKind::CommandNotFound(command) => r matches Ok((message, status)) && message@
                == "bsh: "@ + command@ + ": command not found"@ && status.raw == raw_of_code(
                COMMAND_NOT_FOUND_EXIT_STATUS,
            ),
            _ => r matches Err(x) && x.kind == e.kind,
        },
{
    match &e.kind {
        ErrorKind::CommandNotFound(command) => {
            let mut message = crate::errors::concat("bsh: ", command.as_str());
            message.append(": command not found");
            Ok((message, ExitStatus::from_status(COMMAND_NOT_FOUND_EXIT_STATUS)))
        },
        _ => Err(e),
    }
}

} // verus!
