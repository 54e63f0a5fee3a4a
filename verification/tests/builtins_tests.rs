use bsh::builtins::dirs::{cd_target, Cd, EnvValue};
use bsh::builtins::env::{declare_plan, unset_plan, Declare, Unset};
use bsh::builtins::exit::{exit_request, Exit};
use bsh::builtins::help::{help_output, help_text, print_all_usage_strings, Help};
use bsh::builtins::history::{history_action, HistoryAction, HistoryBuiltin};
use bsh::builtins::jobs::{bg_targets, fg_job_id, jobs_listing, BgTargets, Bg, Fg, Jobs};
use bsh::builtins::kill::{kill_report, kill_request, Kill, KillRequest};
use bsh::builtins::{args, get_argv, get_builtin_exit_status, is_builtin, program, BuiltinCommand};
use bsh::errors::{Error, ErrorKind};
use bsh::job::{Job, JobId, Process, ProcessId};
use bsh::util::{BshExitStatusExt, ExitStatus};

fn strings(v: &[&str]) -> Vec<String> {
    v.iter().map(|s| s.to_string()).collect()
}

fn builtin_failure(e: &Error) -> (String, i32) {
    match &e.kind {
        ErrorKind::BuiltinCommand { message, code } => (message.clone(), *code),
        other => panic!("unexpected {:?}", other),
    }
}

#[test]
fn builtin_names() {
    for name in ["bg", "cd", "declare", "exit", "fg", "help", "history", "kill", "jobs", "unset"] {
        assert!(is_builtin(&strings(&[name, "x"])));
    }
    assert!(!is_builtin(&strings(&["ls"])));
    assert!(!is_builtin(&strings(&["cdd"])));
    let argv = strings(&["kill", "%1", "x"]);
    assert_eq!(program(&argv), "kill");
    assert_eq!(get_argv(&argv), argv);
    assert_eq!(args(&argv), strings(&["%1", "x"]));
}

#[test]
fn builtin_exit_statuses() {
    assert_eq!(get_builtin_exit_status(&Ok(())), ExitStatus::from_success());
    let failure = Err(Error::builtin_command("no", 7));
    assert_eq!(get_builtin_exit_status(&failure), ExitStatus::from_status(7));
    let other = Err(Error::no_job_control());
    assert_eq!(get_builtin_exit_status(&other), ExitStatus::from_status(1));
}

#[test]
fn usage_lines() {
    assert_eq!(Cd::usage(), "cd: cd [dir]");
    assert_eq!(Jobs::usage(), "jobs: jobs [options] [<jobspec>...]");
    assert!(Jobs::help().starts_with("Usage: jobs [options] [<jobspec>...]"));
    assert_eq!(Kill::usage(), "kill: kill pid | %jobspec");
    assert_eq!(Exit::name(), "exit");
    assert_eq!(HistoryBuiltin::name(), "history");
    assert!(Help::help().starts_with("help: help [command ...]"));
    assert_eq!(Declare::usage(), "declare: declare [name[=value] ...]");
    assert_eq!(Unset::usage(), "unset: unset [name ...]");
    assert_eq!(Fg::usage(), "fg: fg [job_spec]");
    assert_eq!(Bg::usage(), "bg: bg [<jobspec>...]");
}

#[test]
fn help_texts() {
    let all = print_all_usage_strings();
    assert_eq!(all.lines().count(), 10);
    assert_eq!(
        all,
        "bg: bg [<jobspec>...]\ncd: cd [dir]\ndeclare: declare [name[=value] ...]\nexit: exit [n]\n\
         fg: fg [job_spec]\nhelp: help [command ...]\nhistory: history [-c] [-s size] [n]\n\
         jobs: jobs [options] [<jobspec>...]\nkill: kill pid | %jobspec\nunset: unset [name ...]\n"
    );
    assert_eq!(help_output(&[]).unwrap(), all);
    let out = help_output(&strings(&["nope", "cd"])).unwrap();
    assert_eq!(out, format!("{}\n", help_text("cd").unwrap()));
    let err = help_output(&strings(&["nope", "zip"])).unwrap_err();
    assert_eq!(builtin_failure(&err), ("help: no help topics match zip".to_string(), 1));
}

#[test]
fn declare_and_unset_plans() {
    let plan = declare_plan(&strings(&["=baz", "KEY=bar", "=baz", "NAME", "A=b=c"]));
    assert_eq!(
        plan.changes,
        vec![
            ("KEY".to_string(), "bar".to_string()),
            ("NAME".to_string(), "".to_string()),
            ("A".to_string(), "b=c".to_string()),
        ]
    );
    let err = plan.result.unwrap_err();
    assert_eq!(
        builtin_failure(&err),
        (
            "declare: =baz is not a valid identifier\ndeclare: =baz is not a valid identifier"
                .to_string(),
            1
        )
    );
    assert!(declare_plan(&strings(&["X=1"])).result.is_ok());
    assert!(declare_plan(&strings(&[""])).result.is_err());

    let plan = unset_plan(&strings(&["", "KEY", "=FOO"]));
    assert_eq!(plan.changes, strings(&["KEY"]));
    assert_eq!(
        builtin_failure(&plan.result.unwrap_err()),
        (
            "unset:  is not a valid identifier\nunset: =FOO is not a valid identifier".to_string(),
            1
        )
    );
    assert!(unset_plan(&strings(&["A", "B"])).result.is_ok());
}

#[test]
fn exit_requests() {
    let err = exit_request(true, &[]).err().unwrap();
    assert_eq!(builtin_failure(&err), ("There are stopped jobs.".to_string(), 1));
    let r = exit_request(false, &[]).ok().unwrap();
    assert_eq!(r.status.unwrap().code(), Some(0));
    assert!(r.warning.is_none());
    let r = exit_request(false, &strings(&["500"])).ok().unwrap();
    assert_eq!(r.status.unwrap().code(), Some(244));
    let r = exit_request(false, &strings(&["-500"])).ok().unwrap();
    assert_eq!(r.status.unwrap().code(), Some(12));
    let r = exit_request(false, &strings(&["x"])).ok().unwrap();
    assert_eq!(r.status.unwrap().code(), Some(2));
    assert_eq!(r.warning.unwrap(), "bsh: exit: x: numeric argument required");
}

#[test]
fn kill_requests() {
    let err = kill_request(&[]).unwrap_err();
    assert_eq!(builtin_failure(&err), ("kill: kill pid | %jobspec".to_string(), 2));
    assert_eq!(kill_request(&strings(&["%3"])).ok(), Some(KillRequest::Job(3)));
    assert_eq!(kill_request(&strings(&["1234"])).ok(), Some(KillRequest::External));
    let err = kill_request(&strings(&["%x"])).unwrap_err();
    assert_eq!(
        builtin_failure(&err),
        ("kill: %x: arguments must be job IDs".to_string(), 1)
    );
    assert_eq!(
        kill_report("%3", 3, Some("sleep 9".to_string())).unwrap(),
        "[3]+\tTerminated: 15\tsleep 9\n"
    );
    let err = kill_report("%3", 3, None).unwrap_err();
    assert_eq!(builtin_failure(&err), ("kill: %3: no such job".to_string(), 1));
}

#[test]
fn history_actions() {
    assert_eq!(history_action(&[]).ok(), Some(HistoryAction::ShowAll));
    assert_eq!(history_action(&strings(&["-c"])).ok(), Some(HistoryAction::Clear));
    assert_eq!(history_action(&strings(&["-s", "5"])).ok(), Some(HistoryAction::SetSize(5)));
    assert_eq!(history_action(&strings(&["-s", "x", "5"])).ok(), Some(HistoryAction::Nothing));
    assert_eq!(history_action(&strings(&["-s"])).ok(), Some(HistoryAction::Nothing));
    assert_eq!(history_action(&strings(&["3"])).ok(), Some(HistoryAction::ShowLast(3)));
    let err = history_action(&strings(&["-3"])).unwrap_err();
    assert_eq!(
        builtin_failure(&err),
        ("history: -3: nonnegative numeric argument required".to_string(), 1)
    );
}

#[test]
fn fg_and_bg_job_numbers() {
    assert_eq!(fg_job_id(&strings(&["fg"])).ok(), Some(None));
    assert_eq!(fg_job_id(&strings(&["fg", "2"])).ok(), Some(Some(JobId(2))));
    let err = fg_job_id(&strings(&["fg", "x"])).unwrap_err();
    assert_eq!(builtin_failure(&err), ("fg: invalid digit found in string".to_string(), 1));
    let err = fg_job_id(&strings(&["fg", ""])).unwrap_err();
    assert_eq!(
        builtin_failure(&err),
        ("fg: cannot parse integer from empty string".to_string(), 1)
    );
    let err = fg_job_id(&strings(&["fg", "99999999999"])).unwrap_err();
    assert_eq!(
        builtin_failure(&err),
        ("fg: number too large to fit in target type".to_string(), 1)
    );
    assert!(matches!(bg_targets(&strings(&["bg"])), BgTargets::Current));
    match bg_targets(&strings(&["bg", "1", "z"])) {
        BgTargets::Each(v) => {
            assert_eq!(v, vec![Ok(JobId(1)), Err("invalid digit found in string".to_string())]);
        }
        BgTargets::Current => panic!("expected each"),
    }
}

#[test]
fn jobs_listings() {
    let processes = vec![
        Process::new_external("sleep", &["5"], ProcessId(41)),
        Process::new_builtin("echo", &["hi"], ExitStatus::from_success()),
    ];
    let job = Job::new(JobId(2), "sleep 5 | echo hi", Some(41), processes, None);
    let jobs = vec![job];
    assert_eq!(jobs_listing(&jobs, false, false), "[2] Running\tsleep 5 | echo hi\n");
    assert_eq!(
        jobs_listing(&jobs, true, false),
        "[2] Some(ProcessId(41))\tRunning\tsleep 5\n\tNone\tCompleted\techo hi\n"
    );
    assert_eq!(jobs_listing(&jobs, false, true), "Some(ProcessId(41))\nNone\n");
}

#[test]
fn cd_targets() {
    let t = cd_target(&[], Some("/home/u".to_string()), EnvValue::Unset).ok().unwrap();
    assert_eq!(t.dir, "/home/u");
    assert!(!t.print);
    let err = cd_target(&[], None, EnvValue::Unset).err().unwrap();
    assert_eq!(builtin_failure(&err), ("cd: HOME not set".to_string(), 1));
    let t = cd_target(&strings(&["-"]), None, EnvValue::Value("/tmp".to_string()))
        .ok()
        .unwrap();
    assert_eq!(t.dir, "/tmp");
    assert!(t.print);
    let err = cd_target(&strings(&["-"]), None, EnvValue::Unset).err().unwrap();
    assert_eq!(builtin_failure(&err), ("cd: OLDPWD not set".to_string(), 1));
    let err = cd_target(&strings(&["-"]), None, EnvValue::NotUnicode).err().unwrap();
    assert_eq!(builtin_failure(&err), ("invalid Unicode".to_string(), 1));
    let t = cd_target(&strings(&["src"]), None, EnvValue::Unset).ok().unwrap();
    assert_eq!(t.dir, "src");
}
