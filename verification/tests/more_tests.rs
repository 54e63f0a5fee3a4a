use bsh::editor::Editor;
use bsh::execute_command::{wait_need, WaitNeed};
use bsh::job::{Process, ProcessId, ProcessStatus};
use bsh::job_control::{exit_status_of, WaitEvent};
use bsh::jobs::{get_status_code, BackgroundJobManager};
use bsh::lang::variable_expansion::command_has_programs;
use bsh::shell::{job_placement, spawn_failure, Placement};
use bsh::errors::Error;
use bsh::util::{BshExitStatusExt, ExitStatus};

#[test]
fn background_numbering_starts_over() {
    let mut m = BackgroundJobManager::default();
    assert!(!m.has_jobs());
    assert_eq!(m.add_job("a"), 1);
    assert_eq!(m.add_job("b"), 2);
    let b = m.kill_job(2).unwrap();
    assert_eq!(b.command, "b");
    assert_eq!(m.add_job("c"), 3);
    let done = m.remove_finished(&vec![true, false]);
    assert_eq!(done.len(), 1);
    assert_eq!(done[0].command, "a");
    assert_eq!(m.jobs.len(), 1);
    assert!(m.kill_job(9).is_none());
    assert!(m.kill_job(3).is_some());
    assert_eq!(m.add_job("d"), 1);
    let done = m.remove_finished(&vec![true]);
    assert_eq!(done[0].idx, 1);
    assert_eq!(m.add_job("e"), 1);
}

#[test]
fn status_codes_of_signals() {
    assert_eq!(get_status_code(&ExitStatus::from_status(3)), 3);
    assert_eq!(get_status_code(&ExitStatus::from_raw(9)), 137);
    assert_eq!(ExitStatus::from_raw(9).signal(), Some(9));
    assert_eq!(ExitStatus::from_status(1).signal(), None);
    assert_eq!(exit_status_of(WaitEvent::Exited(ProcessId(1), 4)), ExitStatus::from_status(4));
    assert_eq!(exit_status_of(WaitEvent::Signaled(ProcessId(1), 15)), ExitStatus::from_status(143));
}

#[test]
fn placements_and_failures() {
    assert_eq!(job_placement(false, true), Placement::Wait);
    assert_eq!(job_placement(true, true), Placement::Foreground);
    assert_eq!(job_placement(true, false), Placement::Background);
    let (message, status) = spawn_failure(Error::command_not_found("foo")).ok().unwrap();
    assert_eq!(message, "bsh: foo: command not found");
    assert_eq!(status.code(), Some(127));
    assert!(spawn_failure(Error::no_job_control()).is_err());
}

#[test]
fn waiting_for_processes() {
    let done = Process::new_builtin("true", &[], ExitStatus::from_success());
    assert_eq!(wait_need(&done), WaitNeed::Done(ExitStatus::from_success()));
    let running = Process::new_external("sleep", &["1"], ProcessId(42));
    assert_eq!(wait_need(&running), WaitNeed::WaitFor(ProcessId(42)));
    assert_eq!(running.status, ProcessStatus::Running);
}

#[test]
fn history_gives_back_what_was_added() {
    let mut editor = Editor::with_capacity(2);
    for line in ["one", "two", "three"] {
        editor.add_history_entry(line);
        let mut buf = String::from("!-1");
        editor.expand_history(&mut buf).unwrap();
        assert_eq!(buf, line);
        let mut buf = format!("!{}", editor.history_count);
        editor.expand_history(&mut buf).unwrap();
        assert_eq!(buf, line);
    }
    let mut buf = String::from("!2");
    editor.expand_history(&mut buf).unwrap();
    assert_eq!(buf, "two");
    let mut buf = String::from("!1");
    assert!(editor.expand_history(&mut buf).is_err());
}

#[test]
fn programs_are_required() {
    let parsed = bsh::lang::parser::Command::parse("<in | cat").unwrap();
    assert!(!command_has_programs(&parsed.inner));
    let parsed = bsh::lang::parser::Command::parse("cat <in | wc").unwrap();
    assert!(command_has_programs(&parsed.inner));
}

#[test]
fn quoted_words_keep_special_characters() {
    let parsed = bsh::lang::parser::Command::parse("echo \"a|b;c&d<e>f\" x").unwrap();
    assert_eq!(
        parsed.inner,
        bsh::lang::parser::ast::Command::Simple {
            words: vec!["echo".into(), "a|b;c&d<e>f".into(), "x".into()],
            redirects: vec![],
            background: false,
        }
    );
}

#[test]
fn background_numbers_increase_over_a_run() {
    let mut m = BackgroundJobManager::default();
    assert_eq!(m.add_job("a"), 1);
    assert_eq!(m.add_job("b"), 2);
    assert_eq!(m.kill_job(1).map(|j| j.idx), Some(1));
    assert_eq!(m.add_job("c"), 3);
    let done = m.remove_finished(&vec![true, false]);
    assert_eq!(done.iter().map(|j| j.idx).collect::<Vec<_>>(), vec![2]);
    assert_eq!(m.add_job("d"), 4);
    let idxs: Vec<u32> = m.jobs.iter().map(|j| j.idx).collect();
    assert_eq!(idxs, vec![3, 4]);
    m.remove_finished(&vec![true, true]);
    assert_eq!(m.job_count, 0);
    assert_eq!(m.add_job("e"), 1);
}
