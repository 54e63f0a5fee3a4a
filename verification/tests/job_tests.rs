use bsh::job::{Job, JobId, JobStatus, Process, ProcessGroup, ProcessId, ProcessStatus};
use bsh::job_control::{JobManager, WaitEvent};
use bsh::util::{BshExitStatusExt, ExitStatus};

#[test]
fn test_builtin_process() {
    let process = Process::new_builtin("cmd", &["arg1"], ExitStatus::from_success());
    assert_eq!(
        process,
        Process {
            argv: vec!["cmd".to_string(), "arg1".to_string()],
            id: None,
            status: ProcessStatus::Completed,
            status_code: Some(ExitStatus::from_success())
        }
    );
}

#[test]
fn test_external_process() {
    let process_id = ProcessId(1);
    let process = Process::new_external("cmd", &["arg1"], process_id);
    assert_eq!(
        process,
        Process {
            argv: vec!["cmd".to_string(), "arg1".to_string()],
            id: Some(process_id),
            status: ProcessStatus::Running,
            status_code: None,
        }
    );
}

#[test]
fn test_job_is_stopped() {
    let process_id = ProcessId(1);
    let processes = vec![Process::new_external("cmd", &["arg1"], process_id)];
    let job = Job::new(JobId(1), "cmd arg1", None /*pgid*/, processes, None);

    assert!(!job.is_stopped());
    let job = job.mark_stopped(process_id, nix::sys::signal::Signal::SIGSTOP as i32);

    let process_index = job.find_process(process_id).expect("process not found");
    assert_eq!(job.processes[process_index].status, ProcessStatus::Stopped);
    assert!(job.is_stopped());
    assert_eq!(job.status(), JobStatus::Stopped);
    assert_eq!(job.display(), "[1] Stopped\tcmd arg1");
}

#[test]
fn test_job_is_completed() {
    let process_id = ProcessId(1);
    let processes = vec![Process::new_external("cmd", &["arg1"], process_id)];
    let job = Job::new(JobId(1), "cmd arg1", None /*pgid*/, processes, None);

    assert!(!job.is_completed());
    let job = job.mark_exited(process_id, 0);

    let process_index = job.find_process(process_id).expect("process not found");
    assert_eq!(job.processes[process_index].status, ProcessStatus::Completed);
    assert_eq!(job.processes[process_index].status_code.unwrap(), ExitStatus::from_status(0));
    assert!(job.is_completed());
}

#[test]
fn job_status_and_display() {
    let processes = vec![
        Process::new_external("a", &[], ProcessId(7)),
        Process::new_builtin("echo", &["x", "y"], ExitStatus::from_status(3)),
    ];
    let job = Job::new(JobId(4), "a | echo x y", Some(7), processes, None);
    assert_eq!(job.last_status_code(), Some(ExitStatus::from_status(3)));
    assert_eq!(job.status(), JobStatus::Running);
    assert_eq!(job.status().name(), "Running");
    assert_eq!(job.display(), "[4] Running\ta | echo x y");
    assert_eq!(job.processes()[1].argv(), "echo x y");
    let job = job.mark_signaled(ProcessId(7), 9);
    assert_eq!(job.status(), JobStatus::Completed);
    assert_eq!(job.status().name(), "Completed");
    assert_eq!(job.last_status_code(), Some(ExitStatus::from_status(137)));
    assert_eq!(job.display(), "[4] Completed\ta | echo x y");
    assert!(job.has_process(ProcessId(7)));
    assert!(!job.has_process(ProcessId(8)));
}

#[test]
fn process_setters_keep_other_fields() {
    let p = Process::new_external("a", &["b"], ProcessId(3));
    let q = p.clone().set_status(ProcessStatus::Stopped);
    assert_eq!(q.argv, p.argv);
    assert_eq!(q.status(), ProcessStatus::Stopped);
    let r = q.set_status_code(ExitStatus::from_failure());
    assert_eq!(r.status_code(), Some(ExitStatus::from_failure()));
    assert_eq!(r.id(), Some(ProcessId(3)));
    assert_eq!(ProcessStatus::default(), ProcessStatus::Running);
    assert_eq!(ProcessStatus::Stopped.name(), "Stopped");
    assert_eq!(ProcessId::from(5u32), ProcessId(5));
}

fn group(pids: &[u32]) -> ProcessGroup {
    ProcessGroup {
        id: pids.first().copied(),
        processes: pids
            .iter()
            .map(|p| Process::new_external("cmd", &[], ProcessId(*p)))
            .collect(),
        foreground: true,
    }
}

#[test]
fn job_numbers_increase() {
    let mut manager = JobManager::default();
    assert!(!manager.has_jobs());
    let a = manager.create_job("a", group(&[10]), None);
    let b = manager.create_job("b", group(&[11, 12]), None);
    assert_eq!(a, JobId(1));
    assert_eq!(b, JobId(2));
    assert_eq!(manager.find_job(b), Some(1));
    assert_eq!(manager.find_job(JobId(9)), None);
    assert_eq!(manager.get_jobs()[1].pgid(), Some(11));
    let killed = manager.kill_job(a).unwrap();
    assert_eq!(killed.input(), "a");
    let c = manager.create_job("c", group(&[13]), None);
    assert_eq!(c, JobId(3));
    assert_eq!(manager.find_job(c), Some(1));
    assert!(manager.kill_job(a).is_none());
}

#[test]
fn foreground_and_background_targets() {
    let mut manager = JobManager::default();
    let err = manager.put_job_in_foreground(None).unwrap_err();
    assert_eq!(err.message(), "current: no such job");
    let a = manager.create_job("a", group(&[10]), None);
    let err = manager.put_job_in_background(Some(JobId(5))).unwrap_err();
    assert_eq!(err.message(), "5: no such job");
    assert_eq!(manager.put_job_in_background(Some(a)).ok(), Some(0));
    assert_eq!(manager.current_job, Some(a));
    assert!(!manager.get_jobs()[0].last_running_in_foreground());
    assert_eq!(manager.put_job_in_foreground(None).ok(), Some(0));
    assert!(manager.get_jobs()[0].last_running_in_foreground());
}

#[test]
fn wait_events_update_jobs_and_notifications() {
    let mut manager = JobManager::default();
    let a = manager.create_job("sleep 1", group(&[10]), None);
    let b = manager.create_job("vim", group(&[11]), None);
    manager.put_job_in_background(Some(a)).unwrap();
    manager.mark_process_status(WaitEvent::Stopped(ProcessId(11), 19));
    assert_eq!(manager.current_job, Some(b));
    assert!(manager.job_is_stopped(b));
    manager.mark_process_status(WaitEvent::Exited(ProcessId(10), 0));
    assert!(manager.job_is_completed(a));
    assert_eq!(manager.last_status_code(a), Some(ExitStatus::from_status(0)));
    let lines = manager.job_notifications();
    assert_eq!(
        lines,
        vec!["[1] Completed\tsleep 1".to_string(), "[2] Stopped\tvim".to_string()]
    );
    assert_eq!(manager.get_jobs().len(), 1);
    assert!(manager.job_notifications().is_empty());
}

#[test]
fn background_job_becomes_current() {
    let mut manager = JobManager::default();
    let a = manager.create_job("a", group(&[10]), None);
    let b = manager.create_job("b", group(&[11]), None);
    assert_eq!(manager.put_job_in_background(Some(b)).ok(), Some(1));
    assert_eq!(manager.put_job_in_background(None).ok(), Some(1));
    assert_eq!(manager.put_job_in_background(Some(a)).ok(), Some(0));
    assert_eq!(manager.put_job_in_foreground(None).ok(), Some(0));
    assert_eq!(manager.current_job, Some(a));
}

#[test]
fn killed_job_is_gone() {
    let mut manager = JobManager::default();
    let a = manager.create_job("a", group(&[10]), None);
    let b = manager.create_job("b", group(&[11]), None);
    let c = manager.create_job("c", group(&[12]), None);
    assert_eq!(manager.kill_job(b).map(|j| j.id), Some(b));
    assert_eq!(manager.find_job(b), None);
    assert_eq!(manager.find_job(a), Some(0));
    assert_eq!(manager.find_job(c), Some(1));
}
