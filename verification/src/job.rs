//! Processes and jobs: what the shell records of the programs it started.

use vstd::prelude::*;
use vstd::string::StringExecFns;
use vstd::std_specs::convert::FromSpecImpl;

use crate::num::u64_to_string;
use crate::text::{copy_string, views};
use crate::util::{BshExitStatusExt, ExitStatus, raw_of_code};

verus! {

/// The identifier of an operating-system process.
#[derive(Clone, Copy, Debug, PartialEq, Eq, Structural)]
pub struct ProcessId(pub u32);

impl From<u32> for ProcessId {
    fn from(value: u32) -> (p: ProcessId) {
        ProcessId(value)
    }
}

impl FromSpecImpl<u32> for ProcessId {
    open spec fn obeys_from_spec() -> bool {
        true
    }

    open spec fn from_spec(v: u32) -> ProcessId {
        ProcessId(v)
    }
}

/// Where a process is in its life.
#[derive(Clone, Copy, Debug, PartialEq, Eq, Structural)]
pub enum ProcessStatus {
    Running,
    Stopped,
    Completed,
}

impl Default for ProcessStatus {
    fn default() -> (s: ProcessStatus)
        ensures
            s == ProcessStatus::Running,
    {
        ProcessStatus::Running
    }
}

/// The name of a status, as the shell prints it.
pub open spec fn status_name(s: ProcessStatus) -> Seq<char> {
    match s {
        ProcessStatus::Running => "Running"@,
        ProcessStatus::Stopped => "Stopped"@,
        ProcessStatus::Completed => "Completed"@,
    }
}

impl ProcessStatus {
    /// The name of this status.
    pub fn name(&self) -> (s: String)
        ensures
            s@ == status_name(*self),
    {
        match self {
            ProcessStatus::Running => "Running".to_owned(),
            ProcessStatus::Stopped => "Stopped".to_owned(),
            ProcessStatus::Completed => "Completed".to_owned(),
        }
    }
}

/// A program the shell ran: its words, its process identifier (none for a
/// builtin), its status and its exit status once known.
#[derive(Clone, Debug, PartialEq)]
pub struct Process {
    pub argv: Vec<String>,
    pub id: Option<ProcessId>,
    pub status: ProcessStatus,
    pub status_code: Option<ExitStatus>,
}

/// The view of each string slice of a sequence.
pub open spec fn str_views(v: Seq<&str>) -> Seq<Seq<char>> {
    v.map_values(|s: &str| s@)
}

/// The words `program args...` as strings.
fn argv_of(program: &str, args: &[&str]) -> (v: Vec<String>)
    ensures
        views(v@) == seq![program@] + str_views(args@),
{
    let mut v: Vec<String> = Vec::new();
    v.push(program.to_owned());
    assert(views(v@) =~= seq![program@] + str_views(args@).take(0));
    for i in 0..args.len()
        invariant
            views(v@) == seq![program@] + str_views(args@).take(i as int),
    {
        let ghost before = v@;
        v.push(args[i].to_owned());
        assert(views(v@) =~= views(before).push(args@[i as int]@));
        assert(str_views(args@).take(i + 1) =~= str_views(args@).take(i as int).push(
            args@[i as int]@,
        ));
        assert(seq![program@] + str_views(args@).take(i + 1) =~= (seq![program@] + str_views(
            args@,
        ).take(i as int)).push(args@[i as int]@));
    }
    assert(str_views(args@).take(args@.len() as int) =~= str_views(args@));
    v
}

/// The words of `ws` joined by single spaces.
pub open spec fn join_words(ws: Seq<Seq<char>>) -> Seq<char>
    decreases ws.len(),
{
    if ws.len() == 0 {
        Seq::empty()
    } else if ws.len() == 1 {
        ws[0]
    } else {
        join_words(ws.drop_last()) + seq![' '] + ws.last()
    }
}

/// The words of `v` joined by single spaces.
pub fn join_strings(v: &Vec<String>) -> (s: String)
    ensures
        s@ == join_words(views(v@)),
{
    let mut s = String::new();
    for i in 0..v.len()
        invariant
            s@ == join_words(views(v@).take(i as int)),
    {
        let ghost before = s@;
        assert(views(v@).take(i + 1).drop_last() =~= views(v@).take(i as int));
        if i > 0 {
            crate::text::push_char(&mut s, ' ');
        }
        s.append(v[i].as_str());
        proof {
            if i == 0 {
                assert(s@ =~= views(v@).take(1)[0]);
            } else {
                assert(s@ =~= before + seq![' '] + views(v@).take(i + 1).last());
            }
        }
    }
    assert(views(v@).take(v@.len() as int) =~= views(v@));
    s
}

impl Process {
    /// A builtin that has already run and ended with `status_code`.
    pub fn new_builtin(program: &str, args: &[&str], status_code: ExitStatus) -> (p: Process)
        ensures
            views(p.argv@) == seq![program@] + str_views(args@),
            p.id is None,
            p.status == ProcessStatus::Completed,
            p.status_code == Some(status_code),
    {
        Process {
            argv: argv_of(program, args),
            id: None,
            status: ProcessStatus::Completed,
            status_code: Some(status_code),
        }
    }

    /// A running external program with process identifier `id`.
    pub fn new_external(program: &str, args: &[&str], id: ProcessId) -> (p: Process)
        ensures
            views(p.argv@) == seq![program@] + str_views(args@),
            p.id == Some(id),
            p.status == ProcessStatus::Running,
            p.status_code is None,
    {
        Process {
            argv: argv_of(program, args),
            id: Some(id),
            status: ProcessStatus::Running,
            status_code: None,
        }
    }

    /// The words of the process joined by spaces.
    pub fn argv(&self) -> (s: String)
        ensures
            s@ == join_words(views(self.argv@)),
    {
        join_strings(&self.argv)
    }

    /// The process identifier, none for a builtin.
    pub fn id(&self) -> (r: Option<ProcessId>)
        ensures
            r == self.id,
    {
        self.id
    }

    /// The status.
    pub fn status(&self) -> (r: ProcessStatus)
        ensures
            r == self.status,
    {
        self.status
    }

    /// The same process with status `status`.
    pub fn set_status(self, status: ProcessStatus) -> (p: Process)
        ensures
            p == (Process { status, ..self }),
    {
        Process { status, ..self }
    }

    /// The exit status, once known.
    pub fn status_code(&self) -> (r: Option<ExitStatus>)
        ensures
            r == self.status_code,
    {
        self.status_code
    }

    /// The same process with exit status `status_code`.
    pub fn set_status_code(self, status_code: ExitStatus) -> (p: Process)
        ensures
            p == (Process { status_code: Some(status_code), ..self }),
    {
        Process { status_code: Some(status_code), ..self }
    }

    /// The same process, now completed with exit status `status_code`.
    pub fn mark_exited(self, status_code: ExitStatus) -> (p: Process)
        ensures
            p == (Process {
                status: ProcessStatus::Completed,
                status_code: Some(status_code),
                ..self
            }),
    {
        Process { status: ProcessStatus::Completed, status_code: Some(status_code), ..self }
    }

    /// The same process, now stopped.
    pub fn mark_stopped(self) -> (p: Process)
        ensures
            p == (Process { status: ProcessStatus::Stopped, ..self }),
    {
        Process { status: ProcessStatus::Stopped, ..self }
    }
}

/// The processes started for one command line.
#[derive(Debug)]
pub struct ProcessGroup {
    pub id: Option<u32>,
    pub processes: Vec<Process>,
    pub foreground: bool,
}

/// The number of a job, as the user refers to it (`%n`).
#[derive(Clone, Copy, Debug, PartialEq, Eq, Structural)]
pub struct JobId(pub u32);

impl JobId {
    /// The number as text.
    pub fn display(&self) -> (s: String)
        ensures
            s@ == crate::num::decimal(self.0 as nat),
    {
        u64_to_string(self.0 as u64)
    }
}

/// The terminal settings saved for a job.
#[verifier::external_type_specification]
#[verifier::external_body]
pub struct ExTermios(nix::sys::termios::Termios);

/// A job: a command line and the processes it started.
#[derive(Clone)]
pub struct Job {
    pub id: JobId,
    pub input: String,
    pub pgid: Option<i32>,
    pub processes: Vec<Process>,
    pub last_status_code: Option<ExitStatus>,
    pub last_running_in_foreground: bool,
    pub notified_stopped_job: bool,
    pub tmodes: Option<nix::sys::termios::Termios>,
}

/// The exit status of the last process of `ps` that has one.
pub open spec fn last_known_status(ps: Seq<Process>) -> Option<ExitStatus>
    decreases ps.len(),
{
    if ps.len() == 0 {
        None
    } else {
        match ps.last().status_code {
            Some(s) => Some(s),
            None => last_known_status(ps.drop_last()),
        }
    }
}

/// Whether every process of `ps` has status `s`.
pub open spec fn all_have_status(ps: Seq<Process>, s: ProcessStatus) -> bool {
    forall|i: int| 0 <= i < ps.len() ==> (#[trigger] ps[i]).status == s
}

/// Where a job is in its life, as `jobs` lists it.
#[derive(Clone, Copy, Debug, PartialEq, Eq, Structural)]
pub enum JobStatus {
    Running,
    Stopped,
    Completed,
}

/// The name of a job status, as the shell prints it.
pub open spec fn job_status_name(s: JobStatus) -> Seq<char> {
    match s {
        JobStatus::Running => "Running"@,
        JobStatus::Stopped => "Stopped"@,
        JobStatus::Completed => "Completed"@,
    }
}

impl JobStatus {
    /// The name of this status.
    pub fn name(&self) -> (s: String)
        ensures
            s@ == job_status_name(*self),
    {
        match self {
            JobStatus::Running => "Running".to_owned(),
            JobStatus::Stopped => "Stopped".to_owned(),
            JobStatus::Completed => "Completed".to_owned(),
        }
    }
}

/// The status of a job with processes `ps`: stopped when all are stopped,
/// completed when all are completed, running otherwise.
pub open spec fn job_status(ps: Seq<Process>) -> JobStatus {
    if all_have_status(ps, ProcessStatus::Stopped) {
        JobStatus::Stopped
    } else if all_have_status(ps, ProcessStatus::Completed) {
        JobStatus::Completed
    } else {
        JobStatus::Running
    }
}

/// The index of the first process of `ps` with identifier `pid`.
pub open spec fn process_index(ps: Seq<Process>, pid: ProcessId) -> Option<int>
    decreases ps.len(),
{
    if ps.len() == 0 {
        None
    } else {
        match process_index(ps.drop_last(), pid) {
            Some(i) => Some(i),
            None => if ps.last().id == Some(pid) {
                Some(ps.len() - 1)
            } else {
                None
            },
        }
    }
}

/// The exit status reported for a process ended or stopped by `signal`.
pub open spec fn signal_status(signal: i32) -> ExitStatus {
    ExitStatus { raw: raw_of_code((128 + signal) as i32) }
}

/// The exit status reported for a process ended or stopped by `signal`.
pub fn get_status_code_for_signal(signal: i32) -> (s: ExitStatus)
    requires
        signal <= i32::MAX - 128,
    ensures
        s == signal_status(signal),
{
    ExitStatus::from_status(128 + signal)
}

/// Whether every process of `ps` has status `s`.
fn every_status(ps: &Vec<Process>, s: ProcessStatus) -> (b: bool)
    ensures
        b == all_have_status(ps@, s),
{
    for i in 0..ps.len()
        invariant
            forall|j: int| 0 <= j < i ==> (#[trigger] ps@[j]).status == s,
    {
        if ps[i].status != s {
            return false;
        }
    }
    true
}

proof fn lemma_process_index(ps: Seq<Process>, pid: ProcessId)
    ensures
        match process_index(ps, pid) {
            Some(i) => 0 <= i < ps.len() && ps[i].id == Some(pid) && forall|j: int|
                0 <= j < i ==> (#[trigger] ps[j]).id != Some(pid),
            None => forall|j: int| 0 <= j < ps.len() ==> (#[trigger] ps[j]).id != Some(pid),
        },
    decreases ps.len(),
{
    if ps.len() > 0 {
        let init = ps.drop_last();
        lemma_process_index(init, pid);
        assert(forall|j: int| 0 <= j < init.len() ==> #[trigger] init[j] == ps[j]);
        match process_index(init, pid) {
            Some(i) => {
                assert forall|j: int| 0 <= j < i implies (#[trigger] ps[j]).id != Some(pid) by {
                    assert(init[j] == ps[j]);
                }
            },
            None => {
                assert forall|j: int| 0 <= j < ps.len() - 1 implies (#[trigger] ps[j]).id != Some(
                    pid,
                ) by {
                    assert(init[j] == ps[j]);
                }
            },
        }
    }
}

/// Whether `new` is `old` with process `pid` completed with exit status
/// `status`, which is now the job's last status.
pub open spec fn completed_process(new: Job, old: Job, pid: ProcessId, status: ExitStatus) -> bool {
    let i = process_index(old.processes@, pid).unwrap();
    &&& new.processes@ == old.processes@.update(
        i,
        Process {
            status: ProcessStatus::Completed,
            status_code: Some(status),
            ..old.processes@[i]
        },
    )
    &&& new == (Job { processes: new.processes, last_status_code: Some(status), ..old })
}

/// Whether `new` is `old` with process `pid` stopped by `signal`, whose
/// status is now the job's last status.
pub open spec fn stopped_process(new: Job, old: Job, pid: ProcessId, signal: i32) -> bool {
    let i = process_index(old.processes@, pid).unwrap();
    &&& new.processes@ == old.processes@.update(
        i,
        Process { status: ProcessStatus::Stopped, ..old.processes@[i] },
    )
    &&& new == (Job {
        processes: new.processes,
        last_status_code: Some(signal_status(signal)),
        ..old
    })
}

/// The exit status of the last process of `ps` that has one.
fn last_status_of(ps: &Vec<Process>) -> (r: Option<ExitStatus>)
    ensures
        r == last_known_status(ps@),
{
    let mut i = ps.len();
    assert(ps@.take(i as int) =~= ps@);
    while i > 0
        invariant
            i <= ps@.len(),
            last_known_status(ps@) == last_known_status(ps@.take(i as int)),
        decreases i,
    {
        assert(ps@.take(i as int).drop_last() =~= ps@.take(i - 1));
        assert(ps@.take(i as int).last() == ps@[i - 1]);
        if let Some(s) = ps[i - 1].status_code {
            return Some(s);
        }
        i = i - 1;
    }
    None
}

impl Job {
    /// A new job for the command line `input` with processes `processes`,
    /// running in the foreground, with the terminal settings `tmodes`.
    pub fn new(
        id: JobId,
        input: &str,
        pgid: Option<i32>,
        processes: Vec<Process>,
        tmodes: Option<nix::sys::termios::Termios>,
    ) -> (j: Job)
        ensures
            j.id == id,
            j.input@ == input@,
            j.pgid == pgid,
            j.processes == processes,
            j.last_status_code == last_known_status(processes@),
            j.last_running_in_foreground,
            !j.notified_stopped_job,
            j.tmodes == tmodes,
    {
        let last_status_code = last_status_of(&processes);
        Job {
            id,
            input: input.to_owned(),
            pgid,
            processes,
            last_status_code,
            last_running_in_foreground: true,
            notified_stopped_job: false,
            tmodes,
        }
    }

    /// The job number.
    pub fn id(&self) -> (r: JobId)
        ensures
            r == self.id,
    {
        self.id
    }

    /// The command line.
    pub fn input(&self) -> (s: String)
        ensures
            s@ == self.input@,
    {
        copy_string(&self.input)
    }

    /// The process group.
    pub fn pgid(&self) -> (r: Option<i32>)
        ensures
            r == self.pgid,
    {
        self.pgid
    }

    /// Stopped when all processes are stopped, completed when all are
    /// completed, running otherwise.
    pub fn status(&self) -> (s: JobStatus)
        ensures
            s == job_status(self.processes@),
    {
        if self.is_stopped() {
            JobStatus::Stopped
        } else if self.is_completed() {
            JobStatus::Completed
        } else {
            JobStatus::Running
        }
    }

    /// The processes.
    pub fn processes(&self) -> (r: &Vec<Process>)
        ensures
            *r == self.processes,
    {
        &self.processes
    }

    /// The last exit status known.
    pub fn last_status_code(&self) -> (r: Option<ExitStatus>)
        ensures
            r == self.last_status_code,
    {
        self.last_status_code
    }

    /// Whether the job last ran in the foreground.
    pub fn last_running_in_foreground(&self) -> (r: bool)
        ensures
            r == self.last_running_in_foreground,
    {
        self.last_running_in_foreground
    }

    /// The same job, last running in the foreground or not.
    pub fn set_last_running_in_foreground(self, last_running_in_foreground: bool) -> (j: Job)
        ensures
            j == (Job { last_running_in_foreground, ..self }),
    {
        Job { last_running_in_foreground, ..self }
    }

    /// Whether the user was told that the job stopped.
    pub fn notified_stopped_job(&self) -> (r: bool)
        ensures
            r == self.notified_stopped_job,
    {
        self.notified_stopped_job
    }

    /// The same job, with the user told or not that it stopped.
    pub fn set_notified_stopped_job(self, notified_stopped_job: bool) -> (j: Job)
        ensures
            j == (Job { notified_stopped_job, ..self }),
    {
        Job { notified_stopped_job, ..self }
    }

    /// The terminal settings saved for the job.
    pub fn tmodes(&self) -> (r: &Option<nix::sys::termios::Termios>)
        ensures
            *r == self.tmodes,
    {
        &self.tmodes
    }

    /// Whether every process is stopped.
    pub fn is_stopped(&self) -> (b: bool)
        ensures
            b == all_have_status(self.processes@, ProcessStatus::Stopped),
    {
        every_status(&self.processes, ProcessStatus::Stopped)
    }

    /// Whether every process is completed.
    pub fn is_completed(&self) -> (b: bool)
        ensures
            b == all_have_status(self.processes@, ProcessStatus::Completed),
    {
        every_status(&self.processes, ProcessStatus::Completed)
    }

    /// The index of the first process with identifier `pid`.
    pub fn find_process(&self, pid: ProcessId) -> (r: Option<usize>)
        ensures
            match r {
                Some(i) => process_index(self.processes@, pid) == Some(i as int) && i
                    < self.processes@.len(),
                None => process_index(self.processes@, pid) is None,
            },
    {
        proof {
            lemma_process_index(self.processes@, pid);
        }
        for i in 0..self.processes.len()
            invariant
                forall|j: int| 0 <= j < i ==> (#[trigger] self.processes@[j]).id != Some(pid),
                match process_index(self.processes@, pid) {
                    Some(k) => 0 <= k < self.processes@.len() && self.processes@[k].id == Some(
                        pid,
                    ) && forall|j: int|
                        0 <= j < k ==> (#[trigger] self.processes@[j]).id != Some(pid),
                    None => forall|j: int|
                        0 <= j < self.processes@.len() ==> (#[trigger] self.processes@[j]).id
                            != Some(pid),
                },
        {
            if self.processes[i].id == Some(pid) {
                return Some(i);
            }
        }
        None
    }

    /// Whether some process has identifier `pid`.
    pub fn has_process(&self, pid: ProcessId) -> (b: bool)
        ensures
            b == (process_index(self.processes@, pid) is Some),
    {
        self.find_process(pid).is_some()
    }

    /// The job with process `pid` completed with exit code `status_code`.
    pub fn mark_exited(self, pid: ProcessId, status_code: i32) -> (j: Job)
        requires
            process_index(self.processes@, pid) is Some,
        ensures
            completed_process(j, self, pid, ExitStatus { raw: raw_of_code(status_code) }),
    {
        let process_index = self.find_process(pid).unwrap();
        let status = ExitStatus::from_status(status_code);
        let mut job = self;
        let p = job.processes.remove(process_index);
        job.processes.insert(process_index, p.mark_exited(status));
        assert(job.processes@ =~= self.processes@.update(
            process_index as int,
            Process {
                status: ProcessStatus::Completed,
                status_code: Some(status),
                ..self.processes@[process_index as int]
            },
        ));
        Job { last_status_code: Some(status), ..job }
    }

    /// The job with process `pid` stopped by `signal`.
    pub fn mark_stopped(self, pid: ProcessId, signal: i32) -> (j: Job)
        requires
            process_index(self.processes@, pid) is Some,
            signal <= i32::MAX - 128,
        ensures
            stopped_process(j, self, pid, signal),
    {
        let process_index = self.find_process(pid).unwrap();
        let mut job = self;
        let p = job.processes.remove(process_index);
        job.processes.insert(process_index, p.mark_stopped());
        assert(job.processes@ =~= self.processes@.update(
            process_index as int,
            Process { status: ProcessStatus::Stopped, ..self.processes@[process_index as int] },
        ));
        Job { last_status_code: Some(get_status_code_for_signal(signal)), ..job }
    }

    /// The job with process `pid` ended by `signal`.
    pub fn mark_signaled(self, pid: ProcessId, signal: i32) -> (j: Job)
        requires
            process_index(self.processes@, pid) is Some,
            signal <= i32::MAX - 128,
        ensures
            completed_process(j, self, pid, signal_status(signal)),
    {
        let process_index = self.find_process(pid).unwrap();
        let status = get_status_code_for_signal(signal);
        let mut job = self;
        let p = job.processes.remove(process_index);
        job.processes.insert(process_index, p.mark_exited(status));
        assert(job.processes@ =~= self.processes@.update(
            process_index as int,
            Process {
                status: ProcessStatus::Completed,
                status_code: Some(status),
                ..self.processes@[process_index as int]
            },
        ));
        Job { last_status_code: Some(status), ..job }
    }

    /// `[id] Status\tinput`, as the shell lists a job.
    pub fn display(&self) -> (s: String)
        ensures
            s@ == seq!['['] + crate::num::decimal(self.id.0 as nat) + "] "@ + job_status_name(
                job_status(self.processes@),
            ) + seq!['\t'] + self.input@,
    {
        let mut s = String::new();
        crate::text::push_char(&mut s, '[');
        s.append(self.id.display().as_str());
        s.append("] ");
        s.append(self.status().name().as_str());
        crate::text::push_char(&mut s, '\t');
        s.append(self.input.as_str());
        s
    }
}

} // verus!
