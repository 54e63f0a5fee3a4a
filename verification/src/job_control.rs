//! The table of jobs of a shell with job control: numbering jobs, finding
//! them, recording what the system reports of their processes, and
//! deciding which jobs to report to the user.
//!
//! Waiting for processes, signalling them and handing the terminal over
//! are the caller's part; it reports each wait status back here.

use vstd::prelude::*;

use crate::errors::{Error, ErrorKind};
use crate::job::{Job, JobId, ProcessGroup, ProcessId, ProcessStatus, all_have_status, completed_process, job_status, process_index, signal_status, stopped_process};
use crate::util::raw_of_code;
use crate::num::decimal;
use crate::util::{BshExitStatusExt, ExitStatus};

verus! {

/// What waiting for a child process reported.
#[derive(Clone, Copy, Debug, PartialEq, Eq, Structural)]
pub enum WaitEvent {
    /// The process exited with this code.
    Exited(ProcessId, i32),
    /// The process was ended by this signal.
    Signaled(ProcessId, i32),
    /// The process was stopped by this signal.
    Stopped(ProcessId, i32),
    /// No process changed state.
    StillAlive,
    /// Any other report, which changes nothing.
    Other,
}

/// The jobs of the shell, the number of jobs ever created and the current
/// job.
pub struct JobManager {
    pub jobs: Vec<Job>,
    pub job_count: u32,
    pub current_job: Option<JobId>,
}

/// The ids of `jobs` increase along the table and none passes `count`:
/// each job has its own number.
pub open spec fn ids_ordered(jobs: Seq<Job>, count: u32) -> bool {
    &&& forall|i: int, j: int| 0 <= i < j < jobs.len() ==> jobs[i].id.0 < jobs[j].id.0
    &&& forall|i: int| 0 <= i < jobs.len() ==> jobs[i].id.0 <= count
}

/// The index of the job with id `id`.
pub open spec fn job_index(jobs: Seq<Job>, id: JobId) -> Option<int> {
    if exists|i: int| 0 <= i < jobs.len() && jobs[i].id == id {
        Some(choose|i: int| 0 <= i < jobs.len() && jobs[i].id == id)
    } else {
        None
    }
}

/// Whether some job has a process with identifier `pid`.
pub open spec fn owns_process(jobs: Seq<Job>, pid: ProcessId) -> bool {
    exists|i: int| 0 <= i < jobs.len() && process_index(jobs[i].processes@, pid) is Some
}

/// The jobs to report to the user: each completed job that did not last
/// run in the foreground, and each stopped job not reported yet.
pub open spec fn reported(j: Job) -> bool {
    if all_have_status(j.processes@, ProcessStatus::Completed) {
        !j.last_running_in_foreground
    } else {
        all_have_status(j.processes@, ProcessStatus::Stopped) && !j.notified_stopped_job
    }
}

/// The line a job is reported with: `[id] Status\tinput`.
pub open spec fn job_line(j: Job) -> Seq<char> {
    seq!['['] + decimal(j.id.0 as nat) + "] "@ + crate::job::job_status_name(job_status(j.processes@))
        + seq!['\t'] + j.input@
}

/// The lines reported for the jobs `js`, in order.
pub open spec fn notifications(js: Seq<Job>) -> Seq<Seq<char>>
    decreases js.len(),
{
    if js.len() == 0 {
        Seq::empty()
    } else if reported(js.last()) {
        notifications(js.drop_last()).push(job_line(js.last()))
    } else {
        notifications(js.drop_last())
    }
}

/// The jobs of `js` that are not completed, in order.
pub open spec fn unfinished(js: Seq<Job>) -> Seq<Job> {
    js.filter(|j: Job| !all_have_status(j.processes@, ProcessStatus::Completed))
}

/// Which job `fg` or `bg` acts on.
pub enum Target {
    /// No job was named and there is no current job.
    NoCurrent,
    /// The job named is not in the table.
    Missing(JobId),
    /// The job at this index.
    Found(int),
}

/// The job that `fg` or `bg` acts on: `job_id`, else the current job.
pub open spec fn target(jobs: Seq<Job>, current: Option<JobId>, job_id: Option<JobId>) -> Target {
    let named = match job_id {
        Some(id) => Some(id),
        None => current,
    };
    match named {
        None => Target::NoCurrent,
        Some(id) => match job_index(jobs, id) {
            Some(i) => Target::Found(i),
            None => Target::Missing(id),
        },
    }
}

/// Whether `r` is the answer for the target `t`: its index when found,
/// else "no such job" naming `current` or the job number.
pub open spec fn answers_target(t: Target, r: Result<usize, Error>) -> bool {
    match t {
        Target::NoCurrent => r matches Err(e) && e.kind matches ErrorKind::NoSuchJob(j) && j@
            == "current"@,
        Target::Missing(id) => r matches Err(e) && e.kind matches ErrorKind::NoSuchJob(j) && j@
            == decimal(id.0 as nat),
        Target::Found(i) => r == Ok::<usize, Error>(i as usize),
    }
}

impl Default for JobManager {
    fn default() -> (m: JobManager)
        ensures
            m.jobs@.len() == 0,
            m.job_count == 0,
            m.current_job is None,
    {
        JobManager { jobs: Vec::new(), job_count: 0, current_job: None }
    }
}

impl JobManager {
    /// The table is well formed: job ids increase along the table.
    pub open spec fn well_formed(&self) -> bool {
        ids_ordered(self.jobs@, self.job_count)
    }

    /// Adds a job for the command line `input` with the processes of
    /// `process_group`; its id is the next job number.
    pub fn create_job(
        &mut self,
        input: &str,
        process_group: ProcessGroup,
        tmodes: Option<nix::sys::termios::Termios>,
    ) -> (id: JobId)
        requires
            old(self).well_formed(),
            old(self).job_count < u32::MAX,
        ensures
            final(self).well_formed(),
            id.0 == old(self).job_count + 1,
            final(self).job_count == id.0,
            final(self).current_job == old(self).current_job,
            final(self).jobs@.len() == old(self).jobs@.len() + 1,
            final(self).jobs@.drop_last() == old(self).jobs@,
            job_index(final(self).jobs@, id) == Some(final(self).jobs@.len() - 1),
            ({
                let j = final(self).jobs@.last();
                &&& j.id == id
                &&& j.input@ == input@
                &&& j.processes == process_group.processes
                &&& j.pgid == match process_group.id {
                    Some(p) => Some(p as i32),
                    None => None::<i32>,
                }
                &&& j.last_running_in_foreground
                &&& !j.notified_stopped_job
            }),
    {
        let job_id = self.get_next_job_id();
        let pgid = match process_group.id {
            Some(p) => Some(p as i32),
            None => None,
        };
        let job = Job::new(job_id, input, pgid, process_group.processes, tmodes);
        let ghost before = self.jobs@;
        self.jobs.push(job);
        assert(self.jobs@.drop_last() =~= before);
        proof {
            let n = self.jobs@.len() - 1;
            assert(self.jobs@[n].id == job_id);
            assert forall|i: int| 0 <= i < self.jobs@.len() && self.jobs@[i].id == job_id implies i
                == n by {
                if i < n {
                    assert(self.jobs@[i] == before[i]);
                }
            }
        }
        job_id
    }

    /// Whether the table holds a job.
    pub fn has_jobs(&self) -> (b: bool)
        ensures
            b == (self.jobs@.len() > 0),
    {
        self.jobs.len() > 0
    }

    /// The jobs.
    pub fn get_jobs(&self) -> (r: &Vec<Job>)
        ensures
            *r == self.jobs,
    {
        &self.jobs
    }

    /// The next job number.
    fn get_next_job_id(&mut self) -> (id: JobId)
        requires
            old(self).well_formed(),
            old(self).job_count < u32::MAX,
        ensures
            id.0 == old(self).job_count + 1,
            final(self).job_count == id.0,
            final(self).jobs == old(self).jobs,
            final(self).current_job == old(self).current_job,
            forall|i: int| 0 <= i < final(self).jobs@.len() ==> final(self).jobs@[i].id.0 < id.0,
    {
        self.job_count = self.job_count + 1;
        JobId(self.job_count)
    }

    /// The index of the job with id `job_id`.
    pub fn find_job(&self, job_id: JobId) -> (r: Option<usize>)
        requires
            self.well_formed(),
        ensures
            match r {
                Some(i) => i < self.jobs@.len() && self.jobs@[i as int].id == job_id
                    && job_index(self.jobs@, job_id) == Some(i as int),
                None => job_index(self.jobs@, job_id) is None,
            },
    {
        for i in 0..self.jobs.len()
            invariant
                self.well_formed(),
                forall|k: int| 0 <= k < i ==> (#[trigger] self.jobs@[k]).id != job_id,
        {
            if self.jobs[i].id == job_id {
                proof {
                    let k = choose|k: int| 0 <= k < self.jobs@.len() && self.jobs@[k].id == job_id;
                    if k != i {
                        if k < i {
                            assert(self.jobs@[k].id != job_id);
                        } else {
                            assert(self.jobs@[i as int].id.0 < self.jobs@[k].id.0);
                        }
                    }
                }
                return Some(i);
            }
        }
        None
    }

    /// The index of the job that has process `pid`.
    pub fn find_job_with_process(&self, pid: ProcessId) -> (r: Option<usize>)
        ensures
            match r {
                Some(i) => i < self.jobs@.len() && process_index(self.jobs@[i as int].processes@, pid) is Some
                    && forall|k: int| 0 <= k < i ==> process_index((#[trigger] self.jobs@[k]).processes@, pid) is None,
                None => !owns_process(self.jobs@, pid),
            },
    {
        for i in 0..self.jobs.len()
            invariant
                forall|k: int| 0 <= k < i ==> process_index((#[trigger] self.jobs@[k]).processes@, pid) is None,
        {
            if self.jobs[i].has_process(pid) {
                return Some(i);
            }
        }
        None
    }

    /// Whether every process of job `job_id` is stopped.
    pub fn job_is_stopped(&self, job_id: JobId) -> (b: bool)
        requires
            self.well_formed(),
            job_index(self.jobs@, job_id) is Some,
        ensures
            b == all_have_status(
                self.jobs@[job_index(self.jobs@, job_id).unwrap()].processes@,
                ProcessStatus::Stopped,
            ),
    {
        let i = self.find_job(job_id).unwrap();
        self.jobs[i].is_stopped()
    }

    /// Whether every process of job `job_id` is completed.
    pub fn job_is_completed(&self, job_id: JobId) -> (b: bool)
        requires
            self.well_formed(),
            job_index(self.jobs@, job_id) is Some,
        ensures
            b == all_have_status(
                self.jobs@[job_index(self.jobs@, job_id).unwrap()].processes@,
                ProcessStatus::Completed,
            ),
    {
        let i = self.find_job(job_id).unwrap();
        self.jobs[i].is_completed()
    }

    /// The last exit status known of job `job_id`.
    pub fn last_status_code(&self, job_id: JobId) -> (r: Option<ExitStatus>)
        requires
            self.well_formed(),
            job_index(self.jobs@, job_id) is Some,
        ensures
            r == self.jobs@[job_index(self.jobs@, job_id).unwrap()].last_status_code,
    {
        let i = self.find_job(job_id).unwrap();
        self.jobs[i].last_status_code
    }

    /// The index of the job that `fg` or `bg` acts on: `job_id`, else the
    /// current job; no such job otherwise.
    pub fn target_job(&self, job_id: Option<JobId>) -> (r: Result<usize, Error>)
        requires
            self.well_formed(),
        ensures
            answers_target(target(self.jobs@, self.current_job, job_id), r),
            r matches Ok(i) ==> i < self.jobs@.len(),
    {
        let id = match job_id {
            Some(id) => id,
            None => match self.current_job {
                Some(id) => id,
                None => {
                    return Err(Error::no_such_job("current"));
                },
            },
        };
        match self.find_job(id) {
            Some(i) => Ok(i),
            None => Err(Error::no_such_job(id.display().as_str())),
        }
    }

    /// Marks the job that `fg` names as running in the foreground; its
    /// index, for the caller to hand it the terminal and wait for it.
    pub fn put_job_in_foreground(&mut self, job_id: Option<JobId>) -> (r: Result<usize, Error>)
        requires
            old(self).well_formed(),
        ensures
            final(self).well_formed(),
            answers_target(target(old(self).jobs@, old(self).current_job, job_id), r),
            final(self).job_count == old(self).job_count,
            final(self).current_job == old(self).current_job,
            match r {
                Ok(i) => i < old(self).jobs@.len() && final(self).jobs@ == old(self).jobs@.update(
                    i as int,
                    Job { last_running_in_foreground: true, ..old(self).jobs@[i as int] },
                ),
                Err(_) => final(self).jobs@ == old(self).jobs@,
            },
    {
        let i = self.target_job(job_id)?;
        self.set_foreground(i, true);
        Ok(i)
    }

    /// Marks the job that `bg` names as running in the background and makes
    /// it the current job; its index, for the caller to continue it.
    pub fn put_job_in_background(&mut self, job_id: Option<JobId>) -> (r: Result<usize, Error>)
        requires
            old(self).well_formed(),
        ensures
            final(self).well_formed(),
            answers_target(target(old(self).jobs@, old(self).current_job, job_id), r),
            final(self).job_count == old(self).job_count,
            match r {
                Ok(i) => {
                    &&& i < old(self).jobs@.len()
                    &&& final(self).jobs@ == old(self).jobs@.update(
                        i as int,
                        Job { last_running_in_foreground: false, ..old(self).jobs@[i as int] },
                    )
                    &&& final(self).current_job == Some(old(self).jobs@[i as int].id)
                },
                Err(_) => final(self).jobs@ == old(self).jobs@ && final(self).current_job
                    == old(self).current_job,
            },
    {
        let i = self.target_job(job_id)?;
        self.set_foreground(i, false);
        self.current_job = Some(self.jobs[i].id);
        Ok(i)
    }

    /// Sets whether job `i` last ran in the foreground.
    fn set_foreground(&mut self, i: usize, foreground: bool)
        requires
            old(self).well_formed(),
            i < old(self).jobs@.len(),
        ensures
            final(self).well_formed(),
            final(self).job_count == old(self).job_count,
            final(self).current_job == old(self).current_job,
            final(self).jobs@ == old(self).jobs@.update(
                i as int,
                Job { last_running_in_foreground: foreground, ..old(self).jobs@[i as int] },
            ),
    {
        let job = self.jobs.remove(i);
        let job = job.set_last_running_in_foreground(foreground);
        self.jobs.insert(i, job);
        assert(self.jobs@ =~= old(self).jobs@.update(
            i as int,
            Job { last_running_in_foreground: foreground, ..old(self).jobs@[i as int] },
        ));
    }

    /// Records what waiting reported: an exit or an ending signal completes
    /// the process, a stop marks it stopped and makes its job current.
    pub fn mark_process_status(&mut self, event: WaitEvent)
        requires
            old(self).well_formed(),
            event != WaitEvent::StillAlive,
            event matches WaitEvent::Exited(pid, _) ==> owns_process(old(self).jobs@, pid),
            event matches WaitEvent::Signaled(pid, sig) ==> owns_process(old(self).jobs@, pid)
                && sig <= i32::MAX - 128,
            event matches WaitEvent::Stopped(pid, sig) ==> owns_process(old(self).jobs@, pid)
                && sig <= i32::MAX - 128,
        ensures
            final(self).well_formed(),
            final(self).job_count == old(self).job_count,
            final(self).jobs@.len() == old(self).jobs@.len(),
            match event {
                WaitEvent::Exited(pid, code) => owner_changed(
                    old(self).jobs@,
                    final(self).jobs@,
                    pid,
                    |n: Job, o: Job| completed_process(n, o, pid, ExitStatus { raw: raw_of_code(code) }),
                ) && final(self).current_job == old(self).current_job,
                WaitEvent::Signaled(pid, sig) => owner_changed(
                    old(self).jobs@,
                    final(self).jobs@,
                    pid,
                    |n: Job, o: Job| completed_process(n, o, pid, signal_status(sig)),
                ) && final(self).current_job == old(self).current_job,
                WaitEvent::Stopped(pid, sig) => owner_changed(
                    old(self).jobs@,
                    final(self).jobs@,
                    pid,
                    |n: Job, o: Job| stopped_process(n, o, pid, sig),
                ) && final(self).current_job == Some(
                    old(self).jobs@[first_owner(old(self).jobs@, pid)].id,
                ),
                _ => final(self).jobs@ == old(self).jobs@ && final(self).current_job
                    == old(self).current_job,
            },
    {
        match event {
            WaitEvent::Exited(pid, code) => self.record_exited(pid, code),
            WaitEvent::Signaled(pid, sig) => self.record_signaled(pid, sig),
            WaitEvent::Stopped(pid, sig) => self.record_stopped(pid, sig),
            _ => {},
        }
    }

    /// Records that process `pid` exited with `code`.
    fn record_exited(&mut self, pid: ProcessId, code: i32)
        requires
            old(self).well_formed(),
            owns_process(old(self).jobs@, pid),
        ensures
            final(self).well_formed(),
            final(self).job_count == old(self).job_count,
            final(self).current_job == old(self).current_job,
            owner_changed(
                old(self).jobs@,
                final(self).jobs@,
                pid,
                |n: Job, o: Job| completed_process(n, o, pid, ExitStatus { raw: raw_of_code(code) }),
            ),
    {
        let i = self.owner_of(pid);
        let job = self.jobs.remove(i);
        let updated = job.mark_exited(pid, code);
        let ghost changed = updated;
        self.jobs.insert(i, updated);
        proof {
            assert(self.jobs@ =~= old(self).jobs@.update(i as int, changed));
            self.lemma_same_ids(old(self).jobs@, i as int);
        }
    }

    /// Records that process `pid` was ended by signal `sig`.
    #[verifier::spinoff_prover]
    #[verifier::rlimit(40)]
    fn record_signaled(&mut self, pid: ProcessId, sig: i32)
        requires
            old(self).well_formed(),
            owns_process(old(self).jobs@, pid),
            sig <= i32::MAX - 128,
        ensures
            final(self).well_formed(),
            final(self).job_count == old(self).job_count,
            final(self).current_job == old(self).current_job,
            owner_changed(
                old(self).jobs@,
                final(self).jobs@,
                pid,
                |n: Job, o: Job| completed_process(n, o, pid, signal_status(sig)),
            ),
    {
        let i = self.owner_of(pid);
        let job = self.jobs.remove(i);
        let updated = job.mark_signaled(pid, sig);
        let ghost changed = updated;
        self.jobs.insert(i, updated);
        proof {
            assert(self.jobs@ =~= old(self).jobs@.update(i as int, changed));
            self.lemma_same_ids(old(self).jobs@, i as int);
        }
    }

    /// Records that process `pid` was stopped by signal `sig`; its job
    /// becomes the current job.
    fn record_stopped(&mut self, pid: ProcessId, sig: i32)
        requires
            old(self).well_formed(),
            owns_process(old(self).jobs@, pid),
            sig <= i32::MAX - 128,
        ensures
            final(self).well_formed(),
            final(self).job_count == old(self).job_count,
            final(self).current_job == Some(old(self).jobs@[first_owner(old(self).jobs@, pid)].id),
            owner_changed(
                old(self).jobs@,
                final(self).jobs@,
                pid,
                |n: Job, o: Job| stopped_process(n, o, pid, sig),
            ),
    {
        let i = self.owner_of(pid);
        let job = self.jobs.remove(i);
        let updated = job.mark_stopped(pid, sig);
        let ghost changed = updated;
        self.jobs.insert(i, updated);
        proof {
            assert(self.jobs@ =~= old(self).jobs@.update(i as int, changed));
            self.lemma_same_ids(old(self).jobs@, i as int);
        }
        self.current_job = Some(self.jobs[i].id);
    }

    /// The index of the first job that has process `pid`.
    fn owner_of(&self, pid: ProcessId) -> (i: usize)
        requires
            owns_process(self.jobs@, pid),
        ensures
            i == first_owner(self.jobs@, pid),
            i < self.jobs@.len(),
            process_index(self.jobs@[i as int].processes@, pid) is Some,
    {
        match self.find_job_with_process(pid) {
            Some(i) => {
                proof {
                    let f = first_owner(self.jobs@, pid);
                    assert(0 <= f < self.jobs@.len() && process_index(self.jobs@[f].processes@, pid) is Some);
                    if f < i {
                        assert(process_index(self.jobs@[f].processes@, pid) is None);
                    }
                }
                i
            },
            None => {
                proof {
                    let f = first_owner(self.jobs@, pid);
                    assert(process_index(self.jobs@[f].processes@, pid) is Some);
                }
                0
            },
        }
    }

    /// After job `i` of `before` is replaced by one with the same id, the
    /// table stays well formed.
    proof fn lemma_same_ids(&self, before: Seq<Job>, i: int)
        requires
            ids_ordered(before, self.job_count),
            0 <= i < before.len(),
            self.jobs@.len() == before.len(),
            self.jobs@[i].id == before[i].id,
            forall|k: int| 0 <= k < before.len() && k != i ==> self.jobs@[k] == before[k],
        ensures
            self.well_formed(),
    {
        assert forall|a: int, b: int| 0 <= a < b < self.jobs@.len() implies self.jobs@[a].id.0
            < self.jobs@[b].id.0 by {
            assert(self.jobs@[a].id == before[a].id);
            assert(self.jobs@[b].id == before[b].id);
        }
        assert forall|a: int| 0 <= a < self.jobs@.len() implies self.jobs@[a].id.0
            <= self.job_count by {
            assert(self.jobs@[a].id == before[a].id);
        }
    }

    /// Takes job `job_id` out of the table, once the caller has killed its
    /// processes; `None` when there is no such job.
    pub fn kill_job(&mut self, job_id: JobId) -> (r: Option<Job>)
        requires
            old(self).well_formed(),
        ensures
            final(self).well_formed(),
            final(self).job_count == old(self).job_count,
            final(self).current_job == old(self).current_job,
            match job_index(old(self).jobs@, job_id) {
                Some(i) => r == Some(old(self).jobs@[i]) && final(self).jobs@ == old(self).jobs@.remove(i),
                None => r is None && final(self).jobs@ == old(self).jobs@,
            },
    {
        match self.find_job(job_id) {
            Some(i) => {
                let job = self.jobs.remove(i);
                proof {
                    let before = old(self).jobs@;
                    assert forall|a: int, b: int| 0 <= a < b < self.jobs@.len() implies self.jobs@[a].id.0
                        < self.jobs@[b].id.0 by {
                        let a0 = if a < i { a } else { a + 1 };
                        let b0 = if b < i { b } else { b + 1 };
                        assert(self.jobs@[a] == before[a0]);
                        assert(self.jobs@[b] == before[b0]);
                    }
                    assert forall|a: int| 0 <= a < self.jobs@.len() implies self.jobs@[a].id.0
                        <= self.job_count by {
                        let a0 = if a < i { a } else { a + 1 };
                        assert(self.jobs@[a] == before[a0]);
                    }
                }
                Some(job)
            },
            None => None,
        }
    }

    /// Reports stopped and finished jobs: the lines to print (each finished
    /// job that did not last run in the foreground, each stopped job not
    /// reported before, which is then marked reported), then drops the
    /// finished jobs.
    pub fn job_notifications(&mut self) -> (lines: Vec<String>)
        requires
            old(self).well_formed(),
        ensures
            final(self).well_formed(),
            final(self).job_count == old(self).job_count,
            final(self).current_job == old(self).current_job,
            crate::text::views(lines@) == notifications(old(self).jobs@),
            final(self).jobs@.len() == unfinished(old(self).jobs@).len(),
            forall|k: int|
                0 <= k < final(self).jobs@.len() ==> !all_have_status(
                    (#[trigger] final(self).jobs@[k]).processes@,
                    ProcessStatus::Completed,
                ),
            forall|k: int| 0 <= k < final(self).jobs@.len() ==> {
                let o = #[trigger] unfinished(old(self).jobs@)[k];
                let n = final(self).jobs@[k];
                &&& n.id == o.id
                &&& n.processes == o.processes
                &&& n.input == o.input
                &&& n.notified_stopped_job == (o.notified_stopped_job || all_have_status(
                    o.processes@,
                    ProcessStatus::Stopped,
                ))
            },
    {
        let ghost before = old(self).jobs@;
        let mut lines: Vec<String> = Vec::new();
        let mut kept: Vec<Job> = Vec::new();
        let mut rest: Vec<Job> = Vec::new();
        std::mem::swap(&mut rest, &mut self.jobs);
        assert(rest@ == before);
        let n = rest.len();
        let mut i: usize = 0;
        while i < n
            invariant
                n == before.len(),
                i <= n,
                rest@ == before.skip(i as int),
                crate::text::views(lines@) == notifications(before.take(i as int)),
                kept@.len() == unfinished(before.take(i as int)).len(),
                forall|k: int| 0 <= k < kept@.len() ==> {
                    let o = #[trigger] unfinished(before.take(i as int))[k];
                    let m = kept@[k];
                    &&& m.id == o.id
                    &&& m.processes == o.processes
                    &&& m.input == o.input
                    &&& m.notified_stopped_job == (o.notified_stopped_job || all_have_status(
                        o.processes@,
                        ProcessStatus::Stopped,
                    ))
                },
            decreases n - i,
        {
            let job = rest.remove(0);
            assert(job == before[i as int]);
            assert(before.skip(i as int).drop_first() =~= before.skip(i + 1));
            let ghost lb = crate::text::views(lines@);
            let ghost kb = kept@;
            assert(before.take(i + 1).drop_last() =~= before.take(i as int));
            assert(before.take(i + 1).last() == job);
            let completed = job.is_completed();
            if completed {
                if !job.last_running_in_foreground {
                    lines.push(job.display());
                    assert(crate::text::views(lines@) =~= lb.push(job_line(job)));
                }
            } else if job.is_stopped() && !job.notified_stopped_job {
                lines.push(job.display());
                assert(crate::text::views(lines@) =~= lb.push(job_line(job)));
            }
            proof {
                assert(before.take(i + 1) =~= before.take(i as int).push(job));
                lemma_unfinished_push(before.take(i as int), job);
            }
            if !completed {
                let stopped = job.is_stopped();
                let updated = if stopped && !job.notified_stopped_job {
                    job.set_notified_stopped_job(true)
                } else {
                    job
                };
                kept.push(updated);
                proof {
                    assert forall|k: int| 0 <= k < kept@.len() implies {
                        let o = #[trigger] unfinished(before.take(i + 1))[k];
                        let m = kept@[k];
                        &&& m.id == o.id
                        &&& m.processes == o.processes
                        &&& m.input == o.input
                        &&& m.notified_stopped_job == (o.notified_stopped_job || all_have_status(
                            o.processes@,
                            ProcessStatus::Stopped,
                        ))
                    } by {
                        if k < kb.len() {
                            assert(kept@[k] == kb[k]);
                            assert(unfinished(before.take(i + 1))[k] == unfinished(before.take(i as int))[k]);
                        }
                    }
                }
            }
            i = i + 1;
        }
        assert(before.take(n as int) =~= before);
        self.jobs = kept;
        proof {
            lemma_unfinished_ordered(before, self.job_count);
            lemma_unfinished_not_completed(before);
            let u = unfinished(before);
            assert forall|k: int| 0 <= k < self.jobs@.len() implies !all_have_status(
                (#[trigger] self.jobs@[k]).processes@,
                ProcessStatus::Completed,
            ) by {
                assert(self.jobs@[k].processes == u[k].processes);
            }
            assert forall|a: int, b: int| 0 <= a < b < self.jobs@.len() implies self.jobs@[a].id.0
                < self.jobs@[b].id.0 by {
                assert(self.jobs@[a].id == u[a].id);
                assert(self.jobs@[b].id == u[b].id);
            }
            assert forall|a: int| 0 <= a < self.jobs@.len() implies self.jobs@[a].id.0
                <= self.job_count by {
                assert(self.jobs@[a].id == u[a].id);
            }
        }
        lines
    }
}

/// The index of the first job of `jobs` with process `pid`.
pub open spec fn first_owner(jobs: Seq<Job>, pid: ProcessId) -> int {
    choose|i: int| 0 <= i < jobs.len() && process_index(jobs[i].processes@, pid) is Some && forall|
        k: int,
    | 0 <= k < i ==> process_index(#[trigger] jobs[k].processes@, pid) is None
}

/// `after` is `before` with the first job owning `pid` changed as `change`
/// says, every other job kept.
pub open spec fn owner_changed(
    before: Seq<Job>,
    after: Seq<Job>,
    pid: ProcessId,
    change: spec_fn(Job, Job) -> bool,
) -> bool {
    let i = first_owner(before, pid);
    &&& after.len() == before.len()
    &&& change(after[i], before[i])
    &&& forall|k: int| 0 <= k < before.len() && k != i ==> after[k] == before[k]
}

proof fn lemma_unfinished_ordered(js: Seq<Job>, c: u32)
    requires
        ids_ordered(js, c),
    ensures
        ids_ordered(unfinished(js), c),
        forall|k: int|
            0 <= k < unfinished(js).len() ==> exists|m: int|
                0 <= m < js.len() && #[trigger] unfinished(js)[k] == js[m],
    decreases js.len(),
{
    if js.len() > 0 {
        let init = js.drop_last();
        let last = js.last();
        assert(js =~= init.push(last));
        assert(ids_ordered(init, c)) by {
            assert forall|a: int, b: int| 0 <= a < b < init.len() implies init[a].id.0
                < init[b].id.0 by {
                assert(init[a] == js[a] && init[b] == js[b]);
            }
            assert forall|a: int| 0 <= a < init.len() implies init[a].id.0 <= c by {
                assert(init[a] == js[a]);
            }
        }
        lemma_unfinished_ordered(init, c);
        lemma_unfinished_push(init, last);
        let u0 = unfinished(init);
        assert forall|k: int| 0 <= k < u0.len() implies #[trigger] u0[k].id.0 < last.id.0 by {
            let m = choose|m: int| 0 <= m < init.len() && u0[k] == init[m];
            assert(init[m] == js[m]);
        }
        if !all_have_status(last.processes@, ProcessStatus::Completed) {
            let u = unfinished(js);
            assert(u == u0.push(last));
            assert forall|a: int, b: int| 0 <= a < b < u.len() implies u[a].id.0 < u[b].id.0 by {
                if b < u0.len() {
                    assert(u[a] == u0[a] && u[b] == u0[b]);
                } else {
                    assert(u[a] == u0[a]);
                }
            }
            assert forall|k: int| 0 <= k < u.len() implies exists|m: int|
                0 <= m < js.len() && #[trigger] u[k] == js[m] by {
                if k < u0.len() {
                    let m = choose|m: int| 0 <= m < init.len() && u0[k] == init[m];
                    assert(u[k] == js[m]);
                } else {
                    assert(u[k] == js[js.len() - 1]);
                }
            }
            assert forall|a: int| 0 <= a < u.len() implies u[a].id.0 <= c by {
                if a < u0.len() {
                    assert(u[a] == u0[a]);
                } else {
                    assert(u[a] == js[js.len() - 1]);
                }
            }
        } else {
            assert forall|k: int| 0 <= k < u0.len() implies exists|m: int|
                0 <= m < js.len() && #[trigger] u0[k] == js[m] by {
                let m = choose|m: int| 0 <= m < init.len() && u0[k] == init[m];
                assert(u0[k] == js[m]);
            }
        }
    }
}

proof fn lemma_unfinished_not_completed(js: Seq<Job>)
    ensures
        forall|k: int|
            0 <= k < unfinished(js).len() ==> !all_have_status(
                (#[trigger] unfinished(js)[k]).processes@,
                ProcessStatus::Completed,
            ),
    decreases js.len(),
{
    if js.len() > 0 {
        let init = js.drop_last();
        assert(js =~= init.push(js.last()));
        lemma_unfinished_not_completed(init);
        lemma_unfinished_push(init, js.last());
        let u0 = unfinished(init);
        let u = unfinished(js);
        assert forall|k: int| 0 <= k < u.len() implies !all_have_status(
            (#[trigger] u[k]).processes@,
            ProcessStatus::Completed,
        ) by {
            if k < u0.len() {
                assert(u[k] == u0[k]);
            }
        }
    }
}

/// A job taken out of the table by `kill` is no longer found, and every
/// other job still is.
pub proof fn lemma_killed_job_is_gone(m: JobManager, id: JobId, i: int, other: JobId)
    requires
        m.well_formed(),
        job_index(m.jobs@, id) == Some(i),
        other != id,
    ensures
        job_index(m.jobs@.remove(i), id) is None,
        job_index(m.jobs@, other) is Some <==> job_index(m.jobs@.remove(i), other) is Some,
{
    let js = m.jobs@;
    let rs = js.remove(i);
    assert(0 <= i < js.len() && js[i].id == id);
    assert forall|k: int| 0 <= k < rs.len() implies #[trigger] rs[k].id != id by {
        let k0 = if k < i { k } else { k + 1 };
        assert(rs[k] == js[k0]);
        if k0 < i {
            assert(js[k0].id.0 < js[i].id.0);
        } else {
            assert(js[i].id.0 < js[k0].id.0);
        }
    }
    if job_index(js, other) is Some {
        let k = choose|k: int| 0 <= k < js.len() && js[k].id == other;
        let k1 = if k < i { k } else { k - 1 };
        assert(k != i);
        assert(rs[k1] == js[k]);
    }
    if job_index(rs, other) is Some {
        let k = choose|k: int| 0 <= k < rs.len() && rs[k].id == other;
        let k0 = if k < i { k } else { k + 1 };
        assert(rs[k] == js[k0]);
    }
}

/// The job that `bg` moved to the background becomes the current job: `fg`
/// or `bg` without an argument then acts on that same job.
pub proof fn lemma_background_job_is_current(
    m: JobManager,
    job_id: Option<JobId>,
    i: int,
    after: JobManager,
)
    requires
        m.well_formed(),
        target(m.jobs@, m.current_job, job_id) == Target::Found(i),
        after.jobs@ == m.jobs@.update(i, Job { last_running_in_foreground: false, ..m.jobs@[i] }),
        after.current_job == Some(m.jobs@[i].id),
    ensures
        target(after.jobs@, after.current_job, None) == Target::Found(i),
{
    let id = match job_id {
        Some(id) => id,
        None => m.current_job.unwrap(),
    };
    let old_jobs = m.jobs@;
    let new_jobs = after.jobs@;
    assert(0 <= i < old_jobs.len() && old_jobs[i].id == id);
    assert(new_jobs[i].id == id);
    assert forall|k: int| 0 <= k < new_jobs.len() && new_jobs[k].id == id implies k == i by {
        assert(new_jobs[k].id == old_jobs[k].id);
        if k < i {
            assert(old_jobs[k].id.0 < old_jobs[i].id.0);
        } else if k > i {
            assert(old_jobs[i].id.0 < old_jobs[k].id.0);
        }
    }
}

proof fn lemma_unfinished_push(js: Seq<Job>, j: Job)
    ensures
        unfinished(js.push(j)) == if all_have_status(j.processes@, ProcessStatus::Completed) {
            unfinished(js)
        } else {
            unfinished(js).push(j)
        },
{
    assert(js.push(j).drop_last() =~= js);
    reveal(Seq::filter);
}

/// The exit status recorded for a process that exited with a code or was
/// ended by a signal (128 plus the signal number).
pub fn exit_status_of(event: WaitEvent) -> (s: ExitStatus)
    requires
        event matches WaitEvent::Exited(_, _) || event matches WaitEvent::Signaled(_, _),
        event matches WaitEvent::Signaled(_, sig) ==> sig <= i32::MAX - 128,
    ensures
        match event {
            WaitEvent::Exited(_, code) => s.raw == raw_of_code(code),
            WaitEvent::Signaled(_, sig) => s == signal_status(sig),
            _ => false,
        },
{
    match event {
        WaitEvent::Exited(_, code) => ExitStatus::from_status(code),
        WaitEvent::Signaled(_, sig) => crate::job::get_status_code_for_signal(sig),
        _ => ExitStatus::from_status(0),
    }
}

} // verus!
