//! The first job table: background jobs numbered from 1, the numbering
//! starting over once every job has finished.

use vstd::prelude::*;

use crate::text::copy_string;
use crate::util::{ExitStatus, status_code, status_signal};

verus! {

/// A job running in the background: its command line and its number.
#[derive(Debug)]
pub struct BackgroundJob {
    pub command: String,
    pub idx: u32,
}

/// The background jobs and the number of the last one started.
#[derive(Debug)]
pub struct BackgroundJobManager {
    pub jobs: Vec<BackgroundJob>,
    pub job_count: u32,
}

/// Job numbers increase along `jobs` and none passes `count`; `count` is 0
/// when there is no job.
pub open spec fn numbering_ok(jobs: Seq<BackgroundJob>, count: u32) -> bool {
    &&& forall|i: int, j: int| 0 <= i < j < jobs.len() ==> jobs[i].idx < jobs[j].idx
    &&& forall|i: int| 0 <= i < jobs.len() ==> jobs[i].idx <= count
    &&& jobs.len() == 0 ==> count == 0
}

/// The count after jobs were taken out, leaving `jobs`: 0 when none is
/// left, else unchanged.
pub open spec fn count_after_removal(jobs: Seq<BackgroundJob>, count: u32) -> u32 {
    if jobs.len() == 0 {
        0
    } else {
        count
    }
}

/// What one call does to the table and its count: `add_job` appends a job
/// numbered one past the count; `kill_job` takes out one job or none;
/// `remove_finished` keeps the jobs not flagged. Taking jobs out resets the
/// count when no job is left.
pub open spec fn bg_step(a: (Seq<BackgroundJob>, u32), b: (Seq<BackgroundJob>, u32)) -> bool {
    let (jobs, count) = a;
    let (next, next_count) = b;
    ||| {
        &&& count < u32::MAX
        &&& next_count == count + 1
        &&& next.len() == jobs.len() + 1
        &&& next.drop_last() == jobs
        &&& next.last().idx == next_count
    }
    ||| {
        &&& (next == jobs || exists|i: int| 0 <= i < jobs.len() && next == jobs.remove(i))
        &&& next_count == count_after_removal(next, count)
    }
    ||| {
        &&& exists|f: Seq<bool>| f.len() == jobs.len() && next == filter_flagged(jobs, f, false)
        &&& next_count == count_after_removal(next, count)
    }
}

impl Default for BackgroundJobManager {
    fn default() -> (m: BackgroundJobManager)
        ensures
            m.jobs@.len() == 0,
            m.job_count == 0,
    {
        BackgroundJobManager { jobs: Vec::new(), job_count: 0 }
    }
}

impl BackgroundJobManager {
    /// Job numbers increase along the table and none passes the count; the
    /// count is 0 when there is no job.
    pub open spec fn well_formed(&self) -> bool {
        numbering_ok(self.jobs@, self.job_count)
    }

    /// Whether a job runs in the background.
    pub fn has_jobs(&self) -> (b: bool)
        ensures
            b == (self.jobs@.len() > 0),
    {
        self.jobs.len() > 0
    }

    /// Adds a background job for `command`; its number is one more than
    /// the last one's. The job keeps `command` as its command line; the
    /// table holds no process, and announcing the job (its number and
    /// process) is left to the caller.
    pub fn add_job(&mut self, command: &str) -> (idx: u32)
        requires
            old(self).well_formed(),
            old(self).job_count < u32::MAX,
        ensures
            final(self).well_formed(),
            idx == old(self).job_count + 1,
            final(self).job_count == idx,
            final(self).jobs@.len() == old(self).jobs@.len() + 1,
            final(self).jobs@.drop_last() == old(self).jobs@,
            final(self).jobs@.last().idx == idx,
            final(self).jobs@.last().command@ == command@,
            bg_step((old(self).jobs@, old(self).job_count), (final(self).jobs@, final(self).job_count)),
    {
        self.job_count = self.job_count + 1;
        let ghost before = self.jobs@;
        self.jobs.push(BackgroundJob { command: command.to_owned(), idx: self.job_count });
        assert(self.jobs@.drop_last() =~= before);
        self.job_count
    }

    /// Takes job `job_id` out of the table, once the caller has killed it;
    /// the numbering starts over when no job is left.
    pub fn kill_job(&mut self, job_id: u32) -> (r: Option<BackgroundJob>)
        requires
            old(self).well_formed(),
        ensures
            final(self).well_formed(),
            match r {
                Some(job) => exists|i: int|
                    0 <= i < old(self).jobs@.len() && old(self).jobs@[i].idx == job_id && job
                        == old(self).jobs@[i] && final(self).jobs@ == old(self).jobs@.remove(i),
                None => final(self).jobs@ == old(self).jobs@ && forall|i: int|
                    0 <= i < old(self).jobs@.len() ==> old(self).jobs@[i].idx != job_id,
            },
            final(self).jobs@.len() > 0 ==> final(self).job_count == old(self).job_count,
            bg_step((old(self).jobs@, old(self).job_count), (final(self).jobs@, final(self).job_count)),
    {
        let mut n: usize = 0;
        while n < self.jobs.len()
            invariant
                old(self).well_formed(),
                self.jobs == old(self).jobs,
                self.job_count == old(self).job_count,
                forall|i: int| 0 <= i < n ==> self.jobs@[i].idx != job_id,
            decreases self.jobs@.len() - n,
        {
            if self.jobs[n].idx == job_id {
                let job = self.jobs.remove(n);
                proof {
                    let before = old(self).jobs@;
                    assert forall|a: int, b: int| 0 <= a < b < self.jobs@.len() implies
                        self.jobs@[a].idx < self.jobs@[b].idx by {
                        let a0 = if a < n { a } else { a + 1 };
                        let b0 = if b < n { b } else { b + 1 };
                        assert(self.jobs@[a] == before[a0]);
                        assert(self.jobs@[b] == before[b0]);
                    }
                    assert forall|a: int| 0 <= a < self.jobs@.len() implies self.jobs@[a].idx
                        <= self.job_count by {
                        let a0 = if a < n { a } else { a + 1 };
                        assert(self.jobs@[a] == before[a0]);
                    }
                }
                if self.jobs.len() == 0 {
                    self.job_count = 0;
                }
                return Some(job);
            }
            n = n + 1;
        }
        None
    }

    /// Drops the jobs that have finished (`finished[i]` tells for the `i`th
    /// job) and gives them back, in order; the numbering starts over when no
    /// job is left.
    pub fn remove_finished(&mut self, finished: &Vec<bool>) -> (done: Vec<BackgroundJob>)
        requires
            old(self).well_formed(),
            finished@.len() == old(self).jobs@.len(),
        ensures
            final(self).well_formed(),
            final(self).jobs@ == filter_flagged(old(self).jobs@, finished@, false),
            done@ == filter_flagged(old(self).jobs@, finished@, true),
            final(self).jobs@.len() > 0 ==> final(self).job_count == old(self).job_count,
            bg_step((old(self).jobs@, old(self).job_count), (final(self).jobs@, final(self).job_count)),
    {
        let ghost before = self.jobs@;
        let mut kept: Vec<BackgroundJob> = Vec::new();
        let mut done: Vec<BackgroundJob> = Vec::new();
        let mut rest: Vec<BackgroundJob> = Vec::new();
        std::mem::swap(&mut rest, &mut self.jobs);
        let n = rest.len();
        let mut i: usize = 0;
        while i < n
            invariant
                n == before.len(),
                finished@.len() == n,
                i <= n,
                rest@ == before.skip(i as int),
                kept@ == filter_flagged(before.take(i as int), finished@.take(i as int), false),
                done@ == filter_flagged(before.take(i as int), finished@.take(i as int), true),
                forall|a: int, b: int|
                    0 <= a < b < before.len() ==> before[a].idx < before[b].idx,
                forall|a: int| 0 <= a < before.len() ==> before[a].idx <= self.job_count,
                forall|a: int, b: int| 0 <= a < b < kept@.len() ==> kept@[a].idx < kept@[b].idx,
                forall|a: int| 0 <= a < kept@.len() ==> kept@[a].idx <= self.job_count,
                forall|a: int, j: int|
                    0 <= a < kept@.len() && i <= j < n ==> kept@[a].idx < before[j].idx,
            decreases n - i,
        {
            let job = rest.remove(0);
            assert(job == before[i as int]);
            assert(before.skip(i as int).drop_first() =~= before.skip(i + 1));
            proof {
                assert(before.take(i + 1).drop_last() =~= before.take(i as int));
                assert(finished@.take(i + 1).drop_last() =~= finished@.take(i as int));
                assert(before.take(i + 1).last() == before[i as int]);
                assert(finished@.take(i + 1).last() == finished@[i as int]);
            }
            let ghost kb = kept@;
            if finished[i] {
                done.push(job);
            } else {
                kept.push(job);
                proof {
                    assert forall|a: int, j: int|
                        0 <= a < kept@.len() && i + 1 <= j < n implies kept@[a].idx
                        < before[j].idx by {
                        if a < kb.len() {
                            assert(kept@[a] == kb[a]);
                        }
                    }
                    assert forall|a: int, b: int| 0 <= a < b < kept@.len() implies kept@[a].idx
                        < kept@[b].idx by {
                        if b < kb.len() {
                            assert(kept@[a] == kb[a] && kept@[b] == kb[b]);
                        } else {
                            assert(kept@[a] == kb[a]);
                        }
                    }
                }
            }
            i = i + 1;
        }
        assert(before.take(n as int) =~= before);
        assert(finished@.take(n as int) =~= finished@);
        self.jobs = kept;
        if self.jobs.len() == 0 {
            self.job_count = 0;
        }
        done
    }
}

/// The elements of `s` whose flag in `flags` is `keep`, in order.
pub open spec fn filter_flagged<T>(s: Seq<T>, flags: Seq<bool>, keep: bool) -> Seq<T>
    decreases s.len(),
{
    if s.len() == 0 {
        Seq::empty()
    } else {
        let rest = filter_flagged(s.drop_last(), flags.drop_last(), keep);
        if flags.last() == keep {
            rest.push(s.last())
        } else {
            rest
        }
    }
}

/// Once every job has finished or been killed, the next job is number 1.
pub proof fn lemma_numbering_starts_over(m: BackgroundJobManager)
    requires
        m.well_formed(),
        m.jobs@.len() == 0,
    ensures
        m.job_count + 1 == 1,
{
}

/// Keeping some jobs of an ordered table keeps it ordered, below its last
/// number.
proof fn lemma_filter_keeps_order(s: Seq<BackgroundJob>, f: Seq<bool>, keep: bool)
    requires
        f.len() == s.len(),
        forall|i: int, j: int| 0 <= i < j < s.len() ==> s[i].idx < s[j].idx,
    ensures
        ({
            let r = filter_flagged(s, f, keep);
            &&& forall|i: int, j: int| 0 <= i < j < r.len() ==> r[i].idx < r[j].idx
            &&& s.len() > 0 ==> forall|i: int| 0 <= i < r.len() ==> r[i].idx <= s.last().idx
            &&& s.len() == 0 ==> r.len() == 0
            &&& r.len() <= s.len()
        }),
    decreases s.len(),
{
    if s.len() > 0 {
        let p = s.drop_last();
        lemma_filter_keeps_order(p, f.drop_last(), keep);
        let rp = filter_flagged(p, f.drop_last(), keep);
        if p.len() > 0 {
            assert(p.last().idx < s.last().idx);
        }
        let r = filter_flagged(s, f, keep);
        if f.last() == keep {
            assert(r == rp.push(s.last()));
            assert forall|i: int, j: int| 0 <= i < j < r.len() implies r[i].idx < r[j].idx by {
                if j < rp.len() {
                    assert(r[i] == rp[i] && r[j] == rp[j]);
                } else {
                    assert(r[i] == rp[i]);
                }
            }
            assert forall|i: int| 0 <= i < r.len() implies r[i].idx <= s.last().idx by {
                if i < rp.len() {
                    assert(r[i] == rp[i]);
                }
            }
        }
    }
}

/// One call keeps the numbering; a job it adds is numbered above every job
/// in the table, 1 when the table was empty.
pub proof fn lemma_step_keeps_numbering(a: (Seq<BackgroundJob>, u32), b: (Seq<BackgroundJob>, u32))
    requires
        numbering_ok(a.0, a.1),
        bg_step(a, b),
    ensures
        numbering_ok(b.0, b.1),
        b.0.len() == a.0.len() + 1 ==> {
            &&& forall|i: int| 0 <= i < a.0.len() ==> a.0[i].idx < b.0.last().idx
            &&& a.0.len() == 0 ==> b.0.last().idx == 1
        },
{
    let (jobs, count) = a;
    let (next, next_count) = b;
    if count < u32::MAX && next_count == count + 1 && next.len() == jobs.len() + 1
        && next.drop_last() == jobs && next.last().idx == next_count {
        assert forall|i: int, j: int| 0 <= i < j < next.len() implies next[i].idx
            < next[j].idx by {
            assert(next[i] == jobs[i]);
            if j < jobs.len() {
                assert(next[j] == jobs[j]);
            }
        }
        assert forall|i: int| 0 <= i < next.len() implies next[i].idx <= next_count by {
            if i < jobs.len() {
                assert(next[i] == jobs[i]);
            }
        }
    } else if next == jobs || exists|i: int| 0 <= i < jobs.len() && next == jobs.remove(i) {
        if next != jobs {
            let k = choose|i: int| 0 <= i < jobs.len() && next == jobs.remove(i);
            assert forall|i: int, j: int| 0 <= i < j < next.len() implies next[i].idx
                < next[j].idx by {
                let i0 = if i < k { i } else { i + 1 };
                let j0 = if j < k { j } else { j + 1 };
                assert(next[i] == jobs[i0] && next[j] == jobs[j0]);
            }
            assert forall|i: int| 0 <= i < next.len() implies next[i].idx <= next_count by {
                let i0 = if i < k { i } else { i + 1 };
                assert(next[i] == jobs[i0]);
            }
        }
    } else {
        let f = choose|f: Seq<bool>| f.len() == jobs.len() && next == filter_flagged(jobs, f, false);
        lemma_filter_keeps_order(jobs, f, false);
        if next.len() > 0 {
            assert(jobs.len() > 0);
            assert(jobs.last().idx <= count);
        }
    }
}

/// Over any run of `add_job`, `kill_job` and `remove_finished` calls from
/// an empty table, job numbers increase along the table, none passes the
/// count and the count is 0 when there is no job; each job added is
/// numbered above every job already in the table, and 1 when the table was
/// empty.
pub proof fn lemma_numbering_over_runs(run: Seq<(Seq<BackgroundJob>, u32)>)
    requires
        run.len() > 0,
        run[0].0.len() == 0,
        run[0].1 == 0,
        forall|k: int| 0 <= k < run.len() - 1 ==> #[trigger] bg_step(run[k], run[k + 1]),
    ensures
        forall|k: int| 0 <= k < run.len() ==> #[trigger] numbering_ok(run[k].0, run[k].1),
        forall|k: int|
            0 <= k < run.len() - 1 && run[k + 1].0.len() == run[k].0.len() + 1 ==> {
                &&& forall|i: int|
                    0 <= i < run[k].0.len() ==> run[k].0[i].idx < (#[trigger] run[k + 1]).0.last().idx
                &&& run[k].0.len() == 0 ==> run[k + 1].0.last().idx == 1
            },
    decreases run.len(),
{
    if run.len() > 1 {
        let p = run.drop_last();
        assert forall|k: int| 0 <= k < p.len() - 1 implies #[trigger] bg_step(p[k], p[k + 1]) by {
            assert(bg_step(run[k], run[k + 1]));
        }
        lemma_numbering_over_runs(p);
        let n = run.len() - 1;
        let last = n - 1;
        assert(numbering_ok(p[last].0, p[last].1));
        assert(bg_step(run[last], run[last + 1]));
        assert(run[last + 1] == run[n]);
        lemma_step_keeps_numbering(run[last], run[n]);
        assert forall|k: int| 0 <= k < run.len() implies #[trigger] numbering_ok(
            run[k].0,
            run[k].1,
        ) by {
            if k < n {
                assert(run[k] == p[k]);
            }
        }
        assert forall|k: int|
            0 <= k < run.len() - 1 && run[k + 1].0.len() == run[k].0.len() + 1 implies {
                &&& forall|i: int|
                    0 <= i < run[k].0.len() ==> run[k].0[i].idx < (#[trigger] run[k + 1]).0.last().idx
                &&& run[k].0.len() == 0 ==> run[k + 1].0.last().idx == 1
            } by {
            if k < n - 1 {
                assert(run[k] == p[k] && run[k + 1] == p[k + 1]);
            }
        }
    }
}

/// The code a finished program is reported with: its exit code, or 128
/// plus the signal that ended it.
pub fn get_status_code(exit_status: &ExitStatus) -> (code: i32)
    requires
        status_code(exit_status.raw) is Some || status_signal(exit_status.raw) is Some,
    ensures
        code == match status_code(exit_status.raw) {
            Some(c) => c as int,
            None => 128 + status_signal(exit_status.raw).unwrap(),
        },
{
    match exit_status.code() {
        Some(code) => code,
        None => {
            let sig = exit_status.signal().unwrap();
            let raw = exit_status.raw;
            assert(raw & 0x7f <= 0x7f) by (bit_vector);
            assert(raw & 0x7f >= 0) by (bit_vector);
            128 + sig
        },
    }
}

} // verus!
