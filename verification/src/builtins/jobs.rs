//! `jobs`, `fg` and `bg`: listing jobs and reading job numbers.

use vstd::prelude::*;
use vstd::string::StringExecFns;

use crate::builtins::{BG_NAME, BuiltinCommand, FG_NAME, JOBS_NAME};
use crate::errors::{Error, ErrorKind};
use crate::job::{Job, JobId, Process, job_status, job_status_name, join_words, status_name};
use crate::num::{decimal, int_error_message, parse_int, parse_u32_or_message, u64_to_string, unsigned_problem};
use crate::text::{first_line, first_line_of, views};

verus! {

pub const JOBS_HELP: &'static str = "\
Usage: jobs [options] [<jobspec>...]

Display status of jobs.

Lists the active jobs. JOBSPEC restricts output to that job.
Without options, the status of all active jobs is displayed.alloc

Options:
    -l      lists process IDs in addition to the normal information
    -p      lists process IDs only
    -r      restrict output to running jobs
    -s      restrict output to stopped jobs

Exit Status:
Returns success unless an invalid option is given or an error occurs.";

/// The usage line of `jobs`, in the form of the other builtins' usage
/// lines (its help text starts with the form that option parsing reads).
pub const JOBS_USAGE: &'static str = "jobs: jobs [options] [<jobspec>...]";

pub const FG_HELP: &'static str = "\
fg: fg [job_spec]
    Move job to the foreground.

    Place the job identified by JOB_SPEC in the foreground, making it
    the current job. If JOB_SPEC is not present, the shell's notion of the
    current job is used.

    Exit Status:
    Status of command placed in foreground or failure if an error occurs.";

pub const BG_HELP: &'static str = "\
bg: bg [<jobspec>...]
    Move jobs to the background.

    Place the jobs identified by each JOB_SPEC in the background, as if they
    had been started with `&'. If JOB_SPEC is not present, the shell's notion
    of the current job is used.

    Exit Status:
    Returns success unless job control is not enabled or an error occurs.";

/// The `jobs` builtin.
pub struct Jobs;

/// The `fg` builtin.
pub struct Fg;

/// The `bg` builtin.
pub struct Bg;

impl BuiltinCommand for Jobs {
    fn name() -> (r: &'static str)
        ensures
            r@ == JOBS_NAME@,
    {
        JOBS_NAME
    }

    fn help() -> (r: &'static str)
        ensures
            r@ == JOBS_HELP@,
    {
        JOBS_HELP
    }

    fn usage() -> (r: String)
        ensures
            r@ == JOBS_USAGE@,
    {
        JOBS_USAGE.to_owned()
    }
}

impl BuiltinCommand for Fg {
    fn name() -> (r: &'static str)
        ensures
            r@ == FG_NAME@,
    {
        FG_NAME
    }

    fn help() -> (r: &'static str)
        ensures
            r@ == FG_HELP@,
    {
        FG_HELP
    }

    fn usage() -> (r: String)
        ensures
            r@ == first_line(FG_HELP@),
    {
        first_line_of(FG_HELP)
    }
}

impl BuiltinCommand for Bg {
    fn name() -> (r: &'static str)
        ensures
            r@ == BG_NAME@,
    {
        BG_NAME
    }

    fn help() -> (r: &'static str)
        ensures
            r@ == BG_HELP@,
    {
        BG_HELP
    }

    fn usage() -> (r: String)
        ensures
            r@ == first_line(BG_HELP@),
    {
        first_line_of(BG_HELP)
    }
}

/// A process identifier as `{:?}` writes an optional one:
/// `Some(ProcessId(n))` or `None`.
pub open spec fn debug_pid(p: Process) -> Seq<char> {
    match p.id {
        Some(id) => "Some(ProcessId("@ + decimal(id.0 as nat) + "))"@,
        None => "None"@,
    }
}

/// `{:?}` of an optional process identifier.
fn debug_pid_of(p: &Process) -> (s: String)
    ensures
        s@ == debug_pid(*p),
{
    match p.id {
        Some(id) => {
            let mut s = "Some(ProcessId(".to_owned();
            s.append(u64_to_string(id.0 as u64).as_str());
            s.append("))");
            s
        },
        None => "None".to_owned(),
    }
}

/// The line `jobs -l` writes for a process: the first process of the job
/// after `[id] `, the others after a tab.
pub open spec fn long_line(job: JobId, p: Process, first: bool) -> Seq<char> {
    (if first {
        seq!['['] + decimal(job.0 as nat) + "] "@
    } else {
        seq!['\t']
    }) + debug_pid(p) + seq!['\t'] + status_name(p.status) + seq!['\t'] + join_words(
        views(p.argv@),
    ) + seq!['\n']
}

/// The lines `jobs` writes for the processes `ps` of job `job`; `offset`
/// is the position of `ps[0]` among the job's processes.
pub open spec fn process_lines(job: JobId, ps: Seq<Process>, offset: nat, flag_l: bool) -> Seq<char>
    decreases ps.len(),
{
    if ps.len() == 0 {
        Seq::empty()
    } else {
        process_lines(job, ps.drop_last(), offset, flag_l) + if flag_l {
            long_line(job, ps.last(), offset + ps.len() - 1 == 0)
        } else {
            debug_pid(ps.last()) + seq!['\n']
        }
    }
}

/// The text `jobs` writes for one job: with `-l` a line per process with
/// its identifier, status and words; with `-p` the process identifiers;
/// else `[id] Status\tinput`.
pub open spec fn job_listing(j: Job, flag_l: bool, flag_p: bool) -> Seq<char> {
    if flag_l || flag_p {
        process_lines(j.id, j.processes@, 0, flag_l)
    } else {
        seq!['['] + decimal(j.id.0 as nat) + "] "@ + job_status_name(job_status(j.processes@)) + seq![
            '\t',
        ] + j.input@ + seq!['\n']
    }
}

/// The text `jobs` writes for the jobs `js`.
pub open spec fn jobs_text(js: Seq<Job>, flag_l: bool, flag_p: bool) -> Seq<char>
    decreases js.len(),
{
    if js.len() == 0 {
        Seq::empty()
    } else {
        jobs_text(js.drop_last(), flag_l, flag_p) + job_listing(js.last(), flag_l, flag_p)
    }
}

/// `jobs` lists every job, in order: the listing of two tables one after
/// the other is the listing of the first followed by that of the second.
pub proof fn lemma_jobs_listing_concat(js: Seq<Job>, ks: Seq<Job>, flag_l: bool, flag_p: bool)
    ensures
        jobs_text(js + ks, flag_l, flag_p) == jobs_text(js, flag_l, flag_p) + jobs_text(
            ks,
            flag_l,
            flag_p,
        ),
    decreases ks.len(),
{
    if ks.len() == 0 {
        assert(js + ks =~= js);
        assert(jobs_text(js, flag_l, flag_p) + Seq::<char>::empty() =~= jobs_text(
            js,
            flag_l,
            flag_p,
        ));
    } else {
        assert((js + ks).drop_last() =~= js + ks.drop_last());
        assert((js + ks).last() == ks.last());
        lemma_jobs_listing_concat(js, ks.drop_last(), flag_l, flag_p);
    }
}

/// Without options, a job is listed as one line `[id] Status\tinput`; with
/// `-p`, as one line per process giving its identifier.
pub proof fn lemma_job_line(j: Job)
    ensures
        jobs_text(seq![j], false, false) == seq!['['] + decimal(j.id.0 as nat) + "] "@
            + job_status_name(job_status(j.processes@)) + seq!['\t'] + j.input@ + seq!['\n'],
        j.processes@.len() == 1 ==> jobs_text(seq![j], false, true) == debug_pid(
            j.processes@[0],
        ) + seq!['\n'],
{
    let one = seq![j];
    assert(one.drop_last() =~= Seq::<Job>::empty());
    assert(one.last() == j);
    assert(jobs_text(Seq::<Job>::empty(), false, false) == Seq::<char>::empty());
    assert(jobs_text(Seq::<Job>::empty(), false, true) == Seq::<char>::empty());
    assert(jobs_text(one, false, false) == jobs_text(one.drop_last(), false, false) + job_listing(
        j,
        false,
        false,
    ));
    assert(jobs_text(one, false, true) == jobs_text(one.drop_last(), false, true) + job_listing(
        j,
        false,
        true,
    ));
    assert(Seq::<char>::empty() + job_listing(j, false, false) =~= job_listing(j, false, false));
    assert(Seq::<char>::empty() + job_listing(j, false, true) =~= job_listing(j, false, true));
    if j.processes@.len() == 1 {
        let ps = j.processes@;
        assert(ps.drop_last() =~= Seq::<Process>::empty());
        assert(process_lines(j.id, ps.drop_last(), 0, false) == Seq::<char>::empty());
        assert(process_lines(j.id, ps, 0, false) == process_lines(j.id, ps.drop_last(), 0, false)
            + (debug_pid(ps.last()) + seq!['\n']));
        assert(Seq::<char>::empty() + (debug_pid(ps.last()) + seq!['\n']) =~= debug_pid(ps[0])
            + seq!['\n']);
    }
}

/// The lines `jobs -l` or `jobs -p` writes for the processes of `job`.
fn process_listing(job: &Job, flag_l: bool) -> (s: String)
    ensures
        s@ == process_lines(job.id, job.processes@, 0, flag_l),
{
    let ps = &job.processes;
    let mut s = String::new();
    for k in 0..ps.len()
        invariant
            ps == job.processes,
            s@ == process_lines(job.id, ps@.take(k as int), 0, flag_l),
    {
        let p = &ps[k];
        if flag_l {
            if k == 0 {
                crate::text::push_char(&mut s, '[');
                s.append(job.id.display().as_str());
                s.append("] ");
            } else {
                crate::text::push_char(&mut s, '\t');
            }
            s.append(debug_pid_of(p).as_str());
            crate::text::push_char(&mut s, '\t');
            s.append(p.status.name().as_str());
            crate::text::push_char(&mut s, '\t');
            s.append(p.argv().as_str());
            crate::text::push_char(&mut s, '\n');
        } else {
            s.append(debug_pid_of(p).as_str());
            crate::text::push_char(&mut s, '\n');
        }
        proof {
            assert(ps@.take(k + 1).drop_last() =~= ps@.take(k as int));
            assert(ps@.take(k + 1).last() == ps@[k as int]);
        }
    }
    assert(ps@.take(ps@.len() as int) =~= ps@);
    s
}

/// The text `jobs` writes for the jobs `jobs` with the options `-l`, `-p`.
pub fn jobs_listing(jobs: &[Job], flag_l: bool, flag_p: bool) -> (s: String)
    ensures
        s@ == jobs_text(jobs@, flag_l, flag_p),
{
    let mut s = String::new();
    for i in 0..jobs.len()
        invariant
            s@ == jobs_text(jobs@.take(i as int), flag_l, flag_p),
    {
        let job = &jobs[i];
        let ghost before = s@;
        if flag_l || flag_p {
            s.append(process_listing(job, flag_l).as_str());
        } else {
            s.append(job.display().as_str());
            crate::text::push_char(&mut s, '\n');
        }
        assert(jobs@.take(i + 1).drop_last() =~= jobs@.take(i as int));
        assert(jobs@.take(i + 1).last() == jobs@[i as int]);
    }
    assert(jobs@.take(jobs@.len() as int) =~= jobs@);
    s
}

/// The job `fg argv` names: none without a second word (the current job),
/// else the second word read as a job number; a failure with code 1 and
/// `fg: <reason>` when it is not one.
pub fn fg_job_id(argv: &[String]) -> (r: Result<Option<JobId>, Error>)
    ensures
        argv@.len() < 2 ==> r == Ok::<Option<JobId>, Error>(None),
        argv@.len() >= 2 ==> match parse_int(argv@[1]@, false, 0, u32::MAX as int) {
            Some(n) => r == Ok::<Option<JobId>, Error>(Some(JobId(n as u32))),
            None => r matches Err(e) && e.kind matches ErrorKind::BuiltinCommand { message, code }
                && unsigned_problem(argv@[1]@, u32::MAX as int) matches Some(k) && message@
                == "fg: "@ + int_error_message(k) && code == 1,
        },
{
    if argv.len() < 2 {
        return Ok(None);
    }
    match parse_u32_or_message(argv[1].as_str()) {
        Ok(n) => Ok(Some(JobId(n))),
        Err(reason) => {
            let m = crate::errors::concat("fg: ", reason.as_str());
            Err(Error::builtin_command(m.as_str(), 1))
        },
    }
}

/// The jobs `bg` is asked to move to the background.
pub enum BgTargets {
    /// The current job.
    Current,
    /// Each word read as a job number, or the reason it is not one.
    Each(Vec<Result<JobId, String>>),
}

/// What `bg argv` is asked: the current job when there is no argument,
/// else each argument read as a job number.
pub fn bg_targets(argv: &[String]) -> (r: BgTargets)
    ensures
        argv@.len() == 1 ==> r is Current,
        argv@.len() != 1 ==> (r matches BgTargets::Each(v) && v@.len() == (if argv@.len() == 0 {
            0
        } else {
            argv@.len() - 1
        }) && forall|i: int|
            0 <= i < v@.len() ==> match parse_int(argv@[i + 1]@, false, 0, u32::MAX as int) {
                Some(n) => #[trigger] v@[i] == Ok::<JobId, String>(JobId(n as u32)),
                None => v@[i] matches Err(m) && unsigned_problem(argv@[i + 1]@, u32::MAX as int)
                    matches Some(k) && m@ == int_error_message(k),
            }),
{
    if argv.len() == 1 {
        return BgTargets::Current;
    }
    let mut v: Vec<Result<JobId, String>> = Vec::new();
    let mut i: usize = 1;
    while i < argv.len()
        invariant
            1 <= i,
            argv@.len() != 1,
            argv@.len() == 0 ==> v@.len() == 0,
            argv@.len() > 0 ==> i <= argv@.len() && v@.len() == i - 1,
            forall|j: int|
                0 <= j < v@.len() ==> match parse_int(argv@[j + 1]@, false, 0, u32::MAX as int) {
                    Some(n) => #[trigger] v@[j] == Ok::<JobId, String>(JobId(n as u32)),
                    None => v@[j] matches Err(m) && unsigned_problem(argv@[j + 1]@, u32::MAX as int)
                        matches Some(k) && m@ == int_error_message(k),
                },
        decreases argv@.len() - i,
    {
        let ghost before = v@;
        let item = match parse_u32_or_message(argv[i].as_str()) {
            Ok(n) => Ok(JobId(n)),
            Err(m) => Err(m),
        };
        v.push(item);
        assert forall|j: int| 0 <= j < v@.len() implies match parse_int(
            argv@[j + 1]@,
            false,
            0,
            u32::MAX as int,
        ) {
            Some(n) => #[trigger] v@[j] == Ok::<JobId, String>(JobId(n as u32)),
            None => v@[j] matches Err(m) && unsigned_problem(argv@[j + 1]@, u32::MAX as int)
                matches Some(k) && m@ == int_error_message(k),
        } by {
            if j < before.len() {
                assert(v@[j] == before[j]);
            }
        }
        i = i + 1;
    }
    BgTargets::Each(v)
}

} // verus!
