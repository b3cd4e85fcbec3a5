//! A solve whose jobs the master works on by itself, one after the other.

use crate::aggregate::{SolveTotals, Totals};
use crate::cancel::{cancellation_of, solve_cancel_info, CancelInfo};
use crate::ids::{is_random_uuid, job_retry_index, retry_index};
use crate::job_tracking::{expected_after_split, jobs_expected_after_split};
use crate::jobs::{
    findings, jobs_view, redelegated, redelegated_job, should_redelegate_result, Finding, Job,
    SubproblemJob, SubproblemResult,
};
use crate::master::is_split;
use crate::moves::{act_at, Act, Moment, Move};
use crate::table::Table;
use crate::text::{dec, decimal, same, texts};
use std::collections::VecDeque;
use vstd::prelude::*;
use vstd::string::*;

verus! {

/// A job that is being worked on, and how often it has been tried again.
#[derive(Debug)]
pub struct Attempt {
    pub job: SubproblemJob,
    pub retry_index: usize,
}

/// A solve whose jobs are worked on here.
#[derive(Debug)]
pub struct LocalRun {
    pub max_retries: usize,
    pub pending: VecDeque<SubproblemJob>,
    pub current: Option<Attempt>,
    pub results: Vec<SubproblemResult>,
    pub jobs_expected: usize,
    pub jobs_published: usize,
    pub jobs_redelegated: usize,
    pub jobs_split: usize,
    pub warnings: Vec<String>,
}

/// The contents of a solve whose jobs are worked on here.
#[verifier::ext_equal]
pub struct Local {
    pub max_retries: usize,
    pub pending: Seq<Job>,
    pub current: Option<(Job, usize)>,
    pub results: Seq<Finding>,
    pub jobs_expected: usize,
    pub jobs_published: usize,
    pub jobs_redelegated: usize,
    pub jobs_split: usize,
    pub warnings: Seq<Seq<char>>,
}

/// An attempt by its contents.
pub open spec fn attempt_view(a: Option<Attempt>) -> Option<(Job, usize)> {
    match a {
        Some(a) => Some((a.job@, a.retry_index)),
        None => None,
    }
}

impl View for LocalRun {
    type V = Local;

    open spec fn view(&self) -> Local {
        Local {
            max_retries: self.max_retries,
            pending: jobs_view(self.pending@),
            current: attempt_view(self.current),
            results: findings(self.results@),
            jobs_expected: self.jobs_expected,
            jobs_published: self.jobs_published,
            jobs_redelegated: self.jobs_redelegated,
            jobs_split: self.jobs_split,
            warnings: texts(self.warnings@),
        }
    }
}

/// A run that has not begun.
pub open spec fn local_begun(max_retries: usize, jobs: Seq<Job>, warnings: Seq<Seq<char>>) -> Local {
    Local {
        max_retries,
        pending: jobs,
        current: None,
        results: Seq::empty(),
        jobs_expected: jobs.len() as usize,
        jobs_published: 0,
        jobs_redelegated: 0,
        jobs_split: 0,
        warnings,
    }
}

/// A run that turns to the next job.
pub open spec fn at_next(run: Local) -> Local {
    if run.pending.len() == 0 {
        Local { current: None, ..run }
    } else {
        Local {
            pending: run.pending.drop_first(),
            current: Some((run.pending[0], retry_index(run.pending[0].job_id) as usize)),
            ..run
        }
    }
}

/// A run that has a job in hand: the one that it had, or the next one.
pub open spec fn in_hand(run: Local) -> Local {
    if run.current is Some {
        run
    } else {
        at_next(run)
    }
}

/// A run after it has turned to a job, which counts as sent out unless the solve
/// ends there.
pub open spec fn turned(run: Local, act: Act) -> Local {
    if act is Send {
        Local { jobs_published: (run.jobs_published + 1) as usize, ..in_hand(run) }
    } else {
        in_hand(run)
    }
}

/// How often the job that is worked on has been tried again.
pub open spec fn tries(run: Local) -> usize
    recommends
        run.current is Some,
{
    let (_, n) = run.current->0;
    n
}

/// The job that is worked on.
pub open spec fn job_in_hand(run: Local) -> Job
    recommends
        run.current is Some,
{
    let (job, _) = run.current->0;
    job
}

/// What becomes of the job that is worked on.
#[derive(Clone, Copy, Debug, PartialEq, Eq, Structural)]
pub enum LocalStep {
    /// It was split.
    Split,
    /// It is tried again.
    Retry,
    /// It is done.
    Done,
}

/// What becomes of a job, by its result.
pub open spec fn local_step(run: Local, f: Finding) -> LocalStep {
    if is_split(f) {
        LocalStep::Split
    } else if f.status == "error"@ && tries(run) < run.max_retries {
        LocalStep::Retry
    } else {
        LocalStep::Done
    }
}

/// The text about a job that was split.
pub open spec fn local_split_warning(f: Finding) -> Seq<char> {
    "local job "@ + f.job_id + " split into "@ + dec(f.child_jobs.len()) + " child subproblems"@
}

/// The text about a job that is tried again.
pub open spec fn local_retry_warning(f: Finding, next: nat, max: nat) -> Seq<char> {
    "local job "@ + f.job_id + " failed; re-delegating retry "@ + dec(next) + " of "@ + dec(max)
}

/// A run after the result of the job that was worked on.
pub open spec fn after_local(run: Local, f: Finding, uuid: Seq<char>, now: u128) -> Local {
    match local_step(run, f) {
        LocalStep::Split => Local {
            pending: run.pending + f.child_jobs,
            current: None,
            jobs_split: (run.jobs_split + 1) as usize,
            jobs_expected: expected_after_split(run.jobs_expected, f.child_jobs.len() as usize),
            warnings: run.warnings.push(local_split_warning(f)),
            ..run
        },
        LocalStep::Retry => {
            let next = tries(run) + 1;
            Local {
                current: Some((redelegated(job_in_hand(run), next as nat, uuid, now), next as usize)),
                jobs_redelegated: (run.jobs_redelegated + 1) as usize,
                warnings: run.warnings.push(
                    local_retry_warning(f, next as nat, run.max_retries as nat),
                ),
                ..run
            }
        },
        LocalStep::Done => Local { current: None, results: run.results.push(f), ..run },
    }
}

impl LocalRun {
    /// Begins with a list of jobs.
    pub fn new(max_retries: usize, jobs: Vec<SubproblemJob>, warnings: Vec<String>) -> (r: LocalRun)
        ensures
            r@ == local_begun(max_retries, jobs_view(jobs@), texts(warnings@)),
    {
        let n: usize = jobs.len();
        let mut pending: VecDeque<SubproblemJob> = VecDeque::new();
        append_jobs(&mut pending, &jobs);
        let r = LocalRun {
            max_retries,
            pending,
            current: None,
            results: Vec::new(),
            jobs_expected: n,
            jobs_published: 0,
            jobs_redelegated: 0,
            jobs_split: 0,
            warnings,
        };
        assert(findings(r.results@) =~= Seq::empty());
        assert(r@ =~= local_begun(max_retries, jobs_view(jobs@), texts(warnings@)));
        r
    }

    fn next(&mut self)
        ensures
            final(self)@ == at_next(old(self)@),
    {
        let ghost before = self@;
        match self.pending.pop_front() {
            Some(job) => {
                let retry: usize = job_retry_index(job.job_id.as_str());
                self.current = Some(Attempt { job, retry_index: retry });
                assert(jobs_view(self.pending@) =~= before.pending.drop_first());
                assert(self@ =~= at_next(before));
            },
            None => {
                self.current = None;
                assert(self@ =~= at_next(before));
            },
        }
    }

    /// Turns to the job that is to be worked on: one that is tried again, or the
    /// next one.
    pub fn next_turn(&mut self, solve_id: &str, cancels: &Table<CancelInfo>) -> (r: Move)
        requires
            old(self).jobs_published < usize::MAX,
        ensures
            r@ == act_at(
                Moment::Working { run: old(self)@ },
                cancellation_of(cancels@, solve_id@),
            ),
            final(self)@ == turned(old(self)@, r@),
    {
        let ghost before = self@;
        if self.current.is_none() {
            self.next();
        }
        let job = match &self.current {
            None => {
                return Move::Finish;
            },
            Some(attempt) => attempt.job.clone(),
        };
        if let Some(info) = solve_cancel_info(cancels, solve_id) {
            return Move::Cancel(info);
        }
        self.jobs_published = self.jobs_published + 1;
        let r = Move::Send(job);
        assert(self@ =~= turned(before, r@));
        r
    }

    /// Takes in the result of the job that was worked on.
    pub fn take_result(&mut self, result: SubproblemResult, now: u128) -> (r: LocalStep)
        requires
            old(self).current is Some,
            old(self).jobs_split < usize::MAX,
            old(self).jobs_redelegated < usize::MAX,
        ensures
            r == local_step(old(self)@, result@),
            r is Retry ==> final(self).current is Some && is_random_uuid(
                final(self).current->0.job.job_uuid@,
            ),
            final(self)@ == after_local(
                old(self)@,
                result@,
                match final(self).current {
                    Some(a) => a.job.job_uuid@,
                    None => Seq::empty(),
                },
                now,
            ),
    {
        let ghost before = self@;
        let ghost found = result@;
        let known: usize = match &self.current {
            Some(a) => a.retry_index,
            None => 0,
        };
        if same(result.status.as_str(), "split") && result.child_jobs.len() > 0 {
            let parts: usize = result.child_jobs.len();
            let mut w = "local job ".to_owned();
            w.append(result.job_id.as_str());
            w.append(" split into ");
            w.append(decimal(parts).as_str());
            w.append(" child subproblems");
            append_jobs(&mut self.pending, &result.child_jobs);
            self.current = None;
            self.jobs_split = self.jobs_split + 1;
            self.jobs_expected = jobs_expected_after_split(self.jobs_expected, parts);
            self.warnings.push(w);
            assert(texts(self.warnings@) =~= before.warnings.push(w@));
            assert(self@ =~= after_local(before, found, Seq::empty(), now));
            return LocalStep::Split;
        }
        if should_redelegate_result(&result, known, self.max_retries) {
            let next: usize = known + 1;
            let mut w = "local job ".to_owned();
            w.append(result.job_id.as_str());
            w.append(" failed; re-delegating retry ");
            w.append(decimal(next).as_str());
            w.append(" of ");
            w.append(decimal(self.max_retries).as_str());
            let again = match &self.current {
                Some(a) => Some(Attempt {
                    job: redelegated_job(&a.job, next, now),
                    retry_index: next,
                }),
                None => None,
            };
            self.current = again;
            self.jobs_redelegated = self.jobs_redelegated + 1;
            self.warnings.push(w);
            assert(texts(self.warnings@) =~= before.warnings.push(w@));
            assert(self@ =~= after_local(before, found, self.current->0.job.job_uuid@, now));
            return LocalStep::Retry;
        }
        self.current = None;
        self.results.push(result);
        assert(findings(self.results@) =~= before.results.push(found));
        assert(self@ =~= after_local(before, found, Seq::empty(), now));
        LocalStep::Done
    }

    /// What the jobs came to.
    pub fn totals(self) -> (r: SolveTotals)
        ensures
            r@ == (Totals {
                results: self@.results,
                jobs_expected: self@.jobs_expected,
                jobs_published: self@.jobs_published,
                jobs_redelegated: self@.jobs_redelegated,
                jobs_split: self@.jobs_split,
                timed_out: false,
                warnings: self@.warnings,
            }),
    {
        SolveTotals {
            results: self.results,
            jobs_expected: self.jobs_expected,
            jobs_published: self.jobs_published,
            jobs_redelegated: self.jobs_redelegated,
            jobs_split: self.jobs_split,
            timed_out: false,
            warnings: self.warnings,
        }
    }
}

fn append_jobs(pending: &mut VecDeque<SubproblemJob>, jobs: &Vec<SubproblemJob>)
    ensures
        jobs_view(final(pending)@) == jobs_view(old(pending)@) + jobs_view(jobs@),
{
    let ghost first = jobs_view(pending@);
    let ghost all = jobs_view(jobs@);
    let mut i: usize = 0;
    assert(first + all.take(0) =~= first);
    while i < jobs.len()
        invariant
            i <= jobs@.len(),
            all == jobs_view(jobs@),
            jobs_view(pending@) == first + all.take(i as int),
        decreases jobs@.len() - i,
    {
        let ghost before = jobs_view(pending@);
        pending.push_back(jobs[i].clone());
        assert(jobs_view(pending@) =~= before.push(jobs@[i as int]@));
        assert(first + all.take(i + 1) =~= before.push(all[i as int]));
        i = i + 1;
    }
    assert(all.take(i as int) =~= all);
}

/// Whether every expected result is there, or that of a job which waits or is
/// worked on.
pub open spec fn local_complete(run: Local) -> bool {
    run.jobs_expected == run.results.len() + run.pending.len() + if run.current is Some {
        1int
    } else {
        0
    }
}

/// A run begins complete.
pub proof fn local_runs_begin_complete(max_retries: usize, jobs: Seq<Job>, warnings: Seq<Seq<char>>)
    requires
        jobs.len() <= usize::MAX,
    ensures
        local_complete(local_begun(max_retries, jobs, warnings)),
{
}

/// A run stays complete, whatever the results say; so one that has no more jobs
/// has every expected result.
pub proof fn local_runs_stay_complete(run: Local, f: Finding, uuid: Seq<char>, now: u128)
    requires
        local_complete(run),
        run.jobs_expected + f.child_jobs.len() <= usize::MAX,
    ensures
        run.current is None ==> local_complete(at_next(run)),
        run.current is Some ==> local_complete(after_local(run, f, uuid, now)),
        run.current is None && run.pending.len() == 0 ==> run.results.len() == run.jobs_expected,
{
}

/// What becomes of the job in hand: its parts are put behind the waiting jobs; a failed
/// one is tried again as the same job while attempts remain; any other is done, and its
/// result is kept behind the others.
pub proof fn local_jobs_are_seen_to(run: Local, f: Finding, uuid: Seq<char>, now: u128)
    requires
        run.current is Some,
        run.jobs_split < usize::MAX,
        run.jobs_redelegated < usize::MAX,
        run.jobs_expected + f.child_jobs.len() <= usize::MAX,
    ensures
        ({
            let r = after_local(run, f, uuid, now);
            let (job, tried) = run.current->0;
            let parted = f.status == "split"@ && f.child_jobs.len() > 0;
            let again = !parted && f.status == "error"@ && tried < run.max_retries;
            &&& parted ==> {
                &&& r.pending == run.pending + f.child_jobs
                &&& r.current is None
                &&& r.results == run.results
                &&& r.jobs_split == run.jobs_split + 1
                &&& r.jobs_expected == run.jobs_expected + f.child_jobs.len() - 1
            }
            &&& again ==> {
                &&& r.current is Some
                &&& job_in_hand(r).extra_constraints == job.extra_constraints
                &&& job_in_hand(r).problem == job.problem
                &&& job_in_hand(r).options == job.options
                &&& job_in_hand(r).job_uuid == uuid
                &&& tries(r) == tried + 1
                &&& r.pending == run.pending && r.results == run.results
                &&& r.jobs_redelegated == run.jobs_redelegated + 1
                &&& r.jobs_expected == run.jobs_expected
            }
            &&& !parted && !again ==> {
                &&& r.results == run.results.push(f)
                &&& r.current is None
                &&& r.pending == run.pending
                &&& r.jobs_expected == run.jobs_expected
            }
        }),
{
}

/// Jobs are worked on in the order in which they wait.
pub proof fn local_jobs_keep_their_order(run: Local)
    ensures
        run.pending.len() > 0 ==> at_next(run).current is Some && job_in_hand(at_next(run))
            == run.pending[0] && at_next(run).pending == run.pending.drop_first(),
        run.pending.len() == 0 ==> at_next(run).current is None,
        at_next(run).results == run.results,
{
}

/// A turn takes the next job only where none is in hand, and counts a job only where one
/// is sent out.
pub proof fn turns_take_one_job(run: Local, act: Act)
    requires
        run.jobs_published < usize::MAX,
    ensures
        run.current is Some ==> turned(run, act).current == run.current && turned(run, act).pending
            == run.pending,
        run.current is None && run.pending.len() > 0 ==> turned(run, act).current is Some
            && job_in_hand(turned(run, act)) == run.pending[0] && turned(run, act).pending
            == run.pending.drop_first(),
        act is Send ==> turned(run, act).jobs_published == run.jobs_published + 1,
        !(act is Send) ==> turned(run, act).jobs_published == run.jobs_published,
        turned(run, act).results == run.results,
{
}

}
