//! A solve whose jobs are worked on by other nodes: which results a master takes,
//! what it does about each, and which jobs it sends out again.

use crate::aggregate::{SolveTotals, Totals};
use crate::cancel::{cancellation_of, solve_cancel_info, CancelInfo};
use crate::id_set::IdSet;
use crate::ids::{is_random_uuid, job_retry_index, retry_index};
use crate::job_tracking::{expected_after_split, jobs_expected_after_split, StaleWorkerJob};
use crate::jobs::{
    accept_subproblem_result, acceptance, findings, jobs_view, redelegated, redelegated_job,
    retries_are_the_same_job, should_redelegate_result, Acceptance, Finding, Job, SubproblemJob,
    SubproblemResult,
};
use crate::moves::{act_at, Act, Moment, Move};
use crate::options::{Choices, SolveOptions};
use crate::table::Table;
use crate::text::{is_listed, same, texts};
use vstd::prelude::*;
use vstd::string::*;

verus! {

/// How often a job has been sent out again.
#[derive(Clone, Copy, Debug)]
pub struct RetryIndex {
    pub index: usize,
}

impl View for RetryIndex {
    type V = usize;

    open spec fn view(&self) -> usize {
        self.index
    }
}

/// How often a job may be sent out again.
pub open spec fn max_retries_of(o: Choices) -> usize {
    match o.max_job_retries {
        Some(n) => n,
        None => 2,
    }
}

/// How often a job may be sent out again.
pub fn max_retries(options: &SolveOptions) -> (r: usize)
    ensures
        r == max_retries_of(options@),
{
    match options.max_job_retries {
        Some(n) => n,
        None => 2,
    }
}

/// A solve whose jobs are out.
pub struct SolveRun {
    pub solve_id: String,
    pub max_retries: usize,
    pub expected: IdSet,
    pub completed: IdSet,
    pub superseded: IdSet,
    pub jobs: Table<SubproblemJob>,
    pub retries: Table<RetryIndex>,
    pub results: Vec<SubproblemResult>,
    pub jobs_expected: usize,
    pub jobs_published: usize,
    pub jobs_redelegated: usize,
    pub jobs_split: usize,
    pub warnings: Vec<String>,
    pub timed_out: bool,
}

/// The contents of a solve whose jobs are out.
#[verifier::ext_equal]
pub struct Run {
    pub solve_id: Seq<char>,
    pub max_retries: usize,
    pub expected: Set<Seq<char>>,
    pub completed: Set<Seq<char>>,
    pub superseded: Set<Seq<char>>,
    pub jobs: Map<Seq<char>, Job>,
    pub retries: Map<Seq<char>, usize>,
    pub results: Seq<Finding>,
    pub jobs_expected: usize,
    pub jobs_published: usize,
    pub jobs_redelegated: usize,
    pub jobs_split: usize,
    pub warnings: Seq<Seq<char>>,
    pub timed_out: bool,
}

impl View for SolveRun {
    type V = Run;

    open spec fn view(&self) -> Run {
        Run {
            solve_id: self.solve_id@,
            max_retries: self.max_retries,
            expected: self.expected@,
            completed: self.completed@,
            superseded: self.superseded@,
            jobs: self.jobs@,
            retries: self.retries@,
            results: findings(self.results@),
            jobs_expected: self.jobs_expected,
            jobs_published: self.jobs_published,
            jobs_redelegated: self.jobs_redelegated,
            jobs_split: self.jobs_split,
            warnings: texts(self.warnings@),
            timed_out: self.timed_out,
        }
    }
}

/// A run that also awaits a job.
pub open spec fn enlisted(run: Run, job: Job, retry: usize) -> Run {
    Run {
        expected: run.expected.insert(job.job_id),
        retries: run.retries.insert(job.job_id, retry),
        jobs: run.jobs.insert(job.job_id, job),
        ..run
    }
}

/// A run that also awaits several jobs, none of them sent out before.
pub open spec fn all_enlisted(run: Run, jobs: Seq<Job>) -> Run
    decreases jobs.len(),
{
    if jobs.len() == 0 {
        run
    } else {
        enlisted(all_enlisted(run, jobs.drop_last()), jobs.last(), 0)
    }
}

/// A run without jobs.
pub open spec fn empty_run(
    solve_id: Seq<char>,
    max_retries: usize,
    count: usize,
    warnings: Seq<Seq<char>>,
) -> Run {
    Run {
        solve_id,
        max_retries,
        expected: Set::empty(),
        completed: Set::empty(),
        superseded: Set::empty(),
        jobs: Map::empty(),
        retries: Map::empty(),
        results: Seq::empty(),
        jobs_expected: count,
        jobs_published: count,
        jobs_redelegated: 0,
        jobs_split: 0,
        warnings,
        timed_out: false,
    }
}

/// A run whose jobs have just been sent out.
pub open spec fn begun(
    solve_id: Seq<char>,
    max_retries: usize,
    jobs: Seq<Job>,
    warnings: Seq<Seq<char>>,
) -> Run {
    all_enlisted(empty_run(solve_id, max_retries, jobs.len() as usize, warnings), jobs)
}

/// A run with another warning.
pub open spec fn warned(run: Run, warning: Seq<char>) -> Run {
    Run { warnings: run.warnings.push(warning), ..run }
}

/// A run with another result.
pub open spec fn kept(run: Run, finding: Finding) -> Run {
    Run { results: run.results.push(finding), ..run }
}

/// How often a job has been sent out again, as far as the run knows.
pub open spec fn known_retry(run: Run, id: Seq<char>, otherwise: usize) -> usize {
    if run.retries.contains_key(id) {
        run.retries[id]
    } else {
        otherwise
    }
}

/// What a master does about a job whose worker is silent.
#[derive(Debug)]
pub enum StaleStep {
    /// The job has been sent out again before.
    Skip,
    /// The job is not known.
    Lost,
    /// Send this job out in its place.
    Publish { job: SubproblemJob, retry_index: usize },
}

/// A list that holds a node.
pub open spec fn with_node(nodes: Seq<Seq<char>>, node: Seq<char>) -> Seq<Seq<char>> {
    if nodes.contains(node) {
        nodes
    } else {
        nodes.push(node)
    }
}

/// The job that is sent out in place of one whose worker is silent.
pub open spec fn replacement(
    original: Job,
    retry_index: usize,
    worker: Seq<char>,
    uuid: Seq<char>,
    now: u128,
) -> Job {
    let again = redelegated(original, retry_index as nat, uuid, now);
    Job { avoid_worker_nodes: with_node(again.avoid_worker_nodes, worker), ..again }
}

/// The index of the next attempt at a job whose worker is silent.
pub open spec fn next_attempt(run: Run, id: Seq<char>) -> int {
    known_retry(run, id, retry_index(id) as usize) + 1
}

/// The text about a job that cannot be sent out again.
pub open spec fn lost_warning(id: Seq<char>) -> Seq<char> {
    "cannot requeue stale job "@ + id + "; original job payload not found"@
}

/// The text about a job that has been sent out again.
pub open spec fn requeue_warning(
    worker: Seq<char>,
    id: Seq<char>,
    uuid: Option<Seq<char>>,
    new_id: Seq<char>,
) -> Seq<char> {
    "worker "@ + worker + " missed heartbeat for job "@ + id + " ("@ + (match uuid {
        Some(u) => u,
        None => "unknown"@,
    }) + "); requeued as "@ + new_id
}

/// A run in which a job has been sent out in place of another one.
pub open spec fn replaced(
    run: Run,
    stale_id: Seq<char>,
    worker: Seq<char>,
    uuid: Option<Seq<char>>,
    job: Job,
    retry: usize,
) -> Run {
    let again = enlisted(Run { expected: run.expected.remove(stale_id), ..run }, job, retry);
    Run {
        superseded: run.superseded.insert(stale_id),
        jobs_published: (run.jobs_published + 1) as usize,
        jobs_redelegated: (run.jobs_redelegated + 1) as usize,
        warnings: run.warnings.push(requeue_warning(worker, stale_id, uuid, job.job_id)),
        ..again
    }
}

/// What a master does about a result that came in.
#[derive(Debug)]
pub enum Taken {
    /// The job has been sent out again in the meantime.
    Superseded,
    /// The result is that of another solve.
    Foreign,
    /// The result is not awaited.
    Ignored,
    /// The result counts, but the solve has been cancelled.
    Cancelled(CancelInfo),
    /// The result counts.
    Accepted(SubproblemResult),
}

/// What a master does next about a result that came in: it goes on where the result
/// does not count.
pub open spec fn act_on_arrival(t: Taken) -> Act {
    match t {
        Taken::Cancelled(info) => Act::Cancel(info@),
        _ => Act::GoOn,
    }
}

/// A run after a result came in.
pub open spec fn after_arrival(run: Run, f: Finding) -> Run {
    if run.superseded.contains(f.job_id) {
        run
    } else {
        match acceptance(f, run.solve_id, run.expected, run.completed) {
            Acceptance::Foreign => run,
            Acceptance::Ignored(w) => warned(run, w),
            Acceptance::Accepted => Run { completed: run.completed.insert(f.job_id), ..run },
        }
    }
}

/// Whether a result counts.
pub open spec fn counts(run: Run, f: Finding) -> bool {
    !run.superseded.contains(f.job_id) && acceptance(
        f,
        run.solve_id,
        run.expected,
        run.completed,
    ) is Accepted
}

/// What is to be done about a result that counts.
#[derive(Debug)]
pub enum ResultPlan {
    /// Its job was split: send out the parts.
    Split,
    /// Its job failed: send it out again.
    Redelegate { job: SubproblemJob, retry_index: usize },
    /// Its job failed and is not known.
    Lost,
    /// Its job is done.
    Done,
}

impl ResultPlan {
    /// Whether the message with the result is acknowledged when the plan has been
    /// carried out. Where a job was split, or is not known, the message is left.
    pub fn acknowledges(&self) -> (r: bool)
        ensures
            r == (*self is Redelegate || *self is Done),
    {
        match self {
            ResultPlan::Split | ResultPlan::Lost => false,
            ResultPlan::Redelegate { .. } | ResultPlan::Done => true,
        }
    }
}

/// Whether a result says that its job was split.
pub open spec fn is_split(f: Finding) -> bool {
    f.status == "split"@ && f.child_jobs.len() > 0
}

/// Whether the job of a result is to be sent out again.
pub open spec fn is_to_retry(run: Run, f: Finding) -> bool {
    f.status == "error"@ && known_retry(run, f.job_id, 0) < run.max_retries
}

/// A run after a part of a job has been sent out.
pub open spec fn with_part(run: Run, part: Job) -> Run {
    Run { jobs_published: (run.jobs_published + 1) as usize, ..enlisted(run, part, 0) }
}

/// A run after every part of a job has been sent out.
pub open spec fn split_up(run: Run, parts: nat) -> Run {
    Run {
        jobs_expected: expected_after_split(run.jobs_expected, parts as usize),
        jobs_split: (run.jobs_split + 1) as usize,
        ..run
    }
}

/// The result that stands for a job whose parts could not be sent out.
pub open spec fn unsplit(f: Finding, error: Seq<char>) -> Finding {
    Finding {
        status: "error"@,
        error: Some("failed to publish split children: "@ + error),
        ..f
    }
}

/// A run after the parts of a job could not be sent out.
pub open spec fn split_broken(run: Run, f: Finding, error: Seq<char>) -> Run {
    kept(
        warned(
            run,
            "failed to publish split children for job "@ + f.job_id + ": "@ + error,
        ),
        unsplit(f, error),
    )
}

/// A run after a failed job has been sent out again.
pub open spec fn sent_again(run: Run, job: Job, retry: usize) -> Run {
    Run {
        jobs_published: (run.jobs_published + 1) as usize,
        jobs_redelegated: (run.jobs_redelegated + 1) as usize,
        ..enlisted(run, job, retry)
    }
}

fn add_warning(run: &mut SolveRun, warning: String)
    ensures
        final(run)@ == warned(old(run)@, warning@),
{
    let ghost before = run@;
    run.warnings.push(warning);
    assert(texts(run.warnings@) =~= before.warnings.push(warning@));
    assert(run@ =~= warned(before, warning@));
}

fn enlist(run: &mut SolveRun, job: &SubproblemJob, retry: usize)
    ensures
        final(run)@ == enlisted(old(run)@, job@, retry),
{
    let ghost before = run@;
    run.expected.insert(job.job_id.clone());
    run.retries.insert(job.job_id.clone(), RetryIndex { index: retry });
    run.jobs.insert(job.job_id.clone(), job.clone());
    assert(run@ =~= enlisted(before, job@, retry));
}

impl SolveRun {
    /// Begins to wait for the results of jobs that have been sent out.
    pub fn new(
        solve_id: &str,
        max_retries: usize,
        jobs: &Vec<SubproblemJob>,
        warnings: Vec<String>,
    ) -> (r: SolveRun)
        ensures
            r@ == begun(solve_id@, max_retries, jobs_view(jobs@), texts(warnings@)),
    {
        let n: usize = jobs.len();
        let mut run = SolveRun {
            solve_id: solve_id.to_owned(),
            max_retries,
            expected: IdSet::new(),
            completed: IdSet::new(),
            superseded: IdSet::new(),
            jobs: Table::new(),
            retries: Table::new(),
            results: Vec::new(),
            jobs_expected: n,
            jobs_published: n,
            jobs_redelegated: 0,
            jobs_split: 0,
            warnings,
            timed_out: false,
        };
        let ghost first = empty_run(solve_id@, max_retries, n, texts(warnings@));
        assert(findings(run.results@) =~= Seq::empty());
        assert(run@ =~= first);
        let ghost all = jobs_view(jobs@);
        assert(all.take(0) =~= Seq::empty());
        let mut i: usize = 0;
        while i < jobs.len()
            invariant
                i <= jobs@.len(),
                all == jobs_view(jobs@),
                run@ == all_enlisted(first, all.take(i as int)),
            decreases jobs@.len() - i,
        {
            assert(all.take(i + 1).drop_last() =~= all.take(i as int));
            assert(all.take(i + 1).last() == jobs@[i as int]@);
            enlist(&mut run, &jobs[i], 0);
            i = i + 1;
        }
        assert(all.take(i as int) =~= all);
        run
    }

    /// Turns to the results again.
    pub fn next_turn(&self, cancels: &Table<CancelInfo>) -> (r: Move)
        ensures
            r@ == act_at(
                Moment::Turning { run: self@ },
                cancellation_of(cancels@, self@.solve_id),
            ),
    {
        if !self.awaiting() {
            return Move::Finish;
        }
        match solve_cancel_info(cancels, self.solve_id.as_str()) {
            Some(info) => Move::Cancel(info),
            None => Move::GoOn,
        }
    }

    /// Whether results are still to come.
    pub fn awaiting(&self) -> (r: bool)
        ensures
            r == (self@.results.len() < self@.jobs_expected),
    {
        self.results.len() < self.jobs_expected
    }

    /// What to do about a job whose worker is silent.
    pub fn stale_step(&mut self, stale: &StaleWorkerJob, now: u128) -> (r: StaleStep)
        requires
            next_attempt(old(self)@, stale.job_id@) <= usize::MAX,
        ensures
            match r {
                StaleStep::Skip => {
                    &&& old(self)@.superseded.contains(stale.job_id@)
                    &&& final(self)@ == old(self)@
                },
                StaleStep::Lost => {
                    &&& !old(self)@.superseded.contains(stale.job_id@)
                    &&& !old(self)@.jobs.contains_key(stale.job_id@)
                    &&& final(self)@ == warned(old(self)@, lost_warning(stale.job_id@))
                },
                StaleStep::Publish { job, retry_index } => {
                    &&& !old(self)@.superseded.contains(stale.job_id@)
                    &&& old(self)@.jobs.contains_key(stale.job_id@)
                    &&& retry_index == next_attempt(old(self)@, stale.job_id@)
                    &&& job@ == replacement(
                        old(self)@.jobs[stale.job_id@],
                        retry_index,
                        stale.worker_node@,
                        job.job_uuid@,
                        now,
                    )
                    &&& is_random_uuid(job.job_uuid@)
                    &&& final(self)@ == old(self)@
                },
            },
    {
        if self.superseded.contains(stale.job_id.as_str()) {
            return StaleStep::Skip;
        }
        let known: usize = match self.retries.get(stale.job_id.as_str()) {
            Some(n) => n.index,
            None => job_retry_index(stale.job_id.as_str()),
        };
        let next: usize = known + 1;
        let found = match self.jobs.get(stale.job_id.as_str()) {
            Some(original) => Some(redelegated_job(original, next, now)),
            None => None,
        };
        match found {
            None => {
                let mut w = "cannot requeue stale job ".to_owned();
                w.append(stale.job_id.as_str());
                w.append("; original job payload not found");
                add_warning(self, w);
                StaleStep::Lost
            },
            Some(mut job) => {
                let ghost again = job@;
                if !is_listed(&job.avoid_worker_nodes, stale.worker_node.as_str()) {
                    job.avoid_worker_nodes.push(stale.worker_node.clone());
                    assert(texts(job.avoid_worker_nodes@) =~= again.avoid_worker_nodes.push(
                        stale.worker_node@,
                    ));
                }
                assert(job@ =~= Job {
                    avoid_worker_nodes: with_node(again.avoid_worker_nodes, stale.worker_node@),
                    ..again
                });
                StaleStep::Publish { job, retry_index: next }
            },
        }
    }

    /// Notes that a job has been sent out in place of one whose worker is silent.
    pub fn stale_requeued(&mut self, stale: &StaleWorkerJob, job: &SubproblemJob, retry: usize)
        requires
            old(self).jobs_published < usize::MAX,
            old(self).jobs_redelegated < usize::MAX,
        ensures
            final(self)@ == replaced(
                old(self)@,
                stale.job_id@,
                stale.worker_node@,
                stale@.job_uuid,
                job@,
                retry,
            ),
    {
        let ghost before = self@;
        self.expected.remove(stale.job_id.as_str());
        enlist(self, job, retry);
        self.superseded.insert(stale.job_id.clone());
        self.jobs_published = self.jobs_published + 1;
        self.jobs_redelegated = self.jobs_redelegated + 1;
        let mut w = "worker ".to_owned();
        w.append(stale.worker_node.as_str());
        w.append(" missed heartbeat for job ");
        w.append(stale.job_id.as_str());
        w.append(" (");
        match &stale.job_uuid {
            Some(u) => {
                w.append(u.as_str());
            },
            None => {
                w.append("unknown");
            },
        }
        w.append("); requeued as ");
        w.append(job.job_id.as_str());
        assert(w@ == requeue_warning(
            stale.worker_node@,
            stale.job_id@,
            stale@.job_uuid,
            job.job_id@,
        ));
        add_warning(self, w);
        assert(self@ =~= replaced(
            before,
            stale.job_id@,
            stale.worker_node@,
            stale@.job_uuid,
            job@,
            retry,
        ));
    }

    /// Notes that a job could not be sent out in place of one whose worker is
    /// silent.
    pub fn stale_requeue_failed(&mut self, stale: &StaleWorkerJob, error: &str)
        ensures
            final(self)@ == warned(
                old(self)@,
                "failed to requeue stale job "@ + stale.job_id@ + " from worker "@
                    + stale.worker_node@ + ": "@ + error@,
            ),
    {
        let mut w = "failed to requeue stale job ".to_owned();
        w.append(stale.job_id.as_str());
        w.append(" from worker ");
        w.append(stale.worker_node.as_str());
        w.append(": ");
        w.append(error);
        add_warning(self, w);
    }

    /// Takes in a result.
    pub fn take_result(&mut self, result: SubproblemResult, cancels: &Table<CancelInfo>) -> (r:
        Taken)
        ensures
            final(self)@ == after_arrival(old(self)@, result@),
            act_on_arrival(r) == act_at(
                Moment::Arriving { run: old(self)@, found: result@ },
                cancellation_of(cancels@, old(self)@.solve_id),
            ),
            (r is Accepted || r is Cancelled) == counts(old(self)@, result@),
            r is Accepted ==> r->Accepted_0 == result,
            (r is Superseded) == old(self)@.superseded.contains(result.job_id@),
            (r is Foreign) == (!old(self)@.superseded.contains(result.job_id@)
                && result.solve_id@ != old(self)@.solve_id),
    {
        let ghost before = self@;
        if self.superseded.contains(result.job_id.as_str()) {
            return Taken::Superseded;
        }
        let solve_id = self.solve_id.clone();
        match accept_subproblem_result(
            result,
            solve_id.as_str(),
            &self.expected,
            &mut self.completed,
        ) {
            Ok(Some(f)) => {
                assert(self@ =~= after_arrival(before, result@));
                match solve_cancel_info(cancels, solve_id.as_str()) {
                    Some(info) => Taken::Cancelled(info),
                    None => Taken::Accepted(f),
                }
            },
            Ok(None) => {
                assert(self@ =~= after_arrival(before, result@));
                Taken::Foreign
            },
            Err(w) => {
                assert(self@ =~= before);
                add_warning(self, w);
                Taken::Ignored
            },
        }
    }

    /// What is to be done about a result that counts.
    pub fn plan_for(&self, result: &SubproblemResult, now: u128) -> (r: ResultPlan)
        ensures
            match r {
                ResultPlan::Split => is_split(result@),
                ResultPlan::Redelegate { job, retry_index } => {
                    &&& !is_split(result@)
                    &&& is_to_retry(self@, result@)
                    &&& self@.jobs.contains_key(result.job_id@)
                    &&& retry_index == known_retry(self@, result.job_id@, 0) + 1
                    &&& job@ == redelegated(
                        self@.jobs[result.job_id@],
                        retry_index as nat,
                        job.job_uuid@,
                        now,
                    )
                    &&& is_random_uuid(job.job_uuid@)
                },
                ResultPlan::Lost => {
                    &&& !is_split(result@)
                    &&& is_to_retry(self@, result@)
                    &&& !self@.jobs.contains_key(result.job_id@)
                },
                ResultPlan::Done => !is_split(result@) && !is_to_retry(self@, result@),
            },
    {
        if same(result.status.as_str(), "split") && result.child_jobs.len() > 0 {
            return ResultPlan::Split;
        }
        let known: usize = match self.retries.get(result.job_id.as_str()) {
            Some(n) => n.index,
            None => 0,
        };
        if !should_redelegate_result(result, known, self.max_retries) {
            return ResultPlan::Done;
        }
        match self.jobs.get(result.job_id.as_str()) {
            Some(original) => {
                let next: usize = known + 1;
                ResultPlan::Redelegate {
                    job: redelegated_job(original, next, now),
                    retry_index: next,
                }
            },
            None => ResultPlan::Lost,
        }
    }

    /// Keeps a result.
    pub fn keep(&mut self, result: SubproblemResult)
        ensures
            final(self)@ == kept(old(self)@, result@),
    {
        let ghost before = self@;
        self.results.push(result);
        assert(findings(self.results@) =~= before.results.push(result@));
        assert(self@ =~= kept(before, result@));
    }

    /// Keeps the result of a failed job that is not known.
    pub fn keep_lost(&mut self, result: SubproblemResult)
        ensures
            final(self)@ == kept(
                warned(
                    old(self)@,
                    "cannot re-delegate "@ + result.job_id@ + "; original job payload not found"@,
                ),
                result@,
            ),
    {
        let mut w = "cannot re-delegate ".to_owned();
        w.append(result.job_id.as_str());
        w.append("; original job payload not found");
        add_warning(self, w);
        self.keep(result);
    }

    /// Notes that a part of a job has been sent out.
    pub fn part_published(&mut self, part: &SubproblemJob)
        requires
            old(self).jobs_published < usize::MAX,
        ensures
            final(self)@ == with_part(old(self)@, part@),
    {
        let ghost before = self@;
        enlist(self, part, 0);
        self.jobs_published = self.jobs_published + 1;
        assert(self@ =~= with_part(before, part@));
    }

    /// Notes that every part of a job has been sent out.
    pub fn split_done(&mut self, result: &SubproblemResult)
        requires
            old(self).jobs_split < usize::MAX,
        ensures
            final(self)@ == split_up(old(self)@, result@.child_jobs.len()),
    {
        let ghost before = self@;
        let parts: usize = result.child_jobs.len();
        self.jobs_expected = jobs_expected_after_split(self.jobs_expected, parts);
        self.jobs_split = self.jobs_split + 1;
        assert(self@ =~= split_up(before, parts as nat));
    }

    /// Notes that the parts of a job could not be sent out: the job has failed.
    pub fn split_failed(&mut self, result: SubproblemResult, error: &str)
        ensures
            final(self)@ == split_broken(old(self)@, result@, error@),
    {
        let ghost found = result@;
        let mut w = "failed to publish split children for job ".to_owned();
        w.append(result.job_id.as_str());
        w.append(": ");
        w.append(error);
        add_warning(self, w);
        let mut failed = result;
        let mut e = "failed to publish split children: ".to_owned();
        e.append(error);
        failed.status = "error".to_owned();
        failed.error = Some(e);
        assert(failed@ =~= unsplit(found, error@));
        self.keep(failed);
    }

    /// Notes that a failed job has been sent out again.
    pub fn redelegated(&mut self, job: &SubproblemJob, retry: usize)
        requires
            old(self).jobs_published < usize::MAX,
            old(self).jobs_redelegated < usize::MAX,
        ensures
            final(self)@ == sent_again(old(self)@, job@, retry),
    {
        let ghost before = self@;
        enlist(self, job, retry);
        self.jobs_published = self.jobs_published + 1;
        self.jobs_redelegated = self.jobs_redelegated + 1;
        assert(self@ =~= sent_again(before, job@, retry));
    }

    /// Keeps the result of a failed job that could not be sent out again.
    pub fn redelegation_failed(&mut self, result: SubproblemResult, error: &str)
        ensures
            final(self)@ == kept(
                warned(
                    old(self)@,
                    "failed to re-delegate job "@ + result.job_id@ + ": "@ + error@,
                ),
                result@,
            ),
    {
        let mut w = "failed to re-delegate job ".to_owned();
        w.append(result.job_id.as_str());
        w.append(": ");
        w.append(error);
        add_warning(self, w);
        self.keep(result);
    }

    /// Notes that the results could not be read.
    pub fn reading_failed(&mut self, error: &str)
        ensures
            final(self)@ == warned(old(self)@, "JetStream result consumer error: "@ + error@),
    {
        let mut w = "JetStream result consumer error: ".to_owned();
        w.append(error);
        add_warning(self, w);
    }

    /// Notes that no more results come.
    pub fn reading_closed(&mut self)
        ensures
            final(self)@ == (Run {
                timed_out: true,
                ..warned(old(self)@, "JetStream result consumer closed"@)
            }),
    {
        let ghost before = self@;
        add_warning(self, "JetStream result consumer closed".to_owned());
        self.timed_out = true;
        assert(self@ =~= Run {
            timed_out: true,
            ..warned(before, "JetStream result consumer closed"@)
        });
    }

    /// What the jobs came to.
    pub fn totals(self) -> (r: SolveTotals)
        ensures
            r@ == (Totals {
                results: self@.results,
                jobs_expected: self@.jobs_expected,
                jobs_published: self@.jobs_published,
                jobs_redelegated: self@.jobs_redelegated,
                jobs_split: self@.jobs_split,
                timed_out: self@.timed_out,
                warnings: self@.warnings,
            }),
    {
        SolveTotals {
            results: self.results,
            jobs_expected: self.jobs_expected,
            jobs_published: self.jobs_published,
            jobs_redelegated: self.jobs_redelegated,
            jobs_split: self.jobs_split,
            timed_out: self.timed_out,
            warnings: self.warnings,
        }
    }

    /// Notes that the time is up.
    pub fn time_is_up(&mut self)
        ensures
            final(self)@ == (Run { timed_out: true, ..old(self)@ }),
    {
        let ghost before = self@;
        self.timed_out = true;
        assert(self@ =~= Run { timed_out: true, ..before });
    }
}

/// How long to wait for the next result: not beyond the end of the solve, and not
/// longer than a master may go without looking for cancellations; none where the
/// time is up.
pub fn wait_time(now: u128, deadline: u128, poll: u128) -> (r: Option<u128>)
    ensures
        match r {
            None => now >= deadline,
            Some(t) => now < deadline && t == if deadline - now <= poll {
                deadline - now
            } else {
                poll as int
            },
        },
{
    if now >= deadline {
        return None;
    }
    let left: u128 = deadline - now;
    if left <= poll {
        Some(left)
    } else {
        Some(poll)
    }
}

/// Whether a wait that brought nothing has used up the time of the solve.
pub fn wait_is_over(now: u128, deadline: u128, wait: u128) -> (r: bool)
    requires
        now <= deadline,
    ensures
        r == (wait >= deadline - now),
{
    wait >= deadline - now
}

/// The time that a solve has, in milliseconds.
pub open spec fn timeout_of(o: Choices) -> u64 {
    match o.timeout_ms {
        Some(t) => t,
        None => 120_000,
    }
}

/// The time that a solve has, in milliseconds.
pub fn timeout_ms(options: &SolveOptions) -> (r: u64)
    ensures
        r == timeout_of(options@),
{
    match options.timeout_ms {
        Some(t) => t,
        None => 120_000,
    }
}

// What a master waits for.

/// The jobs whose results have not come.
pub open spec fn outstanding(run: Run) -> Set<Seq<char>> {
    run.expected.difference(run.completed)
}

/// Whether a master waits for no more results than there are: those that it has,
/// those of the jobs that are out, and `more`.
pub open spec fn covered(run: Run, more: int) -> bool {
    &&& run.expected.finite()
    &&& run.jobs_expected <= run.results.len() + more + outstanding(run).len()
}

/// Whether a run has never awaited a job of that identifier.
pub open spec fn is_fresh(run: Run, id: Seq<char>) -> bool {
    !run.expected.contains(id) && !run.completed.contains(id)
}

proof fn enlisting_adds_one(run: Run, job: Job, retry: usize)
    requires
        run.expected.finite(),
        is_fresh(run, job.job_id),
    ensures
        enlisted(run, job, retry).expected.finite(),
        outstanding(enlisted(run, job, retry)).len() == outstanding(run).len() + 1,
{
    assert(outstanding(enlisted(run, job, retry)) =~= outstanding(run).insert(job.job_id));
}

/// Whether no two of a list of jobs have the same identifier.
pub open spec fn distinct_jobs(jobs: Seq<Job>) -> bool {
    forall|i: int, j: int|
        0 <= i < j < jobs.len() ==> (#[trigger] jobs[i]).job_id != (#[trigger] jobs[j]).job_id
}

proof fn beginning(run: Run, jobs: Seq<Job>)
    requires
        run.expected == Set::<Seq<char>>::empty(),
        run.completed == Set::<Seq<char>>::empty(),
        distinct_jobs(jobs),
    ensures
        ({
            let r = all_enlisted(run, jobs);
            &&& r.expected.finite()
            &&& r.completed == run.completed
            &&& r.results == run.results
            &&& r.jobs_expected == run.jobs_expected
            &&& outstanding(r).len() == jobs.len()
            &&& forall|x: Seq<char>| #[trigger]
                r.expected.contains(x) <==> exists|i: int| 0 <= i < jobs.len() && jobs[i].job_id == x
        }),
    decreases jobs.len(),
{
    let r = all_enlisted(run, jobs);
    if jobs.len() == 0 {
        assert(outstanding(r) =~= Set::empty());
    } else {
        let head = jobs.drop_last();
        let h = all_enlisted(run, head);
        assert(distinct_jobs(head)) by {
            assert forall|i: int, j: int| 0 <= i < j < head.len() implies (
            #[trigger] head[i]).job_id != (#[trigger] head[j]).job_id by {
                assert(jobs[i].job_id != jobs[j].job_id);
            }
        }
        beginning(run, head);
        assert(!h.expected.contains(jobs.last().job_id)) by {
            if h.expected.contains(jobs.last().job_id) {
                let i = choose|i: int|
                    0 <= i < head.len() && head[i].job_id == jobs.last().job_id;
                assert(jobs[i].job_id != jobs[jobs.len() - 1].job_id);
            }
        }
        enlisting_adds_one(h, jobs.last(), 0);
        assert forall|x: Seq<char>| #[trigger] r.expected.contains(x) <==> exists|i: int|
            0 <= i < jobs.len() && jobs[i].job_id == x by {
            if h.expected.contains(x) {
                let i = choose|i: int| 0 <= i < head.len() && head[i].job_id == x;
                assert(jobs[i].job_id == x);
            }
            if x == jobs.last().job_id {
                assert(jobs[jobs.len() - 1].job_id == x);
            }
            if exists|i: int| 0 <= i < jobs.len() && jobs[i].job_id == x {
                let i = choose|i: int| 0 <= i < jobs.len() && jobs[i].job_id == x;
                if i < head.len() {
                    assert(head[i].job_id == x);
                }
            }
        }
    }
}

/// A run begins by waiting for as many results as it has jobs out.
pub proof fn runs_begin_covered(
    solve_id: Seq<char>,
    max_retries: usize,
    jobs: Seq<Job>,
    warnings: Seq<Seq<char>>,
)
    requires
        distinct_jobs(jobs),
        jobs.len() <= usize::MAX,
    ensures
        covered(begun(solve_id, max_retries, jobs, warnings), 0),
{
    beginning(empty_run(solve_id, max_retries, jobs.len() as usize, warnings), jobs);
}

/// Taking in a result leaves the run covered: where the result counts, it is in
/// hand.
pub proof fn arrivals_keep_covered(run: Run, f: Finding)
    requires
        covered(run, 0),
    ensures
        covered(
            after_arrival(run, f),
            if counts(run, f) {
                1
            } else {
                0
            },
        ),
{
    if counts(run, f) {
        let after = after_arrival(run, f);
        assert(outstanding(after) =~= outstanding(run).remove(f.job_id));
        assert(outstanding(run).contains(f.job_id));
    } else {
        assert(outstanding(after_arrival(run, f)) =~= outstanding(run));
    }
}

/// A result in hand that is kept, in whichever way, leaves the run covered.
pub proof fn keeping_keeps_covered(run: Run, f: Finding, warning: Seq<char>)
    requires
        covered(run, 1),
    ensures
        covered(kept(run, f), 0),
        covered(kept(warned(run, warning), f), 0),
{
    assert(outstanding(kept(run, f)) =~= outstanding(run));
    assert(outstanding(kept(warned(run, warning), f)) =~= outstanding(run));
}

/// Sending a failed job out again, under a new identifier, leaves the run covered.
pub proof fn retries_keep_covered(run: Run, job: Job, retry: usize)
    requires
        covered(run, 1),
        is_fresh(run, job.job_id),
    ensures
        covered(sent_again(run, job, retry), 0),
{
    enlisting_adds_one(run, job, retry);
    assert(outstanding(sent_again(run, job, retry)) =~= outstanding(enlisted(run, job, retry)));
}

/// A run after several parts of a job have been sent out.
pub open spec fn with_parts(run: Run, parts: Seq<Job>) -> Run
    decreases parts.len(),
{
    if parts.len() == 0 {
        run
    } else {
        with_part(with_parts(run, parts.drop_last()), parts.last())
    }
}

proof fn parts_add_up(run: Run, parts: Seq<Job>)
    requires
        run.expected.finite(),
        distinct_jobs(parts),
        forall|i: int| 0 <= i < parts.len() ==> is_fresh(run, (#[trigger] parts[i]).job_id),
    ensures
        ({
            let r = with_parts(run, parts);
            &&& r.expected.finite()
            &&& r.completed == run.completed
            &&& r.results == run.results
            &&& r.jobs_expected == run.jobs_expected
            &&& outstanding(r).len() == outstanding(run).len() + parts.len()
            &&& forall|x: Seq<char>| #[trigger]
                r.expected.contains(x) <==> run.expected.contains(x) || exists|i: int|
                    0 <= i < parts.len() && parts[i].job_id == x
        }),
    decreases parts.len(),
{
    let r = with_parts(run, parts);
    if parts.len() > 0 {
        let head = parts.drop_last();
        let h = with_parts(run, head);
        assert(distinct_jobs(head)) by {
            assert forall|i: int, j: int| 0 <= i < j < head.len() implies (
            #[trigger] head[i]).job_id != (#[trigger] head[j]).job_id by {
                assert(parts[i].job_id != parts[j].job_id);
            }
        }
        assert forall|i: int| 0 <= i < head.len() implies is_fresh(
            run,
            (#[trigger] head[i]).job_id,
        ) by {
            assert(is_fresh(run, parts[i].job_id));
        }
        parts_add_up(run, head);
        assert(is_fresh(h, parts.last().job_id)) by {
            assert(is_fresh(run, parts[parts.len() - 1].job_id));
            if h.expected.contains(parts.last().job_id) {
                let i = choose|i: int|
                    0 <= i < head.len() && head[i].job_id == parts.last().job_id;
                assert(parts[i].job_id != parts[parts.len() - 1].job_id);
            }
        }
        enlisting_adds_one(h, parts.last(), 0);
        assert(outstanding(r) =~= outstanding(enlisted(h, parts.last(), 0)));
        assert forall|x: Seq<char>| #[trigger] r.expected.contains(x) <==> run.expected.contains(x)
            || exists|i: int| 0 <= i < parts.len() && parts[i].job_id == x by {
            if x == parts.last().job_id {
                assert(parts[parts.len() - 1].job_id == x);
            }
            if h.expected.contains(x) && !run.expected.contains(x) {
                let i = choose|i: int| 0 <= i < head.len() && head[i].job_id == x;
                assert(parts[i].job_id == x);
            }
            if exists|i: int| 0 <= i < parts.len() && parts[i].job_id == x {
                let i = choose|i: int| 0 <= i < parts.len() && parts[i].job_id == x;
                if i < head.len() {
                    assert(head[i].job_id == x);
                }
            }
        }
    }
}

/// Sending out the parts of a job, each under a new identifier, leaves the run
/// covered; so does giving up after some of them.
pub proof fn splits_keep_covered(run: Run, parts: Seq<Job>, f: Finding, error: Seq<char>)
    requires
        covered(run, 1),
        parts.len() <= usize::MAX,
        distinct_jobs(parts),
        forall|i: int| 0 <= i < parts.len() ==> is_fresh(run, (#[trigger] parts[i]).job_id),
    ensures
        parts.len() > 0 ==> covered(split_up(with_parts(run, parts), parts.len()), 0),
        covered(split_broken(with_parts(run, parts), f, error), 0),
{
    parts_add_up(run, parts);
    let r = with_parts(run, parts);
    assert(outstanding(split_up(r, parts.len())) =~= outstanding(r));
    assert(outstanding(split_broken(r, f, error)) =~= outstanding(r));
}

/// Sending a job out in place of one that is out, under a new identifier, leaves
/// the run covered, and no result of the old one counts any more.
pub proof fn requeues_keep_covered(
    run: Run,
    stale_id: Seq<char>,
    worker: Seq<char>,
    uuid: Option<Seq<char>>,
    job: Job,
    retry: usize,
    late: Finding,
)
    requires
        covered(run, 0),
        outstanding(run).contains(stale_id),
        is_fresh(run, job.job_id),
    ensures
        covered(replaced(run, stale_id, worker, uuid, job, retry), 0),
        late.job_id == stale_id ==> !counts(
            replaced(run, stale_id, worker, uuid, job, retry),
            late,
        ),
{
    let fewer = Run { expected: run.expected.remove(stale_id), ..run };
    assert(outstanding(fewer) =~= outstanding(run).remove(stale_id));
    enlisting_adds_one(fewer, job, retry);
    assert(outstanding(replaced(run, stale_id, worker, uuid, job, retry)) =~= outstanding(
        enlisted(fewer, job, retry),
    ));
}

/// A covered run that still waits has a job out.
pub proof fn waiting_is_for_something(run: Run)
    requires
        covered(run, 0),
        run.results.len() < run.jobs_expected,
    ensures
        exists|id: Seq<char>| #[trigger] run.expected.contains(id) && !run.completed.contains(id),
{
    let out = outstanding(run);
    assert(out.len() > 0);
    let id = out.choose();
    assert(out.contains(id));
    assert(run.expected.contains(id));
}

/// The job that is sent out in place of one whose worker is silent is that job, and
/// keeps away from that worker and from those that it kept away from before.
pub proof fn replacements_avoid_the_silent_worker(
    original: Job,
    index: usize,
    worker: Seq<char>,
    uuid: Seq<char>,
    now: u128,
)
    ensures
        ({
            let again = replacement(original, index, worker, uuid, now);
            &&& again.avoid_worker_nodes.contains(worker)
            &&& forall|node: Seq<char>|
                original.avoid_worker_nodes.contains(node)
                    ==> #[trigger] again.avoid_worker_nodes.contains(node)
            &&& again.avoid_worker_nodes.len() <= original.avoid_worker_nodes.len() + 1
            &&& retry_index(again.job_id) == index
            &&& again.job_uuid == uuid
            &&& again.problem == original.problem
            &&& again.problem_stored == original.problem_stored
            &&& again.problem_id == original.problem_id
            &&& again.extra_constraints == original.extra_constraints
            &&& again.options == original.options
            &&& again.solve_id == original.solve_id
            &&& again.revision == original.revision
            &&& again.depth == original.depth
        }),
{
    retries_are_the_same_job(original, index as nat, uuid, now);
    let before = original.avoid_worker_nodes;
    let after = replacement(original, index, worker, uuid, now).avoid_worker_nodes;
    if !before.contains(worker) {
        assert(after[before.len() as int] == worker);
        assert forall|node: Seq<char>| before.contains(node) implies #[trigger] after.contains(
            node,
        ) by {
            let k = choose|k: int| 0 <= k < before.len() && before[k] == node;
            assert(after[k] == node);
        }
    }
}

proof fn enlisted_jobs_are_known(run: Run, jobs: Seq<Job>, i: int)
    requires
        distinct_jobs(jobs),
        0 <= i < jobs.len(),
    ensures
        ({
            let r = all_enlisted(run, jobs);
            &&& r.expected.contains(jobs[i].job_id)
            &&& r.jobs.contains_key(jobs[i].job_id) && r.jobs[jobs[i].job_id] == jobs[i]
            &&& r.retries.contains_key(jobs[i].job_id) && r.retries[jobs[i].job_id] == 0
        }),
    decreases jobs.len(),
{
    if i < jobs.len() - 1 {
        let head = jobs.drop_last();
        assert(distinct_jobs(head)) by {
            assert forall|a: int, b: int| 0 <= a < b < head.len() implies (
            #[trigger] head[a]).job_id != (#[trigger] head[b]).job_id by {
                assert(jobs[a].job_id != jobs[b].job_id);
            }
        }
        enlisted_jobs_are_known(run, head, i);
        assert(jobs[i].job_id != jobs[jobs.len() - 1].job_id);
    }
}

/// A run begins by awaiting each of its jobs, which it knows by their identifiers
/// and counts as sent out and not yet tried again.
pub proof fn runs_know_their_jobs(
    solve_id: Seq<char>,
    max_retries: usize,
    jobs: Seq<Job>,
    warnings: Seq<Seq<char>>,
    i: int,
)
    requires
        distinct_jobs(jobs),
        jobs.len() <= usize::MAX,
        0 <= i < jobs.len(),
    ensures
        ({
            let r = begun(solve_id, max_retries, jobs, warnings);
            &&& r.expected.contains(jobs[i].job_id)
            &&& r.jobs.contains_key(jobs[i].job_id) && r.jobs[jobs[i].job_id] == jobs[i]
            &&& r.retries.contains_key(jobs[i].job_id) && r.retries[jobs[i].job_id] == 0
        }),
{
    enlisted_jobs_are_known(
        empty_run(solve_id, max_retries, jobs.len() as usize, warnings),
        jobs,
        i,
    );
}

/// What a run counts and keeps: a job that is sent out again, or in place of another
/// one, counts as sent out and as tried again; a part counts as sent out; a job whose
/// parts are out counts as split, and its parts take its place among the expected
/// results; a result that is kept stands last. Nothing that was kept is lost.
pub proof fn runs_count_what_they_do(
    run: Run,
    job: Job,
    retry: usize,
    f: Finding,
    stale_id: Seq<char>,
    worker: Seq<char>,
    uuid: Option<Seq<char>>,
    error: Seq<char>,
    parts: nat,
)
    requires
        run.jobs_published < usize::MAX,
        run.jobs_redelegated < usize::MAX,
        run.jobs_split < usize::MAX,
        1 <= parts,
        run.jobs_expected + parts <= usize::MAX,
    ensures
        ({
            let r = sent_again(run, job, retry);
            &&& r.jobs_published == run.jobs_published + 1
            &&& r.jobs_redelegated == run.jobs_redelegated + 1
            &&& r.jobs_expected == run.jobs_expected && r.jobs_split == run.jobs_split
            &&& r.expected.contains(job.job_id) && r.retries[job.job_id] == retry
            &&& r.jobs[job.job_id] == job
            &&& r.results == run.results && r.completed == run.completed
        }),
        ({
            let r = replaced(run, stale_id, worker, uuid, job, retry);
            &&& r.jobs_published == run.jobs_published + 1
            &&& r.jobs_redelegated == run.jobs_redelegated + 1
            &&& r.jobs_expected == run.jobs_expected && r.jobs_split == run.jobs_split
            &&& r.expected.contains(job.job_id) && r.retries[job.job_id] == retry
            &&& r.jobs[job.job_id] == job
            &&& job.job_id != stale_id ==> !r.expected.contains(stale_id)
            &&& r.superseded.contains(stale_id)
            &&& r.results == run.results && r.completed == run.completed
        }),
        ({
            let r = with_part(run, job);
            &&& r.jobs_published == run.jobs_published + 1
            &&& r.jobs_redelegated == run.jobs_redelegated
            &&& r.jobs_expected == run.jobs_expected && r.jobs_split == run.jobs_split
            &&& r.expected.contains(job.job_id) && r.retries[job.job_id] == 0
            &&& r.jobs[job.job_id] == job
            &&& r.results == run.results
        }),
        ({
            let r = split_up(run, parts);
            &&& r.jobs_split == run.jobs_split + 1
            &&& r.jobs_expected == run.jobs_expected + parts - 1
            &&& r.jobs_published == run.jobs_published && r.results == run.results
        }),
        kept(run, f).results == run.results.push(f),
        ({
            let r = split_broken(run, f, error);
            &&& r.results.len() == run.results.len() + 1
            &&& r.results.last().status == "error"@
            &&& r.results.last().job_id == f.job_id
            &&& r.results.last().error is Some
            &&& r.jobs_split == run.jobs_split && r.jobs_expected == run.jobs_expected
        }),
{
}

/// A result counts exactly where its job is expected, has not been answered and has
/// not been replaced, and the result is that of this solve.
pub proof fn counted_results_are_awaited(run: Run, f: Finding)
    ensures
        counts(run, f) <==> f.solve_id == run.solve_id && run.expected.contains(f.job_id)
            && !run.completed.contains(f.job_id) && !run.superseded.contains(f.job_id),
        counts(run, f) ==> after_arrival(run, f).completed == run.completed.insert(f.job_id),
        !counts(run, f) ==> after_arrival(run, f).completed == run.completed,
        after_arrival(run, f).expected == run.expected && after_arrival(run, f).results
            == run.results,
{
}

/// What applies where the options say nothing: two more attempts, and two minutes.
pub proof fn runs_have_defaults(o: Choices)
    ensures
        o.max_job_retries is None ==> max_retries_of(o) == 2,
        o.max_job_retries matches Some(n) ==> max_retries_of(o) == n,
        o.timeout_ms is None ==> timeout_of(o) == 120_000,
        o.timeout_ms matches Some(t) ==> timeout_of(o) == t,
{
}

/// A failed job is tried again exactly while it has been tried fewer times again than is
/// allowed; one of which nothing is known has not been tried again. Parts are taken only
/// from a split result that brings some.
pub proof fn failed_jobs_are_tried_again(run: Run, f: Finding)
    ensures
        is_to_retry(run, f) ==> f.status == "error"@ && !is_split(f),
        f.status == "error"@ && run.retries.contains_key(f.job_id) ==> (is_to_retry(run, f) <==>
            run.retries[f.job_id] < run.max_retries),
        f.status == "error"@ && !run.retries.contains_key(f.job_id) ==> (is_to_retry(run, f) <==> 0
            < run.max_retries),
        run.max_retries == 0 ==> !is_to_retry(run, f),
        is_split(f) <==> f.status == "split"@ && f.child_jobs.len() > 0,
        run.retries.contains_key(f.job_id) ==> next_attempt(run, f.job_id)
            == run.retries[f.job_id] + 1,
{
    reveal_strlit("error");
    reveal_strlit("split");
    assert("error"@[0] == 'e' && "split"@[0] == 's');
}

/// Each retry of a job comes nearer to the last that is allowed.
pub proof fn retries_end(run: Run, f: Finding, again: Job)
    requires
        is_to_retry(run, f),
        run.jobs_published < usize::MAX,
        run.jobs_redelegated < usize::MAX,
        run.max_retries < usize::MAX,
    ensures
        ({
            let index = (known_retry(run, f.job_id, 0) + 1) as usize;
            let r = sent_again(run, again, index);
            let late = Finding { job_id: again.job_id, status: "error"@, ..f };
            &&& index <= run.max_retries
            &&& is_to_retry(r, late) <==> index < run.max_retries
        }),
{
}

}
