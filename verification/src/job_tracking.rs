//! The course of the jobs of a solve, as the registry sees it.

use crate::id_set::IdSet;
use crate::jobs::{Finding, Job, SubproblemJob, SubproblemResult};
use crate::json::Json;
use crate::model::text_view;
use crate::registry::{
    blank_job, new_job_entry, one_more, with_change, JobEntry, JobRegistryEntry, SolveEntry,
    SolveRegistryEntry, Solves,
};
use crate::table::Table;
use crate::text::{dec, decimal_u128, same};
use vstd::prelude::*;
use vstd::string::*;

verus! {

fn count_up(n: usize) -> (r: usize)
    ensures
        r == one_more(n),
{
    if n < usize::MAX {
        n + 1
    } else {
        n
    }
}

/// An entry for a job that has been sent out.
pub open spec fn submitted_entry(job: Job) -> JobEntry {
    JobEntry {
        job_uuid: Some(job.job_uuid),
        problem_id: job.problem_id,
        depth: job.depth,
        status: "submitted"@,
        submitted_at_ms: job.submitted_at_ms,
        ..blank_job(job.job_id)
    }
}

/// A solve of which a job has been sent out.
pub open spec fn after_submission(e: SolveEntry, job: Job, now: u128) -> SolveEntry {
    SolveEntry {
        jobs_published: one_more(e.jobs_published),
        updated_at_ms: now,
        jobs: e.jobs.insert(job.job_id, submitted_entry(job)),
        ..e
    }
}

/// Notes that a job has been sent out.
pub fn track_job_submitted(
    solves: &mut Table<SolveRegistryEntry>,
    job: &SubproblemJob,
    now_ms: u128,
)
    ensures
        final(solves)@ == with_change(
            old(solves)@,
            job.solve_id@,
            |e: SolveEntry| after_submission(e, job@, now_ms),
        ),
{
    let ghost before = solves@;
    if let Some(mut solve) = solves.remove(job.solve_id.as_str()) {
        solve.jobs_published = count_up(solve.jobs_published);
        solve.updated_at_ms = now_ms;
        let mut entry = new_job_entry(job.job_id.as_str());
        entry.job_uuid = Some(job.job_uuid.clone());
        entry.problem_id = job.problem_id.clone();
        entry.depth = job.depth;
        entry.status = "submitted".to_owned();
        entry.submitted_at_ms = job.submitted_at_ms;
        solve.jobs.insert(job.job_id.clone(), entry);
        solves.insert(job.solve_id.clone(), solve);
    }
    assert(solves@ =~= with_change(
        before,
        job.solve_id@,
        |e: SolveEntry| after_submission(e, job@, now_ms),
    ));
}

/// The entry of a job, a blank one where it has none.
pub open spec fn entry_or_blank(jobs: Map<Seq<char>, JobEntry>, job_id: Seq<char>) -> JobEntry {
    if jobs.contains_key(job_id) {
        jobs[job_id]
    } else {
        blank_job(job_id)
    }
}

fn take_job(jobs: &mut Table<JobRegistryEntry>, job_id: &str) -> (r: JobRegistryEntry)
    ensures
        r@ == entry_or_blank(old(jobs)@, job_id@),
        final(jobs)@ == old(jobs)@.remove(job_id@),
{
    match jobs.remove(job_id) {
        Some(entry) => entry,
        None => new_job_entry(job_id),
    }
}

/// The entry of a job whose result has come. A result that is not the last word
/// on the job leaves it retrying, unless the job was split.
pub open spec fn resulted_entry(entry: JobEntry, result: Finding, terminal: bool) -> JobEntry {
    JobEntry {
        job_uuid: Some(result.job_uuid),
        problem_id: result.problem_id,
        status: if terminal || result.status == "split"@ {
            result.status
        } else {
            "retrying"@
        },
        worker_node: Some(result.worker_node),
        finished_at_ms: Some(result.finished_at_ms),
        error: result.error,
        ..entry
    }
}

/// A solve of which a job's result has come.
pub open spec fn after_result(e: SolveEntry, result: Finding, terminal: bool, now: u128) -> SolveEntry {
    SolveEntry {
        updated_at_ms: now,
        jobs_completed: if terminal {
            one_more(e.jobs_completed)
        } else {
            e.jobs_completed
        },
        jobs: e.jobs.insert(
            result.job_id,
            resulted_entry(entry_or_blank(e.jobs, result.job_id), result, terminal),
        ),
        ..e
    }
}

/// Notes the result of a job.
pub fn track_job_result(
    solves: &mut Table<SolveRegistryEntry>,
    result: &SubproblemResult,
    terminal: bool,
    now_ms: u128,
)
    ensures
        final(solves)@ == with_change(
            old(solves)@,
            result.solve_id@,
            |e: SolveEntry| after_result(e, result@, terminal, now_ms),
        ),
{
    let ghost before = solves@;
    if let Some(mut solve) = solves.remove(result.solve_id.as_str()) {
        let ghost jobs_before = solve.jobs@;
        let mut entry = take_job(&mut solve.jobs, result.job_id.as_str());
        entry.job_uuid = Some(result.job_uuid.clone());
        entry.problem_id = result.problem_id.clone();
        entry.status = if terminal || same(result.status.as_str(), "split") {
            result.status.clone()
        } else {
            "retrying".to_owned()
        };
        entry.worker_node = Some(result.worker_node.clone());
        entry.finished_at_ms = Some(result.finished_at_ms);
        entry.error = result.error.clone();
        let ghost written = entry@;
        solve.jobs.insert(result.job_id.clone(), entry);
        assert(solve.jobs@ =~= jobs_before.insert(result.job_id@, written));
        solve.updated_at_ms = now_ms;
        if terminal {
            solve.jobs_completed = count_up(solve.jobs_completed);
        }
        solves.insert(result.solve_id.clone(), solve);
    }
    assert(solves@ =~= with_change(
        before,
        result.solve_id@,
        |e: SolveEntry| after_result(e, result@, terminal, now_ms),
    ));
}

/// A job that was sent out again because its worker fell silent.
pub open spec fn requeued_entry(
    entry: JobEntry,
    worker: Seq<char>,
    retry_job_id: Seq<char>,
    last_heartbeat_ms: u128,
) -> JobEntry {
    JobEntry {
        status: "stale-requeued"@,
        worker_node: Some(worker),
        error: Some(
            "worker "@ + worker + " missed heartbeat since "@ + dec(last_heartbeat_ms as nat)
                + "; requeued as "@ + retry_job_id,
        ),
        finished_at_ms: None,
        ..entry
    }
}

/// A solve of which a job was sent out again because its worker fell silent; a
/// job that is not known changes nothing.
pub open spec fn after_requeue(
    e: SolveEntry,
    job_id: Seq<char>,
    worker: Seq<char>,
    retry_job_id: Seq<char>,
    last_heartbeat_ms: u128,
    now: u128,
) -> SolveEntry {
    if e.jobs.contains_key(job_id) {
        SolveEntry {
            updated_at_ms: now,
            jobs: e.jobs.insert(
                job_id,
                requeued_entry(e.jobs[job_id], worker, retry_job_id, last_heartbeat_ms),
            ),
            ..e
        }
    } else {
        e
    }
}

/// Notes that a job was sent out again because its worker fell silent.
pub fn track_job_stale_requeued(
    solves: &mut Table<SolveRegistryEntry>,
    solve_id: &str,
    job_id: &str,
    worker_node: &str,
    retry_job_id: &str,
    last_heartbeat_ms: u128,
    now_ms: u128,
)
    ensures
        final(solves)@ == with_change(
            old(solves)@,
            solve_id@,
            |e: SolveEntry|
                after_requeue(
                    e,
                    job_id@,
                    worker_node@,
                    retry_job_id@,
                    last_heartbeat_ms,
                    now_ms,
                ),
        ),
{
    let ghost before = solves@;
    if let Some(mut solve) = solves.remove(solve_id) {
        let ghost jobs_before = solve.jobs@;
        match solve.jobs.remove(job_id) {
            Some(mut entry) => {
                let mut error = "worker ".to_owned();
                error.append(worker_node);
                error.append(" missed heartbeat since ");
                error.append(decimal_u128(last_heartbeat_ms).as_str());
                error.append("; requeued as ");
                error.append(retry_job_id);
                entry.status = "stale-requeued".to_owned();
                entry.worker_node = Some(worker_node.to_owned());
                entry.error = Some(error);
                entry.finished_at_ms = None;
                let ghost written = entry@;
                solve.jobs.insert(job_id.to_owned(), entry);
                assert(solve.jobs@ =~= jobs_before.insert(job_id@, written));
                solve.updated_at_ms = now_ms;
            },
            None => {
                assert(solve.jobs@ =~= jobs_before);
            },
        }
        solves.insert(solve_id.to_owned(), solve);
    }
    assert(solves@ =~= with_change(
        before,
        solve_id@,
        |e: SolveEntry|
            after_requeue(e, job_id@, worker_node@, retry_job_id@, last_heartbeat_ms, now_ms),
    ));
}

/// Notes that a job was sent out again.
pub fn track_job_redelegated(solves: &mut Table<SolveRegistryEntry>, solve_id: &str, now_ms: u128)
    ensures
        final(solves)@ == with_change(
            old(solves)@,
            solve_id@,
            |e: SolveEntry|
                SolveEntry {
                    jobs_redelegated: one_more(e.jobs_redelegated),
                    updated_at_ms: now_ms,
                    ..e
                },
        ),
{
    let ghost before = solves@;
    if let Some(mut solve) = solves.remove(solve_id) {
        solve.jobs_redelegated = count_up(solve.jobs_redelegated);
        solve.updated_at_ms = now_ms;
        solves.insert(solve_id.to_owned(), solve);
    }
    assert(solves@ =~= with_change(
        before,
        solve_id@,
        |e: SolveEntry|
            SolveEntry {
                jobs_redelegated: one_more(e.jobs_redelegated),
                updated_at_ms: now_ms,
                ..e
            },
    ));
}

/// How many jobs are expected after one of them was parted into some children,
/// as far as the number goes.
pub open spec fn expected_after_split(expected: usize, children: usize) -> usize {
    let more = if children > 0 {
        children - 1
    } else {
        0
    };
    if expected + more <= usize::MAX {
        (expected + more) as usize
    } else {
        usize::MAX
    }
}

/// How many jobs are expected after one of them was parted into some children.
pub fn jobs_expected_after_split(expected: usize, children: usize) -> (r: usize)
    ensures
        r == expected_after_split(expected, children),
{
    let more: usize = if children > 0 {
        children - 1
    } else {
        0
    };
    if more <= usize::MAX - expected {
        expected + more
    } else {
        usize::MAX
    }
}

/// Notes that a job was parted into smaller ones, which take its place.
pub fn track_job_split(
    solves: &mut Table<SolveRegistryEntry>,
    solve_id: &str,
    child_count: usize,
    now_ms: u128,
)
    ensures
        final(solves)@ == with_change(
            old(solves)@,
            solve_id@,
            |e: SolveEntry|
                SolveEntry {
                    jobs_split: one_more(e.jobs_split),
                    jobs_expected: expected_after_split(e.jobs_expected, child_count),
                    updated_at_ms: now_ms,
                    ..e
                },
        ),
{
    let ghost before = solves@;
    if let Some(mut solve) = solves.remove(solve_id) {
        solve.jobs_split = count_up(solve.jobs_split);
        solve.jobs_expected = jobs_expected_after_split(solve.jobs_expected, child_count);
        solve.updated_at_ms = now_ms;
        solves.insert(solve_id.to_owned(), solve);
    }
    assert(solves@ =~= with_change(
        before,
        solve_id@,
        |e: SolveEntry|
            SolveEntry {
                jobs_split: one_more(e.jobs_split),
                jobs_expected: expected_after_split(e.jobs_expected, child_count),
                updated_at_ms: now_ms,
                ..e
            },
    ));
}

// Progress.

/// The text in a field, where there is one.
pub fn value_str(value: &Json, key: &str) -> (r: Option<String>)
    ensures
        text_view(r) == value.text_field(key@),
{
    match value.get(key) {
        Some(v) => match v.as_text() {
            Some(s) => Some(s.to_owned()),
            None => None,
        },
        None => None,
    }
}

/// The non-negative integer in a field, where there is one, as a time.
pub open spec fn time_field(value: Json, key: Seq<char>) -> Option<u128> {
    match value.unsigned_field(key) {
        Some(n) => Some(n as u128),
        None => None,
    }
}

/// The non-negative integer in a field, where there is one, as a time.
pub fn value_u128(value: &Json, key: &str) -> (r: Option<u128>)
    ensures
        r == time_field(*value, key@),
{
    match value.get(key) {
        Some(v) => match v.as_unsigned() {
            Some(n) => Some(n as u128),
            None => None,
        },
        None => None,
    }
}

/// A value where it is present, else another one.
pub open spec fn present_or<T>(a: Option<T>, b: T) -> T {
    match a {
        Some(x) => x,
        None => b,
    }
}

/// The first of two where it is present, else the second.
pub open spec fn first_of<T>(a: Option<T>, b: Option<T>) -> Option<T> {
    match a {
        Some(x) => Some(x),
        None => b,
    }
}

/// The entry of a job on which a worker reports progress.
pub open spec fn progressed_entry(
    jobs: Map<Seq<char>, JobEntry>,
    job_id: Seq<char>,
    worker: Seq<char>,
    payload: Json,
    seen_at: u128,
) -> JobEntry {
    let entry = if jobs.contains_key(job_id) {
        jobs[job_id]
    } else {
        JobEntry {
            submitted_at_ms: present_or(time_field(payload, "startedAtMs"@), seen_at),
            ..blank_job(job_id)
        }
    };
    JobEntry {
        job_uuid: first_of(payload.text_field("jobUuid"@), entry.job_uuid),
        problem_id: first_of(payload.text_field("problemId"@), entry.problem_id),
        status: "running"@,
        worker_node: Some(worker),
        last_heartbeat_ms: Some(seen_at),
        finished_at_ms: None,
        error: None,
        ..entry
    }
}

/// A registry after a worker's report on a job; a report without a solve and a
/// job, or on a solve that is not known, changes nothing.
pub open spec fn after_progress(solves: Solves, worker: Seq<char>, payload: Json, seen_at: u128) -> Solves {
    match (payload.text_field("solveId"@), payload.text_field("jobId"@)) {
        (Some(solve_id), Some(job_id)) => with_change(
            solves,
            solve_id,
            |e: SolveEntry|
                SolveEntry {
                    updated_at_ms: seen_at,
                    jobs: e.jobs.insert(
                        job_id,
                        progressed_entry(e.jobs, job_id, worker, payload, seen_at),
                    ),
                    ..e
                },
        ),
        _ => solves,
    }
}

/// Notes a worker's report on a job.
pub fn track_job_worker_progress(
    solves: &mut Table<SolveRegistryEntry>,
    worker_node: &str,
    payload: &Json,
    seen_at: u128,
)
    ensures
        final(solves)@ == after_progress(old(solves)@, worker_node@, *payload, seen_at),
{
    let solve_id = match value_str(payload, "solveId") {
        None => {
            return;
        },
        Some(s) => s,
    };
    let job_id = match value_str(payload, "jobId") {
        None => {
            return;
        },
        Some(s) => s,
    };
    let ghost before = solves@;
    if let Some(mut solve) = solves.remove(solve_id.as_str()) {
        let ghost jobs_before = solve.jobs@;
        let mut entry = match solve.jobs.remove(job_id.as_str()) {
            Some(entry) => entry,
            None => {
                let mut entry = new_job_entry(job_id.as_str());
                entry.submitted_at_ms = match value_u128(payload, "startedAtMs") {
                    Some(t) => t,
                    None => seen_at,
                };
                entry
            },
        };
        if let Some(job_uuid) = value_str(payload, "jobUuid") {
            entry.job_uuid = Some(job_uuid);
        }
        if let Some(problem_id) = value_str(payload, "problemId") {
            entry.problem_id = Some(problem_id);
        }
        entry.status = "running".to_owned();
        entry.worker_node = Some(worker_node.to_owned());
        entry.last_heartbeat_ms = Some(seen_at);
        entry.finished_at_ms = None;
        entry.error = None;
        let ghost written = entry@;
        assert(written =~= progressed_entry(
            jobs_before,
            job_id@,
            worker_node@,
            *payload,
            seen_at,
        ));
        solve.jobs.insert(job_id, entry);
        assert(solve.jobs@ =~= jobs_before.insert(job_id@, written));
        solve.updated_at_ms = seen_at;
        solves.insert(solve_id, solve);
    }
    assert(solves@ =~= after_progress(before, worker_node@, *payload, seen_at));
}

// Silence.

/// A job whose worker has fallen silent.
#[derive(Debug)]
pub struct StaleWorkerJob {
    pub job_id: String,
    pub job_uuid: Option<String>,
    pub worker_node: String,
    pub last_heartbeat_ms: u128,
}

/// The contents of such a job.
#[verifier::ext_equal]
pub struct StaleJob {
    pub job_id: Seq<char>,
    pub job_uuid: Option<Seq<char>>,
    pub worker_node: Seq<char>,
    pub last_heartbeat_ms: u128,
}

impl View for StaleWorkerJob {
    type V = StaleJob;

    open spec fn view(&self) -> StaleJob {
        StaleJob {
            job_id: self.job_id@,
            job_uuid: text_view(self.job_uuid),
            worker_node: self.worker_node@,
            last_heartbeat_ms: self.last_heartbeat_ms,
        }
    }
}

/// What time has passed between two moments; none where the second is the
/// earlier one.
pub open spec fn elapsed(now: u128, then: u128) -> int {
    if now >= then {
        now - then
    } else {
        0
    }
}

/// What time has passed between two moments.
pub fn elapsed_ms(now: u128, then: u128) -> (r: u128)
    ensures
        r == elapsed(now, then),
{
    if now >= then {
        now - then
    } else {
        0
    }
}

/// Whether a job is running at a worker that has been silent for too long; only
/// jobs that are awaited count.
pub open spec fn is_stale(
    entry: JobEntry,
    active: Set<Seq<char>>,
    completed: Set<Seq<char>>,
    stale_after_ms: u128,
    now: u128,
) -> bool {
    &&& active.contains(entry.job_id)
    &&& !completed.contains(entry.job_id)
    &&& entry.status == "running"@
    &&& entry.worker_node is Some
    &&& entry.last_heartbeat_ms is Some
    &&& elapsed(now, entry.last_heartbeat_ms->0) > stale_after_ms
}

/// A silent job by its contents.
pub open spec fn stale_job(entry: JobEntry) -> StaleJob {
    StaleJob {
        job_id: entry.job_id,
        job_uuid: entry.job_uuid,
        worker_node: entry.worker_node->0,
        last_heartbeat_ms: entry.last_heartbeat_ms->0,
    }
}

/// Whether a list holds the silent jobs of a solve, each once: `keys` are the
/// identifiers under which they stand.
pub open spec fn lists_stale(
    found: Seq<StaleWorkerJob>,
    keys: Seq<Seq<char>>,
    jobs: Map<Seq<char>, JobEntry>,
    active: Set<Seq<char>>,
    completed: Set<Seq<char>>,
    stale_after_ms: u128,
    now: u128,
) -> bool {
    &&& keys.len() == found.len()
    &&& keys.no_duplicates()
    &&& forall|i: int|
        0 <= i < keys.len() ==> jobs.contains_key(#[trigger] keys[i]) && is_stale(
            jobs[keys[i]],
            active,
            completed,
            stale_after_ms,
            now,
        ) && found[i]@ == stale_job(jobs[keys[i]])
    &&& forall|k: Seq<char>|
        jobs.contains_key(k) && is_stale(
            #[trigger] jobs[k],
            active,
            completed,
            stale_after_ms,
            now,
        ) ==> keys.contains(k)
}

fn entry_is_stale(
    entry: &JobRegistryEntry,
    active: &IdSet,
    completed: &IdSet,
    stale_after_ms: u128,
    now_ms: u128,
) -> (r: bool)
    ensures
        r == is_stale(entry@, active@, completed@, stale_after_ms, now_ms),
{
    if !active.contains(entry.job_id.as_str()) || completed.contains(entry.job_id.as_str())
        || !same(entry.status.as_str(), "running") || entry.worker_node.is_none() {
        return false;
    }
    match entry.last_heartbeat_ms {
        Some(t) => elapsed_ms(now_ms, t) > stale_after_ms,
        None => false,
    }
}

/// The jobs of a solve whose workers have fallen silent.
pub fn stale_worker_jobs(
    solves: &Table<SolveRegistryEntry>,
    solve_id: &str,
    active_job_ids: &IdSet,
    completed_job_ids: &IdSet,
    stale_after_ms: u128,
    now_ms: u128,
) -> (r: Vec<StaleWorkerJob>)
    ensures
        if solves@.contains_key(solve_id@) {
            exists|keys: Seq<Seq<char>>| #[trigger]
                lists_stale(
                    r@,
                    keys,
                    solves@[solve_id@].jobs,
                    active_job_ids@,
                    completed_job_ids@,
                    stale_after_ms,
                    now_ms,
                )
        } else {
            r@.len() == 0
        },
{
    let mut found: Vec<StaleWorkerJob> = Vec::new();
    let solve = match solves.get(solve_id) {
        None => {
            return found;
        },
        Some(solve) => solve,
    };
    let jobs = &solve.jobs;
    proof {
        use_type_invariant(jobs);
        jobs.order_is_contents();
    }
    let ghost mut keys = Seq::<Seq<char>>::empty();
    let n: usize = jobs.len();
    let mut i: usize = 0;
    while i < n
        invariant
            i <= n,
            n == jobs.order().len(),
            forall|j: int|
                0 <= j < n ==> jobs@.contains_key((#[trigger] jobs.order()[j]).0)
                    && jobs@[jobs.order()[j].0] == jobs.order()[j].1,
            forall|a: int, b: int|
                0 <= a < b < n ==> (#[trigger] jobs.order()[a]).0 != (
                #[trigger] jobs.order()[b]).0,
            keys.len() == found@.len(),
            keys.no_duplicates(),
            forall|k: int|
                0 <= k < keys.len() ==> jobs@.contains_key(#[trigger] keys[k]) && is_stale(
                    jobs@[keys[k]],
                    active_job_ids@,
                    completed_job_ids@,
                    stale_after_ms,
                    now_ms,
                ) && found@[k]@ == stale_job(jobs@[keys[k]]),
            forall|k: int|
                0 <= k < keys.len() ==> exists|j: int|
                    0 <= j < i && jobs.order()[j].0 == #[trigger] keys[k],
            forall|j: int|
                0 <= j < i && is_stale(
                    (#[trigger] jobs.order()[j]).1,
                    active_job_ids@,
                    completed_job_ids@,
                    stale_after_ms,
                    now_ms,
                ) ==> keys.contains(jobs.order()[j].0),
        decreases n - i,
    {
        let entry = jobs.value_at(i);
        let ghost key = jobs.order()[i as int].0;
        let ghost old_keys = keys;
        if entry_is_stale(entry, active_job_ids, completed_job_ids, stale_after_ms, now_ms) {
            if let Some(worker) = &entry.worker_node {
                if let Some(t) = entry.last_heartbeat_ms {
                    let ghost before = found@;
                    found.push(
                        StaleWorkerJob {
                            job_id: entry.job_id.clone(),
                            job_uuid: entry.job_uuid.clone(),
                            worker_node: worker.clone(),
                            last_heartbeat_ms: t,
                        },
                    );
                    proof {
                        keys = keys.push(key);
                        assert forall|a: int, b: int|
                            0 <= a < keys.len() && 0 <= b < keys.len() && a != b implies keys[a]
                            != keys[b] by {
                            if a == old_keys.len() {
                                let j = choose|j: int|
                                    0 <= j < i && jobs.order()[j].0 == old_keys[b];
                                assert(jobs.order()[j].0 != jobs.order()[i as int].0);
                            } else if b == old_keys.len() {
                                let j = choose|j: int|
                                    0 <= j < i && jobs.order()[j].0 == old_keys[a];
                                assert(jobs.order()[j].0 != jobs.order()[i as int].0);
                            }
                        }
                        assert(keys.last() == key);
                        assert(keys.contains(key));
                        assert forall|k: Seq<char>| old_keys.contains(k) implies keys.contains(
                            k,
                        ) by {
                            let x = choose|x: int| 0 <= x < old_keys.len() && old_keys[x] == k;
                            assert(keys[x] == k);
                        }
                    }
                }
            }
        }
        proof {
            assert forall|k: int| 0 <= k < keys.len() implies exists|j: int|
                0 <= j < i + 1 && jobs.order()[j].0 == #[trigger] keys[k] by {
                if k < old_keys.len() {
                    let j = choose|j: int| 0 <= j < i && jobs.order()[j].0 == old_keys[k];
                    assert(jobs.order()[j].0 == keys[k]);
                } else {
                    assert(jobs.order()[i as int].0 == keys[k]);
                }
            }
        }
        i = i + 1;
    }
    proof {
        assert forall|k: Seq<char>|
            jobs@.contains_key(k) && is_stale(
                #[trigger] jobs@[k],
                active_job_ids@,
                completed_job_ids@,
                stale_after_ms,
                now_ms,
            ) implies keys.contains(k) by {
            let j = choose|j: int| 0 <= j < jobs.order().len() && #[trigger] jobs.order()[j].0 == k;
            assert(keys.contains(jobs.order()[j].0));
        }
        assert(solves@[solve_id@] == solve@);
        assert(solve@.jobs == jobs@);
        assert(lists_stale(
            found@,
            keys,
            solves@[solve_id@].jobs,
            active_job_ids@,
            completed_job_ids@,
            stale_after_ms,
            now_ms,
        ));
    }
    found
}

/// A job that is sent out is entered under its identifier, as sent out and with what it
/// is; it counts, and no other job changes.
pub proof fn submissions_are_entered(e: SolveEntry, job: Job, now: u128, other: Seq<char>)
    requires
        e.jobs_published < usize::MAX,
        other != job.job_id,
    ensures
        ({
            let r = after_submission(e, job, now);
            &&& r.jobs_published == e.jobs_published + 1
            &&& r.jobs.contains_key(job.job_id)
            &&& r.jobs[job.job_id].job_id == job.job_id
            &&& r.jobs[job.job_id].job_uuid == Some(job.job_uuid)
            &&& r.jobs[job.job_id].problem_id == job.problem_id
            &&& r.jobs[job.job_id].depth == job.depth
            &&& r.jobs[job.job_id].submitted_at_ms == job.submitted_at_ms
            &&& r.jobs[job.job_id].status == "submitted"@
            &&& r.jobs[job.job_id].finished_at_ms is None
            &&& r.jobs[job.job_id].worker_node is None
            &&& r.jobs.contains_key(other) == e.jobs.contains_key(other)
            &&& r.jobs.contains_key(other) ==> r.jobs[other] == e.jobs[other]
            &&& r.jobs_completed == e.jobs_completed && r.jobs_expected == e.jobs_expected
            &&& r.solve_id == e.solve_id && r.status == e.status && r.finished_at_ms
                == e.finished_at_ms
            &&& r.updated_at_ms == now
        }),
{
}

/// A result is entered under its job, with the worker and the error; it counts where it
/// is the last word on the job, and then the job ends as the result says. A job that is
/// tried again is `retrying`. No other job changes.
pub proof fn results_are_entered(
    e: SolveEntry,
    f: Finding,
    terminal: bool,
    now: u128,
    other: Seq<char>,
)
    requires
        e.jobs_completed < usize::MAX,
        other != f.job_id,
    ensures
        ({
            let r = after_result(e, f, terminal, now);
            &&& r.jobs_completed == e.jobs_completed + if terminal {
                1int
            } else {
                0
            }
            &&& r.jobs.contains_key(f.job_id)
            &&& terminal ==> r.jobs[f.job_id].status == f.status
            &&& !terminal && f.status == "split"@ ==> r.jobs[f.job_id].status == "split"@
            &&& !terminal && f.status != "split"@ ==> r.jobs[f.job_id].status == "retrying"@
            &&& r.jobs[f.job_id].worker_node == Some(f.worker_node)
            &&& r.jobs[f.job_id].finished_at_ms == Some(f.finished_at_ms)
            &&& r.jobs[f.job_id].error == f.error
            &&& r.jobs[f.job_id].job_uuid == Some(f.job_uuid)
            &&& e.jobs.contains_key(f.job_id) ==> r.jobs[f.job_id].submitted_at_ms
                == e.jobs[f.job_id].submitted_at_ms && r.jobs[f.job_id].depth
                == e.jobs[f.job_id].depth
            &&& r.jobs.contains_key(other) == e.jobs.contains_key(other)
            &&& r.jobs.contains_key(other) ==> r.jobs[other] == e.jobs[other]
            &&& r.jobs_published == e.jobs_published && r.jobs_expected == e.jobs_expected
        }),
{
}

/// A job that is sent out again because its worker is silent is entered as such, and
/// waits for no end of its own; no other job changes.
pub proof fn requeues_are_entered(
    e: SolveEntry,
    job_id: Seq<char>,
    worker: Seq<char>,
    retry: Seq<char>,
    heartbeat: u128,
    now: u128,
    other: Seq<char>,
)
    requires
        e.jobs.contains_key(job_id),
        other != job_id,
    ensures
        ({
            let r = after_requeue(e, job_id, worker, retry, heartbeat, now);
            &&& r.jobs[job_id].status == "stale-requeued"@
            &&& r.jobs[job_id].worker_node == Some(worker)
            &&& r.jobs[job_id].finished_at_ms is None
            &&& r.jobs[job_id].error is Some
            &&& r.jobs[job_id].job_uuid == e.jobs[job_id].job_uuid
            &&& r.jobs.contains_key(other) == e.jobs.contains_key(other)
            &&& r.jobs.contains_key(other) ==> r.jobs[other] == e.jobs[other]
        }),
{
}

/// The parts of a job take its place among the expected results.
pub proof fn parts_take_the_place_of_a_job(expected: usize, children: usize)
    ensures
        1 <= children && expected + children - 1 <= usize::MAX ==> expected_after_split(
            expected,
            children,
        ) == expected + children - 1,
        expected_after_split(expected, children) >= expected,
        children <= 1 ==> expected_after_split(expected, children) == expected,
{
}

/// A job is stale exactly where it is awaited, runs at a worker, and has not been heard
/// of for longer than is allowed.
pub proof fn silent_jobs_are_stale(
    entry: JobEntry,
    active: Set<Seq<char>>,
    completed: Set<Seq<char>>,
    stale_after_ms: u128,
    now: u128,
)
    ensures
        is_stale(entry, active, completed, stale_after_ms, now) <==> active.contains(entry.job_id)
            && !completed.contains(entry.job_id) && entry.status == "running"@
            && entry.worker_node is Some && entry.last_heartbeat_ms is Some
            && entry.last_heartbeat_ms->0 + stale_after_ms < now,
        is_stale(entry, active, completed, stale_after_ms, now) ==> stale_job(entry).job_id
            == entry.job_id && stale_job(entry).worker_node == entry.worker_node->0 && stale_job(
            entry,
        ).last_heartbeat_ms == entry.last_heartbeat_ms->0 && stale_job(entry).job_uuid
            == entry.job_uuid,
{
}

/// News of a job makes it a running one at that worker, heard of just now; what the news
/// does not tell stays.
pub proof fn progress_is_entered(
    jobs: Map<Seq<char>, JobEntry>,
    job_id: Seq<char>,
    worker: Seq<char>,
    payload: Json,
    seen_at: u128,
)
    ensures
        ({
            let r = progressed_entry(jobs, job_id, worker, payload, seen_at);
            &&& r.status == "running"@
            &&& r.worker_node == Some(worker)
            &&& r.last_heartbeat_ms == Some(seen_at)
            &&& r.finished_at_ms is None
            &&& r.error is None
            &&& payload.text_field("jobUuid"@) is Some ==> r.job_uuid == payload.text_field(
                "jobUuid"@,
            )
            &&& jobs.contains_key(job_id) ==> {
                &&& r.job_id == jobs[job_id].job_id
                &&& r.depth == jobs[job_id].depth
                &&& r.submitted_at_ms == jobs[job_id].submitted_at_ms
                &&& payload.text_field("jobUuid"@) is None ==> r.job_uuid == jobs[job_id].job_uuid
                &&& payload.text_field("problemId"@) is None ==> r.problem_id
                    == jobs[job_id].problem_id
            }
            &&& !jobs.contains_key(job_id) ==> r.job_id == job_id
        }),
{
}

/// News of a job is entered in its solve alone, under the job; other jobs and other
/// solves stay as they were.
pub proof fn progress_changes_one_job(
    solves: Solves,
    worker: Seq<char>,
    payload: Json,
    seen_at: u128,
    other: Seq<char>,
    job: Seq<char>,
)
    ensures
        ({
            let r = after_progress(solves, worker, payload, seen_at);
            let solve_id = payload.text_field("solveId"@);
            let job_id = payload.text_field("jobId"@);
            &&& r.dom() == solves.dom()
            &&& solve_id != Some(other) && solves.contains_key(other) ==> r[other] == solves[other]
            &&& solve_id == Some(other) && solves.contains_key(other) && job_id is Some ==> {
                &&& r[other].jobs.contains_key(job_id->0)
                &&& r[other].jobs[job_id->0].status == "running"@
                &&& r[other].jobs[job_id->0].worker_node == Some(worker)
                &&& r[other].jobs[job_id->0].last_heartbeat_ms == Some(seen_at)
                &&& r[other].updated_at_ms == seen_at
                &&& job_id != Some(job) ==> r[other].jobs.contains_key(job)
                    == solves[other].jobs.contains_key(job) && (solves[other].jobs.contains_key(
                    job,
                ) ==> r[other].jobs[job] == solves[other].jobs[job])
            }
        }),
{
    assert(after_progress(solves, worker, payload, seen_at).dom() =~= solves.dom());
}

}
