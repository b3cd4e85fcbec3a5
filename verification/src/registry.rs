//! The registry of solves: what a master knows of each solve and of its jobs.

use crate::ids::{job_retry_index, job_retry_root, retry_index, retry_root};
use crate::model::{copy_names, text_view};
use crate::table::{Duplicate, Table};
use crate::text::{same, texts};
use vstd::prelude::*;
use vstd::string::*;

verus! {

/// What is known of a job.
#[derive(Debug)]
pub struct JobRegistryEntry {
    pub job_id: String,
    pub job_uuid: Option<String>,
    pub problem_id: Option<String>,
    pub root_job_id: String,
    pub retry_index: usize,
    pub depth: usize,
    pub status: String,
    pub worker_node: Option<String>,
    pub submitted_at_ms: u128,
    pub last_heartbeat_ms: Option<u128>,
    pub finished_at_ms: Option<u128>,
    pub error: Option<String>,
}

/// The contents of what is known of a job.
#[verifier::ext_equal]
pub struct JobEntry {
    pub job_id: Seq<char>,
    pub job_uuid: Option<Seq<char>>,
    pub problem_id: Option<Seq<char>>,
    pub root_job_id: Seq<char>,
    pub retry_index: usize,
    pub depth: usize,
    pub status: Seq<char>,
    pub worker_node: Option<Seq<char>>,
    pub submitted_at_ms: u128,
    pub last_heartbeat_ms: Option<u128>,
    pub finished_at_ms: Option<u128>,
    pub error: Option<Seq<char>>,
}

impl View for JobRegistryEntry {
    type V = JobEntry;

    open spec fn view(&self) -> JobEntry {
        JobEntry {
            job_id: self.job_id@,
            job_uuid: text_view(self.job_uuid),
            problem_id: text_view(self.problem_id),
            root_job_id: self.root_job_id@,
            retry_index: self.retry_index,
            depth: self.depth,
            status: self.status@,
            worker_node: text_view(self.worker_node),
            submitted_at_ms: self.submitted_at_ms,
            last_heartbeat_ms: self.last_heartbeat_ms,
            finished_at_ms: self.finished_at_ms,
            error: text_view(self.error),
        }
    }
}

impl Clone for JobRegistryEntry {
    fn clone(&self) -> (r: Self)
        ensures
            r@ == self@,
    {
        JobRegistryEntry {
            job_id: self.job_id.clone(),
            job_uuid: self.job_uuid.clone(),
            problem_id: self.problem_id.clone(),
            root_job_id: self.root_job_id.clone(),
            retry_index: self.retry_index,
            depth: self.depth,
            status: self.status.clone(),
            worker_node: self.worker_node.clone(),
            submitted_at_ms: self.submitted_at_ms,
            last_heartbeat_ms: self.last_heartbeat_ms,
            finished_at_ms: self.finished_at_ms,
            error: self.error.clone(),
        }
    }
}

/// An entry for a job of which only the identifier is known.
pub open spec fn blank_job(job_id: Seq<char>) -> JobEntry {
    JobEntry {
        job_id,
        job_uuid: None,
        problem_id: None,
        root_job_id: retry_root(job_id),
        retry_index: retry_index(job_id) as usize,
        depth: 0,
        status: Seq::empty(),
        worker_node: None,
        submitted_at_ms: 0,
        last_heartbeat_ms: None,
        finished_at_ms: None,
        error: None,
    }
}

/// An entry for a job of which only the identifier is known.
pub fn new_job_entry(job_id: &str) -> (r: JobRegistryEntry)
    ensures
        r@ == blank_job(job_id@),
{
    let r = JobRegistryEntry {
        job_id: job_id.to_owned(),
        job_uuid: None,
        problem_id: None,
        root_job_id: job_retry_root(job_id),
        retry_index: job_retry_index(job_id),
        depth: 0,
        status: String::new(),
        worker_node: None,
        submitted_at_ms: 0,
        last_heartbeat_ms: None,
        finished_at_ms: None,
        error: None,
    };
    assert(r@ =~= blank_job(job_id@));
    r
}

/// What is known of a solve.
#[derive(Debug)]
pub struct SolveRegistryEntry {
    pub solve_id: String,
    pub request_id: String,
    pub problem_id: Option<String>,
    pub revision: u64,
    pub status: String,
    pub jobs_expected: usize,
    pub jobs_published: usize,
    pub jobs_completed: usize,
    pub jobs_redelegated: usize,
    pub jobs_split: usize,
    pub timed_out: bool,
    pub distributed: bool,
    pub started_at_ms: u128,
    pub updated_at_ms: u128,
    pub finished_at_ms: Option<u128>,
    pub cancel_requested: bool,
    pub cancel_requested_at_ms: Option<u128>,
    pub cancel_reason: Option<String>,
    pub warnings: Vec<String>,
    pub jobs: Table<JobRegistryEntry>,
}

/// The contents of what is known of a solve.
#[verifier::ext_equal]
pub struct SolveEntry {
    pub solve_id: Seq<char>,
    pub request_id: Seq<char>,
    pub problem_id: Option<Seq<char>>,
    pub revision: u64,
    pub status: Seq<char>,
    pub jobs_expected: usize,
    pub jobs_published: usize,
    pub jobs_completed: usize,
    pub jobs_redelegated: usize,
    pub jobs_split: usize,
    pub timed_out: bool,
    pub distributed: bool,
    pub started_at_ms: u128,
    pub updated_at_ms: u128,
    pub finished_at_ms: Option<u128>,
    pub cancel_requested: bool,
    pub cancel_requested_at_ms: Option<u128>,
    pub cancel_reason: Option<Seq<char>>,
    pub warnings: Seq<Seq<char>>,
    pub jobs: Map<Seq<char>, JobEntry>,
}

impl View for SolveRegistryEntry {
    type V = SolveEntry;

    open spec fn view(&self) -> SolveEntry {
        SolveEntry {
            solve_id: self.solve_id@,
            request_id: self.request_id@,
            problem_id: text_view(self.problem_id),
            revision: self.revision,
            status: self.status@,
            jobs_expected: self.jobs_expected,
            jobs_published: self.jobs_published,
            jobs_completed: self.jobs_completed,
            jobs_redelegated: self.jobs_redelegated,
            jobs_split: self.jobs_split,
            timed_out: self.timed_out,
            distributed: self.distributed,
            started_at_ms: self.started_at_ms,
            updated_at_ms: self.updated_at_ms,
            finished_at_ms: self.finished_at_ms,
            cancel_requested: self.cancel_requested,
            cancel_requested_at_ms: self.cancel_requested_at_ms,
            cancel_reason: text_view(self.cancel_reason),
            warnings: texts(self.warnings@),
            jobs: self.jobs@,
        }
    }
}

impl Duplicate for JobRegistryEntry {
    fn duplicate(&self) -> (r: Self) {
        self.clone()
    }
}

impl Clone for SolveRegistryEntry {
    fn clone(&self) -> (r: Self)
        ensures
            r@ == self@,
    {
        SolveRegistryEntry {
            solve_id: self.solve_id.clone(),
            request_id: self.request_id.clone(),
            problem_id: self.problem_id.clone(),
            revision: self.revision,
            status: self.status.clone(),
            jobs_expected: self.jobs_expected,
            jobs_published: self.jobs_published,
            jobs_completed: self.jobs_completed,
            jobs_redelegated: self.jobs_redelegated,
            jobs_split: self.jobs_split,
            timed_out: self.timed_out,
            distributed: self.distributed,
            started_at_ms: self.started_at_ms,
            updated_at_ms: self.updated_at_ms,
            finished_at_ms: self.finished_at_ms,
            cancel_requested: self.cancel_requested,
            cancel_requested_at_ms: self.cancel_requested_at_ms,
            cancel_reason: self.cancel_reason.clone(),
            warnings: copy_names(&self.warnings),
            jobs: self.jobs.duplicate(),
        }
    }
}

/// A registry by its contents.
pub type Solves = Map<Seq<char>, SolveEntry>;

/// A registry in which the entry of one solve, where it has one, is changed.
pub open spec fn with_change(
    solves: Solves,
    id: Seq<char>,
    change: spec_fn(SolveEntry) -> SolveEntry,
) -> Solves {
    if solves.contains_key(id) {
        solves.insert(id, change(solves[id]))
    } else {
        solves
    }
}

/// One more, as far as the number goes.
pub open spec fn one_more(n: usize) -> usize {
    if n < usize::MAX {
        (n + 1) as usize
    } else {
        n
    }
}

/// Whether a solve has not ended.
pub open spec fn is_active(e: SolveEntry) -> bool {
    e.finished_at_ms is None
}

/// Whether a solve of a problem is running.
pub open spec fn running_for(e: SolveEntry, problem_id: Seq<char>) -> bool {
    is_active(e) && e.problem_id == Some(problem_id)
}

/// Whether every entry stands under its own identifier.
pub open spec fn keyed(solves: Solves) -> bool {
    forall|k: Seq<char>| #[trigger] solves.contains_key(k) ==> solves[k].solve_id == k
}

/// Whether no problem has two running solves.
pub open spec fn one_solve_per_problem(solves: Solves) -> bool {
    forall|a: Seq<char>, b: Seq<char>, p: Seq<char>|
        #![trigger running_for(solves[a], p), running_for(solves[b], p)]
        solves.contains_key(a) && solves.contains_key(b) && running_for(solves[a], p)
            && running_for(solves[b], p) ==> a == b
}

/// A solve that has just begun.
pub open spec fn new_solve(
    solve_id: Seq<char>,
    request_id: Seq<char>,
    problem_id: Seq<char>,
    revision: u64,
    jobs_expected: usize,
    distributed: bool,
    now: u128,
) -> SolveEntry {
    SolveEntry {
        solve_id,
        request_id,
        problem_id: Some(problem_id),
        revision,
        status: "running"@,
        jobs_expected,
        jobs_published: 0,
        jobs_completed: 0,
        jobs_redelegated: 0,
        jobs_split: 0,
        timed_out: false,
        distributed,
        started_at_ms: now,
        updated_at_ms: now,
        finished_at_ms: None,
        cancel_requested: false,
        cancel_requested_at_ms: None,
        cancel_reason: None,
        warnings: Seq::empty(),
        jobs: Map::empty(),
    }
}

/// Why a solve of a problem cannot begin.
pub open spec fn already_running(problem_id: Seq<char>, solve_id: Seq<char>) -> Seq<char> {
    "problemId "@ + problem_id + " already has running solve "@ + solve_id
}

/// The running solve of a problem, where there is one.
fn find_running(solves: &Table<SolveRegistryEntry>, problem_id: &str) -> (r: Option<usize>)
    ensures
        match r {
            Some(i) => i < solves.order().len() && running_for(
                solves.order()[i as int].1,
                problem_id@,
            ),
            None => forall|k: Seq<char>|
                solves@.contains_key(k) ==> !running_for(#[trigger] solves@[k], problem_id@),
        },
{
    proof {
        use_type_invariant(solves);
        solves.order_is_contents();
    }
    let n: usize = solves.len();
    let mut i: usize = 0;
    while i < n
        invariant
            i <= n,
            n == solves.order().len(),
            forall|j: int|
                0 <= j < i ==> !running_for((#[trigger] solves.order()[j]).1, problem_id@),
        decreases n - i,
    {
        let e = solves.value_at(i);
        if e.finished_at_ms.is_none() {
            if let Some(p) = &e.problem_id {
                if same(p.as_str(), problem_id) {
                    return Some(i);
                }
            }
        }
        i = i + 1;
    }
    assert forall|k: Seq<char>| solves@.contains_key(k) implies !running_for(
        #[trigger] solves@[k],
        problem_id@,
    ) by {
        let j = choose|j: int| 0 <= j < solves.order().len() && #[trigger] solves.order()[j].0 == k;
        assert(!running_for(solves.order()[j].1, problem_id@));
    }
    None
}

/// Begins a solve, unless its problem has one running.
pub fn track_solve_started(
    solves: &mut Table<SolveRegistryEntry>,
    solve_id: &str,
    request_id: &str,
    problem_id: &str,
    revision: u64,
    jobs_expected: usize,
    distributed: bool,
    now_ms: u128,
) -> (r: Result<(), String>)
    ensures
        match r {
            Ok(_) => {
                &&& forall|k: Seq<char>|
                    old(solves)@.contains_key(k) ==> !running_for(
                        #[trigger] old(solves)@[k],
                        problem_id@,
                    )
                &&& final(solves)@ == old(solves)@.insert(
                    solve_id@,
                    new_solve(
                        solve_id@,
                        request_id@,
                        problem_id@,
                        revision,
                        jobs_expected,
                        distributed,
                        now_ms,
                    ),
                )
            },
            Err(e) => {
                &&& final(solves)@ == old(solves)@
                &&& exists|k: Seq<char>|
                    old(solves)@.contains_key(k) && running_for(
                        #[trigger] old(solves)@[k],
                        problem_id@,
                    ) && e@ == already_running(problem_id@, old(solves)@[k].solve_id)
            },
        },
{
    if let Some(i) = find_running(solves, problem_id) {
        proof {
            use_type_invariant(&*solves);
            solves.order_is_contents();
            let k = solves.order()[i as int].0;
            assert(running_for(solves@[k], problem_id@));
        }
        let mut e = "problemId ".to_owned();
        e.append(problem_id);
        e.append(" already has running solve ");
        e.append(solves.value_at(i).solve_id.as_str());
        return Err(e);
    }
    let entry = SolveRegistryEntry {
        solve_id: solve_id.to_owned(),
        request_id: request_id.to_owned(),
        problem_id: Some(problem_id.to_owned()),
        revision,
        status: "running".to_owned(),
        jobs_expected,
        jobs_published: 0,
        jobs_completed: 0,
        jobs_redelegated: 0,
        jobs_split: 0,
        timed_out: false,
        distributed,
        started_at_ms: now_ms,
        updated_at_ms: now_ms,
        finished_at_ms: None,
        cancel_requested: false,
        cancel_requested_at_ms: None,
        cancel_reason: None,
        warnings: Vec::new(),
        jobs: Table::new(),
    };
    assert(entry@ =~= new_solve(
        solve_id@,
        request_id@,
        problem_id@,
        revision,
        jobs_expected,
        distributed,
        now_ms,
    )) by {
        assert(texts(entry.warnings@) =~= Seq::empty());
    }
    solves.insert(solve_id.to_owned(), entry);
    Ok(())
}

/// Beginning a solve where none of its problem runs leaves no problem with two
/// running solves.
pub proof fn starting_keeps_one_solve_per_problem(
    solves: Solves,
    solve_id: Seq<char>,
    request_id: Seq<char>,
    problem_id: Seq<char>,
    revision: u64,
    jobs_expected: usize,
    distributed: bool,
    now: u128,
)
    requires
        one_solve_per_problem(solves),
        forall|k: Seq<char>|
            solves.contains_key(k) ==> !running_for(#[trigger] solves[k], problem_id),
    ensures
        one_solve_per_problem(
            solves.insert(
                solve_id,
                new_solve(
                    solve_id,
                    request_id,
                    problem_id,
                    revision,
                    jobs_expected,
                    distributed,
                    now,
                ),
            ),
        ),
{
    let e = new_solve(
        solve_id,
        request_id,
        problem_id,
        revision,
        jobs_expected,
        distributed,
        now,
    );
    let next = solves.insert(solve_id, e);
    assert forall|a: Seq<char>, b: Seq<char>, p: Seq<char>|
        #![trigger running_for(next[a], p), running_for(next[b], p)]
        next.contains_key(a) && next.contains_key(b) && running_for(next[a], p) && running_for(
            next[b],
            p,
        ) implies a == b by {
        if a != solve_id && b != solve_id {
            assert(running_for(solves[a], p) && running_for(solves[b], p));
        } else if a == solve_id && b != solve_id {
            assert(p == problem_id);
            assert(!running_for(solves[b], problem_id));
        } else if b == solve_id && a != solve_id {
            assert(p == problem_id);
            assert(!running_for(solves[a], problem_id));
        }
    }
}

/// A change that keeps or ends solves, and moves none to another problem, leaves
/// no problem with two running solves.
pub proof fn changing_keeps_one_solve_per_problem(
    solves: Solves,
    id: Seq<char>,
    change: spec_fn(SolveEntry) -> SolveEntry,
)
    requires
        one_solve_per_problem(solves),
        forall|e: SolveEntry|
            is_active(#[trigger] change(e)) ==> is_active(e) && change(e).problem_id
                == e.problem_id,
    ensures
        one_solve_per_problem(with_change(solves, id, change)),
{
    let next = with_change(solves, id, change);
    assert forall|a: Seq<char>, b: Seq<char>, p: Seq<char>|
        #![trigger running_for(next[a], p), running_for(next[b], p)]
        next.contains_key(a) && next.contains_key(b) && running_for(next[a], p) && running_for(
            next[b],
            p,
        ) implies a == b by {
        assert(running_for(solves[a], p) && running_for(solves[b], p));
    }
}

/// A solve begins as a running one of its problem, with nothing done yet, and without a
/// request to cancel it.
pub proof fn solves_begin_running(
    solve_id: Seq<char>,
    request_id: Seq<char>,
    problem_id: Seq<char>,
    revision: u64,
    jobs_expected: usize,
    distributed: bool,
    now: u128,
)
    ensures
        ({
            let e = new_solve(
                solve_id,
                request_id,
                problem_id,
                revision,
                jobs_expected,
                distributed,
                now,
            );
            &&& e.solve_id == solve_id
            &&& e.request_id == request_id
            &&& running_for(e, problem_id)
            &&& e.revision == revision
            &&& e.status == "running"@
            &&& e.jobs_expected == jobs_expected
            &&& e.jobs_published == 0 && e.jobs_completed == 0 && e.jobs_redelegated == 0
                && e.jobs_split == 0
            &&& e.distributed == distributed
            &&& e.started_at_ms == now && e.updated_at_ms == now
            &&& e.finished_at_ms is None
            &&& !e.cancel_requested && !e.timed_out
            &&& e.jobs.dom() =~= Set::empty()
            &&& e.warnings.len() == 0
        }),
{
}

/// A solve runs for a problem exactly where it has not ended and is that of the problem.
pub proof fn running_solves_have_not_ended(e: SolveEntry, problem_id: Seq<char>)
    ensures
        running_for(e, problem_id) <==> e.finished_at_ms is None && e.problem_id == Some(
            problem_id,
        ),
{
}

/// A job is entered with its root and its retry index, and nothing else known.
pub proof fn jobs_are_entered_by_name(job_id: Seq<char>)
    ensures
        blank_job(job_id).job_id == job_id,
        blank_job(job_id).root_job_id == retry_root(job_id),
        retry_index(job_id) <= usize::MAX ==> blank_job(job_id).retry_index == retry_index(job_id),
        blank_job(job_id).finished_at_ms is None,
        blank_job(job_id).worker_node is None,
        blank_job(job_id).last_heartbeat_ms is None,
{
}

/// A change of one solve leaves the others as they were.
pub proof fn solves_change_one_by_one(
    solves: Solves,
    id: Seq<char>,
    change: spec_fn(SolveEntry) -> SolveEntry,
    other: Seq<char>,
)
    requires
        other != id,
    ensures
        with_change(solves, id, change).contains_key(other) == solves.contains_key(other),
        solves.contains_key(other) ==> with_change(solves, id, change)[other] == solves[other],
        with_change(solves, id, change).contains_key(id) == solves.contains_key(id),
        solves.contains_key(id) ==> with_change(solves, id, change)[id] == change(solves[id]),
{
}

}
