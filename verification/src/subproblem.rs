//! Solving one job: what is tried, in what order, and what each answer leads to.

use crate::branching::{
    all_continuous, branch_constraints, branches, extended, is_pure_lp, left_branch, relaxes,
    right_branch, sense_meaning, to_ipmip_problem, to_lp_problem, Branch, BranchConstraint,
    BranchPoint, IpMipProblem, LpProblem,
};
use crate::config::RuntimeConfig;
use crate::frontier::{lies_in, one_more_row, split_depth, split_depth_of, Relaxation};
use crate::ids::{is_random_uuid, job_retry_root, new_uuid_string, retry_root};
use crate::jobs::{jobs_view, payload_error, Job, LpStatus, SubproblemJob};
use crate::model::{model_error, Limits, MipProblemSpec, Model};
use crate::options::{algorithm_named, is_told, Choices, IpMipOptions, LpAlgorithm, SolveOptions};
use crate::text::{dec, decimal};
use vstd::prelude::*;
use vstd::string::*;

verus! {

/// A linear problem for an LP engine.
#[derive(Debug)]
pub struct LpTask {
    pub lp: LpProblem,
    pub algorithm: LpAlgorithm,
    pub max_iter: usize,
}

/// Why there is no linear problem for an engine, where there is none.
pub open spec fn lp_task_error(m: Model, extra: Seq<Branch>, o: Choices, limits: Limits) -> Option<
    Seq<char>,
> {
    match extended(m, extra, limits) {
        Err(e) => Some(e),
        Ok(_) => match algorithm_named(o.lp_algorithm) {
            Err(e) => Some(e),
            Ok(_) => None,
        },
    }
}

/// Whether a task is the relaxation of a model with rows added, for the engine
/// and with the iterations that the options ask for.
pub open spec fn is_lp_task(
    task: LpTask,
    m: Model,
    extra: Seq<Branch>,
    o: Choices,
    limits: Limits,
) -> bool {
    &&& lp_task_error(m, extra, o, limits) is None
    &&& relaxes(task.lp, extended(m, extra, limits)->Ok_0)
    &&& task.algorithm == algorithm_named(o.lp_algorithm)->Ok_0
    &&& task.max_iter == match o.lp_max_iters {
        Some(n) => n,
        None => 5_000,
    }
}

/// The linear problem for an engine.
pub fn lp_task(
    problem: &MipProblemSpec,
    extra_constraints: &Vec<BranchConstraint>,
    options: &SolveOptions,
    limits: Limits,
) -> (r: Result<LpTask, String>)
    ensures
        match r {
            Ok(task) => is_lp_task(
                task,
                problem@,
                branches(extra_constraints@),
                options@,
                limits,
            ),
            Err(e) => lp_task_error(problem@, branches(extra_constraints@), options@, limits)
                == Some(e@),
        },
{
    let lp = match to_lp_problem(problem, extra_constraints, limits) {
        Err(e) => {
            return Err(e);
        },
        Ok(lp) => lp,
    };
    let max_iter: usize = match options.lp_max_iters {
        Some(n) => n,
        None => 5_000,
    };
    match options.requested_lp_algorithm() {
        Err(e) => Err(e),
        Ok(algorithm) => Ok(LpTask { lp, algorithm, max_iter }),
    }
}

/// A mixed-integer problem for the branch-and-bound engine.
#[derive(Debug)]
pub struct MipTask {
    pub problem: IpMipProblem,
    pub options: IpMipOptions,
}

/// What to do for a job.
#[derive(Debug)]
pub enum SubproblemTask {
    /// The job cannot be solved.
    Fail(String),
    /// The bounds alone show that the job has no solution.
    Prune(String),
    /// Relax the job to see whether it can be split.
    Relax(LpTask),
    /// Solve the job as a linear problem.
    SolveLp(LpTask),
    /// Solve the job by branch and bound.
    SolveMip(MipTask),
    /// Hand back smaller jobs.
    Split(Vec<SubproblemJob>, String),
}

/// Whether a job is to be solved by branch and bound, or why it cannot be.
pub open spec fn is_mip_step(
    task: SubproblemTask,
    m: Model,
    extra: Seq<Branch>,
    o: Choices,
    limits: Limits,
    config: RuntimeConfig,
) -> bool {
    match lp_task_error(m, extra, o, limits) {
        Some(e) => task is Fail && task->Fail_0@ == e,
        None => {
            &&& task is SolveMip
            &&& task->SolveMip_0.problem.problem@ == extended(m, extra, limits)->Ok_0
            &&& task->SolveMip_0.problem.sense == sense_meaning(m.sense)
            &&& is_told(
                task->SolveMip_0.options,
                o,
                algorithm_named(o.lp_algorithm)->Ok_0,
                config,
            )
        },
    }
}

fn mip_step(
    problem: &MipProblemSpec,
    extra_constraints: &Vec<BranchConstraint>,
    options: &SolveOptions,
    limits: Limits,
    config: &RuntimeConfig,
) -> (r: SubproblemTask)
    ensures
        is_mip_step(r, problem@, branches(extra_constraints@), options@, limits, *config),
{
    let built = match to_ipmip_problem(problem, extra_constraints, limits) {
        Err(e) => {
            return SubproblemTask::Fail(e);
        },
        Ok(p) => p,
    };
    match options.to_ipmip_options(config) {
        Err(e) => SubproblemTask::Fail(e),
        Ok(told) => SubproblemTask::SolveMip(MipTask { problem: built, options: told }),
    }
}

/// Whether a job may still be split.
pub open spec fn may_split(job: Job) -> bool {
    job.depth < split_depth_of(job.options)
}

/// What a job calls for once the bounds have been looked at: `preprocess` is why
/// they could not be looked at, or why the job has no solution, or neither. A
/// pure linear problem goes to an LP engine; any other is relaxed where it may
/// still be split, and goes to the branch-and-bound engine where not.
pub fn task_after_preprocess(
    job: &SubproblemJob,
    preprocess: Result<Option<String>, String>,
    limits: Limits,
    config: &RuntimeConfig,
) -> (r: SubproblemTask)
    ensures
        match job@.problem {
            None => r is Fail && r->Fail_0@ == "subproblem "@ + job@.job_id
                + " has no embedded problem payload and could not be hydrated"@,
            Some(m) => match preprocess {
                Err(e) => r is Fail && r->Fail_0@ == e@,
                Ok(Some(reason)) => r is Prune && r->Prune_0@ == reason@,
                Ok(None) => match model_error(m, limits) {
                    Some(e) => r is Fail && r->Fail_0@ == e,
                    None => if all_continuous(m) || may_split(job@) {
                        match lp_task_error(m, job@.extra_constraints, job@.options, limits) {
                            Some(e) => r is Fail && r->Fail_0@ == e,
                            None => if all_continuous(m) {
                                r is SolveLp && is_lp_task(
                                    r->SolveLp_0,
                                    m,
                                    job@.extra_constraints,
                                    job@.options,
                                    limits,
                                )
                            } else {
                                r is Relax && is_lp_task(
                                    r->Relax_0,
                                    m,
                                    job@.extra_constraints,
                                    job@.options,
                                    limits,
                                )
                            },
                        }
                    } else {
                        is_mip_step(r, m, job@.extra_constraints, job@.options, limits, *config)
                    },
                },
            },
        },
{
    let problem = match job.problem() {
        Err(e) => {
            return SubproblemTask::Fail(e);
        },
        Ok(p) => p,
    };
    match preprocess {
        Err(e) => {
            return SubproblemTask::Fail(e);
        },
        Ok(Some(reason)) => {
            return SubproblemTask::Prune(reason);
        },
        Ok(None) => {},
    }
    let pure = match is_pure_lp(problem, limits) {
        Err(e) => {
            return SubproblemTask::Fail(e);
        },
        Ok(pure) => pure,
    };
    if pure || job.depth < split_depth(&job.options) {
        match lp_task(problem, &job.extra_constraints, &job.options, limits) {
            Err(e) => SubproblemTask::Fail(e),
            Ok(task) => if pure {
                SubproblemTask::SolveLp(task)
            } else {
                SubproblemTask::Relax(task)
            },
        }
    } else {
        mip_step(problem, &job.extra_constraints, &job.options, limits, config)
    }
}

/// One half of a job.
pub open spec fn half(job: Job, side: Seq<char>, branch: Branch, uuid: Seq<char>, now: u128) -> Job {
    Job {
        job_id: retry_root(job.job_id) + "-split-d"@ + dec((job.depth + 1) as nat) + side,
        job_uuid: uuid,
        depth: (job.depth + 1) as usize,
        problem: if job.problem_stored {
            None
        } else {
            job.problem
        },
        extra_constraints: job.extra_constraints.push(branch),
        submitted_at_ms: now,
        ..job
    }
}

/// The two halves of a job that is split at a point.
pub open spec fn halves(
    job: Job,
    point: BranchPoint,
    n: nat,
    left_uuid: Seq<char>,
    right_uuid: Seq<char>,
    now: u128,
) -> Seq<Job> {
    seq![
        half(job, "-left"@, left_branch(point, n, job.depth as nat), left_uuid, now),
        half(job, "-right"@, right_branch(point, n, job.depth as nat), right_uuid, now),
    ]
}

/// Why a job was split.
pub open spec fn split_reason(job: Job, point: BranchPoint) -> Seq<char> {
    "subproblem "@ + job.job_id + " split at depth "@ + dec(job.depth as nat) + " on x"@ + dec(
        point.var as nat,
    ) + "="@ + point.value_text@
}

fn make_half(
    job: &SubproblemJob,
    side: &str,
    branch: BranchConstraint,
    uuid: String,
    now_ms: u128,
) -> (r: SubproblemJob)
    requires
        job.depth < usize::MAX,
    ensures
        r@ == half(job@, side@, branch@, uuid@, now_ms),
{
    let mut out = job.clone();
    let mut id = job_retry_root(job.job_id.as_str());
    id.append("-split-d");
    id.append(decimal(job.depth + 1).as_str());
    id.append(side);
    out.job_id = id;
    out.job_uuid = uuid;
    out.depth = job.depth + 1;
    if job.problem_stored {
        out.problem = None;
    }
    let ghost before = out.extra_constraints@;
    out.extra_constraints.push(branch);
    assert(branches(out.extra_constraints@) =~= branches(before).push(branch@));
    out.submitted_at_ms = now_ms;
    out
}

/// Splits a job at a point, given the identifiers of the halves.
pub fn split_subproblem_children(
    job: &SubproblemJob,
    n: usize,
    point: &BranchPoint,
    left_uuid: String,
    right_uuid: String,
    now_ms: u128,
) -> (r: (Vec<SubproblemJob>, String))
    requires
        point.var < n,
        job.depth < usize::MAX,
    ensures
        jobs_view(r.0@) == halves(job@, *point, n as nat, left_uuid@, right_uuid@, now_ms),
        r.1@ == split_reason(job@, *point),
{
    let (left, right) = branch_constraints(point, n, job.depth);
    let mut children: Vec<SubproblemJob> = Vec::new();
    children.push(make_half(job, "-left", left, left_uuid, now_ms));
    children.push(make_half(job, "-right", right, right_uuid, now_ms));
    assert(jobs_view(children@) =~= halves(
        job@,
        *point,
        n as nat,
        left_uuid@,
        right_uuid@,
        now_ms,
    ));
    let mut reason = "subproblem ".to_owned();
    reason.append(job.job_id.as_str());
    reason.append(" split at depth ");
    reason.append(decimal(job.depth).as_str());
    reason.append(" on x");
    reason.append(decimal(point.var).as_str());
    reason.append("=");
    reason.append(point.value_text.as_str());
    (children, reason)
}

/// What a job calls for once it has been relaxed: a split where the relaxation
/// was solved and is fractional, branch and bound otherwise. The halves get fresh
/// identifiers.
pub fn task_after_relaxation(
    job: &SubproblemJob,
    relaxation: &Relaxation,
    now_ms: u128,
    limits: Limits,
    config: &RuntimeConfig,
) -> (r: SubproblemTask)
    requires
        job@.problem is Some,
        may_split(job@),
        relaxation.branch is Some ==> relaxation.branch->0.var < job@.problem->0.c.len(),
    ensures
        if relaxation.status == LpStatus::Optimal && relaxation.branch is Some {
            &&& r is Split
            &&& r->Split_1@ == split_reason(job@, relaxation.branch->0)
            &&& exists|left: Seq<char>, right: Seq<char>| #[trigger]
                is_random_uuid(left) && #[trigger] is_random_uuid(right) && jobs_view(
                    r->Split_0@,
                ) == halves(
                    job@,
                    relaxation.branch->0,
                    job@.problem->0.c.len(),
                    left,
                    right,
                    now_ms,
                )
        } else {
            is_mip_step(r, job@.problem->0, job@.extra_constraints, job@.options, limits, *config)
        },
{
    let problem = match &job.problem {
        Some(p) => p,
        None => {
            return SubproblemTask::Fail(String::new());
        },
    };
    if relaxation.status == LpStatus::Optimal {
        if let Some(point) = &relaxation.branch {
            let (children, reason) = split_subproblem_children(
                job,
                problem.c.len(),
                point,
                new_uuid_string(),
                new_uuid_string(),
                now_ms,
            );
            return SubproblemTask::Split(children, reason);
        }
    }
    mip_step(problem, &job.extra_constraints, &job.options, limits, config)
}

/// The halves of a job keep what the job belongs to, are one level deeper, and
/// differ in their identifiers and in the row that parts them.
pub proof fn halves_part_a_job(
    job: Job,
    point: BranchPoint,
    n: nat,
    left_uuid: Seq<char>,
    right_uuid: Seq<char>,
    now: u128,
)
    requires
        job.depth < usize::MAX,
        job.depth == job.extra_constraints.len(),
    ensures
        ({
            let h = halves(job, point, n, left_uuid, right_uuid, now);
            &&& h.len() == 2
            &&& h[0].job_id != h[1].job_id
            &&& forall|i: int|
                0 <= i < 2 ==> {
                    &&& (#[trigger] h[i]).solve_id == job.solve_id
                    &&& h[i].options == job.options
                    &&& h[i].depth == job.depth + 1
                    &&& h[i].depth == h[i].extra_constraints.len()
                    &&& h[i].extra_constraints.drop_last() == job.extra_constraints
                }
        }),
{
    let h = halves(job, point, n, left_uuid, right_uuid, now);
    reveal_strlit("-left");
    reveal_strlit("-right");
    let stem = retry_root(job.job_id) + "-split-d"@ + dec((job.depth + 1) as nat);
    assert(h[0].job_id.len() == stem.len() + 5);
    assert(h[1].job_id.len() == stem.len() + 6);
    assert(h[0].extra_constraints.drop_last() =~= job.extra_constraints);
    assert(h[1].extra_constraints.drop_last() =~= job.extra_constraints);
}

/// The halves of a job share out its points: where the two rows of the branch part
/// the points of the job between them, each of these lies in one half and not in the
/// other, and no other point lies in either.
pub proof fn halves_keep_every_point(
    job: Job,
    branch: BranchPoint,
    n: nat,
    left_uuid: Seq<char>,
    right_uuid: Seq<char>,
    now: u128,
    point: spec_fn(Branch) -> bool,
)
    requires
        lies_in(job.extra_constraints, point) ==> point(left_branch(branch, n, job.depth as nat))
            != point(right_branch(branch, n, job.depth as nat)),
    ensures
        ({
            let h = halves(job, branch, n, left_uuid, right_uuid, now);
            &&& lies_in(h[0].extra_constraints, point) || lies_in(h[1].extra_constraints, point)
                <==> lies_in(job.extra_constraints, point)
            &&& !(lies_in(h[0].extra_constraints, point) && lies_in(
                h[1].extra_constraints,
                point,
            ))
        }),
{
    one_more_row(job.extra_constraints, left_branch(branch, n, job.depth as nat), point);
    one_more_row(job.extra_constraints, right_branch(branch, n, job.depth as nat), point);
}

/// The halves of a job can be sent out where the job's model can be found: they
/// carry the model that the job carries, or refer to the stored one, and belong to
/// the same solve, problem and master.
pub proof fn halves_can_be_sent(
    job: Job,
    point: BranchPoint,
    n: nat,
    left_uuid: Seq<char>,
    right_uuid: Seq<char>,
    now: u128,
    i: int,
)
    requires
        0 <= i < 2,
        job.problem_stored ==> job.problem_id is Some,
        !job.problem_stored ==> job.problem is Some,
        job.depth < usize::MAX,
    ensures
        ({
            let h = halves(job, point, n, left_uuid, right_uuid, now)[i];
            &&& payload_error(h) is None
            &&& h.problem_stored == job.problem_stored
            &&& !job.problem_stored ==> h.problem == job.problem
            &&& h.problem_id == job.problem_id
            &&& h.revision == job.revision
            &&& h.solve_id == job.solve_id
            &&& h.request_id == job.request_id
            &&& h.master_node == job.master_node
            &&& h.options == job.options
            &&& h.depth == job.depth + 1
            &&& h.submitted_at_ms == now
            &&& h.job_uuid == if i == 0 {
                left_uuid
            } else {
                right_uuid
            }
            &&& h.extra_constraints.len() == job.extra_constraints.len() + 1
            &&& h.extra_constraints.last() == if i == 0 {
                left_branch(point, n, job.depth as nat)
            } else {
                right_branch(point, n, job.depth as nat)
            }
        }),
{
}

/// A job may be split exactly while it is less deep than its options allow, which is
/// never deeper than eight.
pub proof fn splitting_ends(job: Job)
    ensures
        may_split(job) ==> job.depth < 8,
        job.options.split_depth == Some(0usize) ==> !may_split(job),
        job.options.split_depth is None ==> (may_split(job) <==> job.depth == 0),
        job.options.split_depth matches Some(d) ==> d <= 8 ==> (may_split(job) <==> job.depth < d),
{
}

}
