//! How a solve is set up.

use crate::branching::{all_continuous, is_pure_lp};
use crate::config::{env_u64, RuntimeConfig};
use crate::ids::{is_random_uuid, new_uuid_string};
use crate::jobs::{payload_error, Job, SubproblemJob};
use crate::master::{timeout_ms, timeout_of};
use crate::model::{
    normalized, normalized_problem, normalized_result, normalizing_shapes, valid, Limits,
    MipProblemSpec, Model,
};
use crate::options::{algorithm_named, Choices, SolveOptions};
use crate::replies::{is_problem_model_conflict, tells_model_conflict};
use vstd::prelude::*;
use vstd::string::*;

verus! {

/// How a model is solved.
#[derive(Debug)]
pub enum SolvePlan {
    /// In one piece, by the node itself.
    Lp(MipProblemSpec),
    /// In parts.
    Parts(MipProblemSpec),
}

/// How a model is solved, by contents: the model, and whether in one piece.
pub open spec fn planned(m: Model, o: Choices, limits: Limits) -> Result<(Model, bool), Seq<char>> {
    match algorithm_named(o.lp_algorithm) {
        Err(e) => Err(e),
        Ok(_) => match normalized_result(m, limits) {
            Err(e) => Err(e),
            Ok(n) => Ok((n, all_continuous(n))),
        },
    }
}

/// A plan by its contents.
pub open spec fn plan_view(r: Result<SolvePlan, String>) -> Result<(Model, bool), Seq<char>> {
    match r {
        Ok(SolvePlan::Lp(p)) => Ok((p@, true)),
        Ok(SolvePlan::Parts(p)) => Ok((p@, false)),
        Err(e) => Err(e@),
    }
}

/// Decides how a model is solved.
pub fn plan_solve(problem: MipProblemSpec, options: &SolveOptions, limits: Limits) -> (r: Result<
    SolvePlan,
    String,
>)
    ensures
        plan_view(r) == planned(problem@, options@, limits),
{
    if let Err(e) = options.requested_lp_algorithm() {
        return Err(e);
    }
    let ghost given = problem@;
    let problem = match normalized_problem(problem, limits) {
        Ok(p) => p,
        Err(e) => {
            return Err(e);
        },
    };
    proof {
        normalizing_shapes(given, limits);
    }
    match is_pure_lp(&problem, limits) {
        Err(e) => Err(e),
        Ok(true) => Ok(SolvePlan::Lp(problem)),
        Ok(false) => Ok(SolvePlan::Parts(problem)),
    }
}

/// A model that passes the checks is solved, in whichever way.
pub proof fn good_models_are_planned(m: Model, o: Choices, limits: Limits)
    requires
        valid(m, limits),
        algorithm_named(o.lp_algorithm) is Ok,
    ensures
        planned(m, o, limits) == Ok::<(Model, bool), Seq<char>>(
            (normalized(m), all_continuous(normalized(m))),
        ),
{
}

/// The name of a solve.
pub fn solve_name(fresh: &str) -> (r: String)
    ensures
        r@ == "solve-"@ + fresh@,
{
    let mut out = "solve-".to_owned();
    out.append(fresh);
    out
}

/// A new name for a solve.
pub fn new_solve_id() -> (r: String)
    ensures
        exists|fresh: Seq<char>| #[trigger] is_random_uuid(fresh) && r@ == "solve-"@ + fresh,
{
    let fresh = new_uuid_string();
    solve_name(fresh.as_str())
}

/// The job for a model that is solved in one piece.
pub open spec fn whole_job(
    solve_id: Seq<char>,
    request_id: Seq<char>,
    problem_id: Seq<char>,
    revision: u64,
    node_id: Seq<char>,
    m: Model,
    o: Choices,
    uuid: Seq<char>,
    now: u128,
) -> Job {
    Job {
        solve_id,
        request_id,
        job_id: solve_id + "-lp"@,
        job_uuid: uuid,
        problem_id: Some(problem_id),
        problem_stored: false,
        revision,
        depth: 0,
        master_node: node_id,
        problem: Some(m),
        extra_constraints: Seq::empty(),
        avoid_worker_nodes: Seq::empty(),
        options: o,
        submitted_at_ms: now,
    }
}

/// The job for a model that is solved in one piece.
pub fn lp_job(
    solve_id: &str,
    request_id: &str,
    problem_id: &str,
    revision: u64,
    node_id: &str,
    problem: &MipProblemSpec,
    options: &SolveOptions,
    now: u128,
) -> (r: SubproblemJob)
    ensures
        is_random_uuid(r.job_uuid@),
        r@ == whole_job(
            solve_id@,
            request_id@,
            problem_id@,
            revision,
            node_id@,
            problem@,
            options@,
            r.job_uuid@,
            now,
        ),
{
    let mut job_id = solve_id.to_owned();
    job_id.append("-lp");
    let r = SubproblemJob {
        solve_id: solve_id.to_owned(),
        request_id: request_id.to_owned(),
        job_id,
        job_uuid: new_uuid_string(),
        problem_id: Some(problem_id.to_owned()),
        problem_stored: false,
        revision,
        depth: 0,
        master_node: node_id.to_owned(),
        problem: Some(problem.clone()),
        extra_constraints: Vec::new(),
        avoid_worker_nodes: Vec::new(),
        options: options.clone(),
        submitted_at_ms: now,
    };
    assert(r@ =~= whole_job(
        solve_id@,
        request_id@,
        problem_id@,
        revision,
        node_id@,
        problem@,
        options@,
        r.job_uuid@,
        now,
    ));
    r
}

/// What follows from trying to store the model of a solve.
#[derive(Debug)]
pub enum Storage {
    /// The jobs refer to the stored model.
    Stored,
    /// The jobs carry the model; why.
    Embedded(String),
    /// Another model is stored: the solve fails.
    Refused(String),
}

/// Decides what follows from trying to store the model of a solve.
pub fn after_storage(failure: Option<String>) -> (r: Storage)
    ensures
        match failure {
            None => r is Stored,
            Some(e) => if tells_model_conflict(e@) {
                r is Refused && r->Refused_0@ == e@
            } else {
                r is Embedded && r->Embedded_0@
                    == "problem model storage unavailable; embedding problem in jobs: "@ + e@
            },
        },
{
    match failure {
        None => Storage::Stored,
        Some(e) => {
            if is_problem_model_conflict(e.as_str()) {
                Storage::Refused(e)
            } else {
                let mut w = "problem model storage unavailable; embedding problem in jobs: ".to_owned();
                w.append(e.as_str());
                Storage::Embedded(w)
            }
        },
    }
}

/// How long the lock on a problem is held, in milliseconds: the time of the solve
/// and a margin.
pub fn solve_lock_ttl(options: &SolveOptions, config: &RuntimeConfig) -> (r: u64)
    ensures
        ({
            let sum = timeout_of(options@) + config.unsigned_or(
                "MIP_SOLVER_COORDINATION_SOLVE_LOCK_MARGIN_MS"@,
                60_000,
            );
            r == if sum <= u64::MAX {
                sum
            } else {
                u64::MAX as int
            }
        }),
{
    let time: u64 = timeout_ms(options);
    let margin: u64 = env_u64(config, "MIP_SOLVER_COORDINATION_SOLVE_LOCK_MARGIN_MS", 60_000);
    if time <= u64::MAX - margin {
        time + margin
    } else {
        u64::MAX
    }
}

/// The one job of a linear program carries the whole model, without added rows, and
/// can be sent out; it belongs to the solve and keeps the options.
pub proof fn linear_programs_are_one_job(
    solve_id: Seq<char>,
    request_id: Seq<char>,
    problem_id: Seq<char>,
    revision: u64,
    node_id: Seq<char>,
    m: Model,
    o: Choices,
    uuid: Seq<char>,
    now: u128,
)
    ensures
        ({
            let job = whole_job(
                solve_id,
                request_id,
                problem_id,
                revision,
                node_id,
                m,
                o,
                uuid,
                now,
            );
            &&& payload_error(job) is None
            &&& job.problem == Some(m)
            &&& job.extra_constraints.len() == 0
            &&& job.solve_id == solve_id
            &&& job.request_id == request_id
            &&& job.problem_id == Some(problem_id)
            &&& job.revision == revision
            &&& job.options == o
            &&& job.master_node == node_id
            &&& job.job_uuid == uuid
            &&& job.depth == 0
            &&& solve_id.is_prefix_of(job.job_id) && job.job_id != solve_id
        }),
{
    reveal_strlit("-lp");
    let id = solve_id + "-lp"@;
    assert(id.subrange(0, solve_id.len() as int) =~= solve_id);
    assert(id.len() == solve_id.len() + 3);
}

/// A model that passes the checks is solved in one piece exactly where no variable must
/// be integral.
pub proof fn integral_models_are_parted(m: Model, o: Choices, limits: Limits)
    requires
        planned(m, o, limits) is Ok,
    ensures
        ({
            let (n, whole) = planned(m, o, limits)->Ok_0;
            &&& valid(m, limits)
            &&& whole <==> forall|i: int|
                0 <= i < m.integer_vars.len() ==> !#[trigger] m.integer_vars[i]
            &&& n.c == m.c && n.a == m.a && n.b == m.b && n.sense == m.sense && n.ub == m.ub
        }),
{
    let n = normalized(m);
    assert(m.integer_vars.len() <= m.c.len());
    if all_continuous(n) {
        assert forall|i: int| 0 <= i < m.integer_vars.len() implies !#[trigger] m.integer_vars[i] by {
            assert(n.integer_vars[i] == m.integer_vars[i]);
        }
    }
}

}
