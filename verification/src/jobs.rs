//! Subproblems as jobs, and the results of jobs.

use crate::accelerator::{AcceleratorReport, Report};
use crate::branching::{branches, copy_branches, Branch, BranchConstraint, LpProblem};
use crate::id_set::IdSet;
use crate::ids::{
    is_random_uuid, job_retry_root, new_uuid_string, retry_id, retry_index, retry_index_reads_back,
    retry_job_id, retry_root,
};
use crate::model::{
    copy_names, copy_numbers, copy_optional_names, copy_optional_numbers, model_view, names_view,
    numbers_view, text_view, unit_result, MipProblemSpec, Model,
};
use crate::number::{finite_only, zero, Double};
use crate::options::{Choices, SolveOptions};
use crate::text::{same, texts};
use vstd::prelude::*;
use vstd::string::*;

verus! {

/// One part of a solve, to be solved by whatever worker takes it.
#[derive(Debug)]
pub struct SubproblemJob {
    pub solve_id: String,
    pub request_id: String,
    pub job_id: String,
    pub job_uuid: String,
    pub problem_id: Option<String>,
    pub problem_stored: bool,
    pub revision: u64,
    pub depth: usize,
    pub master_node: String,
    pub problem: Option<MipProblemSpec>,
    pub extra_constraints: Vec<BranchConstraint>,
    pub avoid_worker_nodes: Vec<String>,
    pub options: SolveOptions,
    pub submitted_at_ms: u128,
}

/// The contents of a job.
#[verifier::ext_equal]
pub struct Job {
    pub solve_id: Seq<char>,
    pub request_id: Seq<char>,
    pub job_id: Seq<char>,
    pub job_uuid: Seq<char>,
    pub problem_id: Option<Seq<char>>,
    pub problem_stored: bool,
    pub revision: u64,
    pub depth: usize,
    pub master_node: Seq<char>,
    pub problem: Option<Model>,
    pub extra_constraints: Seq<Branch>,
    pub avoid_worker_nodes: Seq<Seq<char>>,
    pub options: Choices,
    pub submitted_at_ms: u128,
}

impl View for SubproblemJob {
    type V = Job;

    open spec fn view(&self) -> Job {
        Job {
            solve_id: self.solve_id@,
            request_id: self.request_id@,
            job_id: self.job_id@,
            job_uuid: self.job_uuid@,
            problem_id: text_view(self.problem_id),
            problem_stored: self.problem_stored,
            revision: self.revision,
            depth: self.depth,
            master_node: self.master_node@,
            problem: model_view(self.problem),
            extra_constraints: branches(self.extra_constraints@),
            avoid_worker_nodes: texts(self.avoid_worker_nodes@),
            options: self.options@,
            submitted_at_ms: self.submitted_at_ms,
        }
    }
}

/// The contents of each job.
pub open spec fn jobs_view(v: Seq<SubproblemJob>) -> Seq<Job> {
    v.map_values(|j: SubproblemJob| j@)
}

/// Copies an optional model.
pub fn copy_problem(p: &Option<MipProblemSpec>) -> (r: Option<MipProblemSpec>)
    ensures
        model_view(r) == model_view(*p),
{
    match p {
        Some(p) => Some(p.clone()),
        None => None,
    }
}

impl Clone for SubproblemJob {
    fn clone(&self) -> (r: Self)
        ensures
            r@ == self@,
    {
        SubproblemJob {
            solve_id: self.solve_id.clone(),
            request_id: self.request_id.clone(),
            job_id: self.job_id.clone(),
            job_uuid: self.job_uuid.clone(),
            problem_id: self.problem_id.clone(),
            problem_stored: self.problem_stored,
            revision: self.revision,
            depth: self.depth,
            master_node: self.master_node.clone(),
            problem: copy_problem(&self.problem),
            extra_constraints: copy_branches(&self.extra_constraints),
            avoid_worker_nodes: copy_names(&self.avoid_worker_nodes),
            options: self.options.clone(),
            submitted_at_ms: self.submitted_at_ms,
        }
    }
}

impl SubproblemJob {
    /// The model of the job; a job without one cannot be solved.
    pub fn problem(&self) -> (r: Result<&MipProblemSpec, String>)
        ensures
            match self.problem {
                Some(p) => r == Ok::<&MipProblemSpec, String>(&p),
                None => r is Err && r->Err_0@ == "subproblem "@ + self.job_id@
                    + " has no embedded problem payload and could not be hydrated"@,
            },
    {
        match &self.problem {
            Some(p) => Ok(p),
            None => {
                let mut e = "subproblem ".to_owned();
                e.append(self.job_id.as_str());
                e.append(" has no embedded problem payload and could not be hydrated");
                Err(e)
            },
        }
    }

    /// The job with a reference to the stored model in place of the model.
    pub fn without_problem_payload(self) -> (r: SubproblemJob)
        ensures
            r@ == (Job { problem: None, problem_stored: true, ..self@ }),
    {
        let mut job = self;
        job.problem = None;
        job.problem_stored = true;
        job
    }
}

/// What is wrong with the model of a job: a job carries its model, or refers to a
/// stored one, and never both.
pub open spec fn payload_error(job: Job) -> Option<Seq<char>> {
    if job.problem_stored {
        if job.problem_id is None {
            Some("job "@ + job.job_id + " marked problemStored but has no problemId"@)
        } else if job.problem is Some {
            Some(
                "job "@ + job.job_id
                    + " marked problemStored but still carries an embedded problem"@,
            )
        } else {
            None
        }
    } else if job.problem is None {
        Some("job "@ + job.job_id + " has no stored problem reference and no embedded problem"@)
    } else {
        None
    }
}

/// Checks the model of a job before it is published.
pub fn validate_subproblem_job_payload(job: &SubproblemJob) -> (r: Result<(), String>)
    ensures
        unit_result(r) == payload_error(job@),
{
    let mut e = "job ".to_owned();
    e.append(job.job_id.as_str());
    if job.problem_stored {
        if job.problem_id.is_none() {
            e.append(" marked problemStored but has no problemId");
            return Err(e);
        }
        if job.problem.is_some() {
            e.append(" marked problemStored but still carries an embedded problem");
            return Err(e);
        }
        return Ok(());
    }
    if job.problem.is_none() {
        e.append(" has no stored problem reference and no embedded problem");
        return Err(e);
    }
    Ok(())
}

/// A job with a reference in place of its model can be published where the
/// problem has an identifier.
pub proof fn references_are_valid(job: Job)
    requires
        job.problem_id is Some,
    ensures
        payload_error(Job { problem: None, problem_stored: true, ..job }) is None,
{
}

// Results.

/// What an LP engine found of a model.
#[derive(Debug)]
pub struct LpSolveReport {
    pub primal: LpPrimalReport,
    pub dual: LpDualReport,
    pub basis: LpBasisReport,
    pub iterations: Option<usize>,
    pub solver: String,
    pub elapsed_ms: Double,
    pub message: Option<String>,
}

/// The primal solution.
#[derive(Debug)]
pub struct LpPrimalReport {
    pub objective: Option<Double>,
    pub x: Vec<Double>,
    pub var_names: Option<Vec<String>>,
}

/// The dual solution.
#[derive(Debug)]
pub struct LpDualReport {
    pub inequality: Option<Vec<Double>>,
    pub equality: Option<Vec<Double>>,
    pub reduced_costs: Option<Vec<Double>>,
    pub row_names: Option<Vec<String>>,
    pub var_names: Option<Vec<String>>,
}

/// The final basis.
#[derive(Debug)]
pub struct LpBasisReport {
    pub variables: Option<Vec<String>>,
    pub rows: Option<Vec<String>>,
}

/// The contents of a report.
#[verifier::ext_equal]
pub struct LpReport {
    pub objective: Option<Double>,
    pub x: Seq<Double>,
    pub primal_names: Option<Seq<Seq<char>>>,
    pub inequality: Option<Seq<Double>>,
    pub equality: Option<Seq<Double>>,
    pub reduced_costs: Option<Seq<Double>>,
    pub row_names: Option<Seq<Seq<char>>>,
    pub dual_names: Option<Seq<Seq<char>>>,
    pub basic_variables: Option<Seq<Seq<char>>>,
    pub basic_rows: Option<Seq<Seq<char>>>,
    pub iterations: Option<usize>,
    pub solver: Seq<char>,
    pub elapsed_ms: Double,
    pub message: Option<Seq<char>>,
}

impl View for LpSolveReport {
    type V = LpReport;

    open spec fn view(&self) -> LpReport {
        LpReport {
            objective: self.primal.objective,
            x: self.primal.x@,
            primal_names: names_view(self.primal.var_names),
            inequality: numbers_view(self.dual.inequality),
            equality: numbers_view(self.dual.equality),
            reduced_costs: numbers_view(self.dual.reduced_costs),
            row_names: names_view(self.dual.row_names),
            dual_names: names_view(self.dual.var_names),
            basic_variables: names_view(self.basis.variables),
            basic_rows: names_view(self.basis.rows),
            iterations: self.iterations,
            solver: self.solver@,
            elapsed_ms: self.elapsed_ms,
            message: text_view(self.message),
        }
    }
}

impl Clone for LpSolveReport {
    fn clone(&self) -> (r: Self)
        ensures
            r@ == self@,
    {
        LpSolveReport {
            primal: LpPrimalReport {
                objective: self.primal.objective,
                x: copy_numbers(&self.primal.x),
                var_names: copy_optional_names(&self.primal.var_names),
            },
            dual: LpDualReport {
                inequality: copy_optional_numbers(&self.dual.inequality),
                equality: copy_optional_numbers(&self.dual.equality),
                reduced_costs: copy_optional_numbers(&self.dual.reduced_costs),
                row_names: copy_optional_names(&self.dual.row_names),
                var_names: copy_optional_names(&self.dual.var_names),
            },
            basis: LpBasisReport {
                variables: copy_optional_names(&self.basis.variables),
                rows: copy_optional_names(&self.basis.rows),
            },
            iterations: self.iterations,
            solver: self.solver.clone(),
            elapsed_ms: self.elapsed_ms,
            message: self.message.clone(),
        }
    }
}

/// An optional report by its contents.
pub open spec fn lp_view(v: Option<LpSolveReport>) -> Option<LpReport> {
    match v {
        Some(r) => Some(r@),
        None => None,
    }
}

/// Copies an optional report.
pub fn copy_lp(v: &Option<LpSolveReport>) -> (r: Option<LpSolveReport>)
    ensures
        lp_view(r) == lp_view(*v),
{
    match v {
        Some(report) => Some(report.clone()),
        None => None,
    }
}

/// What a worker found of a job.
#[derive(Debug)]
pub struct SubproblemResult {
    pub solve_id: String,
    pub request_id: String,
    pub job_id: String,
    pub job_uuid: String,
    pub problem_id: Option<String>,
    pub revision: u64,
    pub worker_node: String,
    pub ok: bool,
    pub status: String,
    pub z: Option<Double>,
    pub x: Vec<Double>,
    pub best_bound: Option<Double>,
    pub gap: Option<Double>,
    pub lp: Option<LpSolveReport>,
    pub child_jobs: Vec<SubproblemJob>,
    pub nodes_explored: usize,
    pub lp_solves: usize,
    pub elapsed_ms: Double,
    pub accelerator: AcceleratorReport,
    pub error: Option<String>,
    pub finished_at_ms: u128,
}

/// The contents of a result.
#[verifier::ext_equal]
pub struct Finding {
    pub solve_id: Seq<char>,
    pub request_id: Seq<char>,
    pub job_id: Seq<char>,
    pub job_uuid: Seq<char>,
    pub problem_id: Option<Seq<char>>,
    pub revision: u64,
    pub worker_node: Seq<char>,
    pub ok: bool,
    pub status: Seq<char>,
    pub z: Option<Double>,
    pub x: Seq<Double>,
    pub best_bound: Option<Double>,
    pub gap: Option<Double>,
    pub lp: Option<LpReport>,
    pub child_jobs: Seq<Job>,
    pub nodes_explored: usize,
    pub lp_solves: usize,
    pub elapsed_ms: Double,
    pub accelerator: Report,
    pub error: Option<Seq<char>>,
    pub finished_at_ms: u128,
}

impl View for SubproblemResult {
    type V = Finding;

    open spec fn view(&self) -> Finding {
        Finding {
            solve_id: self.solve_id@,
            request_id: self.request_id@,
            job_id: self.job_id@,
            job_uuid: self.job_uuid@,
            problem_id: text_view(self.problem_id),
            revision: self.revision,
            worker_node: self.worker_node@,
            ok: self.ok,
            status: self.status@,
            z: self.z,
            x: self.x@,
            best_bound: self.best_bound,
            gap: self.gap,
            lp: lp_view(self.lp),
            child_jobs: jobs_view(self.child_jobs@),
            nodes_explored: self.nodes_explored,
            lp_solves: self.lp_solves,
            elapsed_ms: self.elapsed_ms,
            accelerator: self.accelerator@,
            error: text_view(self.error),
            finished_at_ms: self.finished_at_ms,
        }
    }
}

/// The contents of each result.
pub open spec fn findings(v: Seq<SubproblemResult>) -> Seq<Finding> {
    v.map_values(|r: SubproblemResult| r@)
}

/// Copies a list of jobs.
pub fn copy_jobs(v: &Vec<SubproblemJob>) -> (r: Vec<SubproblemJob>)
    ensures
        jobs_view(r@) == jobs_view(v@),
{
    let mut r: Vec<SubproblemJob> = Vec::new();
    let mut i: usize = 0;
    while i < v.len()
        invariant
            i <= v@.len(),
            jobs_view(r@) == jobs_view(v@).take(i as int),
        decreases v@.len() - i,
    {
        let job = v[i].clone();
        let ghost before = r@;
        r.push(job);
        assert(jobs_view(r@) =~= jobs_view(before).push(job@));
        assert(jobs_view(v@).take(i + 1) =~= jobs_view(v@).take(i as int).push(v@[i as int]@));
        i = i + 1;
    }
    assert(jobs_view(v@).take(i as int) =~= jobs_view(v@));
    r
}

impl Clone for SubproblemResult {
    fn clone(&self) -> (r: Self)
        ensures
            r@ == self@,
    {
        SubproblemResult {
            solve_id: self.solve_id.clone(),
            request_id: self.request_id.clone(),
            job_id: self.job_id.clone(),
            job_uuid: self.job_uuid.clone(),
            problem_id: self.problem_id.clone(),
            revision: self.revision,
            worker_node: self.worker_node.clone(),
            ok: self.ok,
            status: self.status.clone(),
            z: self.z,
            x: copy_numbers(&self.x),
            best_bound: self.best_bound,
            gap: self.gap,
            lp: copy_lp(&self.lp),
            child_jobs: copy_jobs(&self.child_jobs),
            nodes_explored: self.nodes_explored,
            lp_solves: self.lp_solves,
            elapsed_ms: self.elapsed_ms,
            accelerator: self.accelerator.clone(),
            error: self.error.clone(),
            finished_at_ms: self.finished_at_ms,
        }
    }
}

/// When and where a job was finished.
#[derive(Debug)]
pub struct Completion {
    pub worker_node: String,
    pub accelerator: AcceleratorReport,
    pub elapsed_ms: Double,
    pub finished_at_ms: u128,
}

/// A result without a solution: the job, where and when it was finished, how it
/// ended and why.
pub open spec fn bare_finding(job: Job, done: Completion, status: Seq<char>, error: Seq<char>) -> Finding {
    Finding {
        solve_id: job.solve_id,
        request_id: job.request_id,
        job_id: job.job_id,
        job_uuid: job.job_uuid,
        problem_id: job.problem_id,
        revision: job.revision,
        worker_node: done.worker_node@,
        ok: false,
        status,
        z: None,
        x: Seq::empty(),
        best_bound: None,
        gap: None,
        lp: None,
        child_jobs: Seq::empty(),
        nodes_explored: 0,
        lp_solves: 0,
        elapsed_ms: done.elapsed_ms,
        accelerator: done.accelerator@,
        error: Some(error),
        finished_at_ms: done.finished_at_ms,
    }
}

fn bare_result(job: SubproblemJob, done: Completion, status: &str, error: String) -> (r:
    SubproblemResult)
    ensures
        r@ == bare_finding(job@, done, status@, error@),
{
    let r = SubproblemResult {
        solve_id: job.solve_id,
        request_id: job.request_id,
        job_id: job.job_id,
        job_uuid: job.job_uuid,
        problem_id: job.problem_id,
        revision: job.revision,
        worker_node: done.worker_node,
        ok: false,
        status: status.to_owned(),
        z: None,
        x: Vec::new(),
        best_bound: None,
        gap: None,
        lp: None,
        child_jobs: Vec::new(),
        nodes_explored: 0,
        lp_solves: 0,
        elapsed_ms: done.elapsed_ms,
        accelerator: done.accelerator,
        error: Some(error),
        finished_at_ms: done.finished_at_ms,
    };
    assert(r@ =~= bare_finding(job@, done, status@, error@));
    r
}

/// The result of a job that could not be solved.
pub fn failed_subproblem(job: SubproblemJob, done: Completion, error: String) -> (r:
    SubproblemResult)
    ensures
        r@ == bare_finding(job@, done, "error"@, error@),
{
    bare_result(job, done, "error", error)
}

/// The result of a job that the bounds alone show to have no solution.
pub fn infeasible_subproblem(job: SubproblemJob, done: Completion, reason: String) -> (r:
    SubproblemResult)
    ensures
        r@ == bare_finding(job@, done, "infeasible"@, reason@),
{
    bare_result(job, done, "infeasible", reason)
}

/// The result of a job that was parted into smaller ones.
pub fn split_subproblem(
    job: SubproblemJob,
    done: Completion,
    children: Vec<SubproblemJob>,
    reason: String,
) -> (r: SubproblemResult)
    ensures
        r@ == (Finding {
            child_jobs: jobs_view(children@),
            lp_solves: 1,
            ..bare_finding(job@, done, "split"@, reason@)
        }),
{
    let mut r = bare_result(job, done, "split", reason);
    r.child_jobs = children;
    r.lp_solves = 1;
    r
}

/// What the branch-and-bound engine found.
#[derive(Debug)]
pub struct IpMipSolution {
    pub optimal: bool,
    pub status: String,
    pub z: Double,
    pub x: Vec<Double>,
    pub best_bound: Double,
    pub gap: Double,
    pub nodes_explored: usize,
    pub lp_solves: usize,
}

/// The result of a job that the branch-and-bound engine solved. It counts as
/// solved where the engine proved it or found any solution.
pub fn mip_subproblem(job: SubproblemJob, done: Completion, solution: IpMipSolution) -> (r:
    SubproblemResult)
    ensures
        r@ == (Finding {
            ok: solution.optimal || solution.x@.len() > 0,
            z: finite_only(solution.z),
            x: solution.x@,
            best_bound: finite_only(solution.best_bound),
            gap: finite_only(solution.gap),
            nodes_explored: solution.nodes_explored,
            lp_solves: solution.lp_solves,
            error: None,
            ..bare_finding(job@, done, solution.status@, Seq::empty())
        }),
{
    let mut r = bare_result(job, done, solution.status.as_str(), String::new());
    r.ok = solution.optimal || solution.x.len() > 0;
    r.z = solution.z.if_finite();
    r.x = solution.x;
    r.best_bound = solution.best_bound.if_finite();
    r.gap = solution.gap.if_finite();
    r.nodes_explored = solution.nodes_explored;
    r.lp_solves = solution.lp_solves;
    r.error = None;
    r
}

/// How an LP engine ended.
#[derive(Clone, Copy, Debug, PartialEq, Eq, Structural)]
pub enum LpStatus {
    Optimal,
    Infeasible,
    Unbounded,
    IterLimit,
    NumericalError,
}

/// What an LP engine found, with the name that it has for how it ended.
#[derive(Debug)]
pub struct LpSolution {
    pub status: LpStatus,
    pub status_text: String,
    pub objective: Double,
    pub x: Vec<Double>,
    pub dual_ub: Option<Vec<Double>>,
    pub dual_eq: Option<Vec<Double>>,
    pub reduced_costs: Option<Vec<Double>>,
    pub var_basis: Option<Vec<String>>,
    pub row_basis: Option<Vec<String>>,
    pub iters: Option<usize>,
    pub solver: String,
    pub elapsed_ms: Double,
    pub message: Option<String>,
}

/// The report on a linear problem and its solution.
pub open spec fn report_on(lp: LpProblem, solution: LpSolution) -> LpReport {
    LpReport {
        objective: finite_only(solution.objective),
        x: solution.x@,
        primal_names: names_view(lp.var_names),
        inequality: numbers_view(solution.dual_ub),
        equality: numbers_view(solution.dual_eq),
        reduced_costs: numbers_view(solution.reduced_costs),
        row_names: names_view(lp.con_names),
        dual_names: names_view(lp.var_names),
        basic_variables: names_view(solution.var_basis),
        basic_rows: names_view(solution.row_basis),
        iterations: solution.iters,
        solver: solution.solver@,
        elapsed_ms: solution.elapsed_ms,
        message: text_view(solution.message),
    }
}

/// The report on a linear problem and its solution.
pub fn lp_report_from_solution(lp: &LpProblem, solution: &LpSolution) -> (r: LpSolveReport)
    ensures
        r@ == report_on(*lp, *solution),
{
    LpSolveReport {
        primal: LpPrimalReport {
            objective: solution.objective.if_finite(),
            x: copy_numbers(&solution.x),
            var_names: copy_optional_names(&lp.var_names),
        },
        dual: LpDualReport {
            inequality: copy_optional_numbers(&solution.dual_ub),
            equality: copy_optional_numbers(&solution.dual_eq),
            reduced_costs: copy_optional_numbers(&solution.reduced_costs),
            row_names: copy_optional_names(&lp.con_names),
            var_names: copy_optional_names(&lp.var_names),
        },
        basis: LpBasisReport {
            variables: copy_optional_names(&solution.var_basis),
            rows: copy_optional_names(&solution.row_basis),
        },
        iterations: solution.iters,
        solver: solution.solver.clone(),
        elapsed_ms: solution.elapsed_ms,
        message: solution.message.clone(),
    }
}

/// Why a linear problem was not solved, where it was not.
pub open spec fn lp_complaint(solution: LpSolution) -> Option<Seq<char>> {
    if solution.status == LpStatus::Optimal {
        None
    } else {
        match solution.message {
            Some(m) => Some(m@),
            None => Some("LP solve returned "@ + solution.status_text@),
        }
    }
}

/// The result of a job that is a pure linear problem. Its optimum, where it has
/// one, is its own bound, with no gap.
pub fn lp_subproblem(job: SubproblemJob, done: Completion, lp: &LpProblem, solution: &LpSolution) -> (r:
    SubproblemResult)
    ensures
        r@ == (Finding {
            ok: solution.status == LpStatus::Optimal,
            z: finite_only(solution.objective),
            x: solution.x@,
            best_bound: if solution.status == LpStatus::Optimal {
                finite_only(solution.objective)
            } else {
                None
            },
            gap: if solution.status == LpStatus::Optimal {
                Some(zero())
            } else {
                None
            },
            lp: Some(report_on(*lp, *solution)),
            nodes_explored: 1,
            lp_solves: 1,
            error: lp_complaint(*solution),
            ..bare_finding(job@, done, solution.status_text@, Seq::empty())
        }),
{
    let optimal = solution.status == LpStatus::Optimal;
    let mut r = bare_result(job, done, solution.status_text.as_str(), String::new());
    r.ok = optimal;
    r.z = solution.objective.if_finite();
    r.x = copy_numbers(&solution.x);
    r.best_bound = if optimal {
        solution.objective.if_finite()
    } else {
        None
    };
    r.gap = if optimal {
        Some(zero())
    } else {
        None
    };
    r.lp = Some(lp_report_from_solution(lp, solution));
    r.nodes_explored = 1;
    r.lp_solves = 1;
    r.error = if optimal {
        None
    } else {
        match &solution.message {
            Some(m) => Some(m.clone()),
            None => {
                let mut e = "LP solve returned ".to_owned();
                e.append(solution.status_text.as_str());
                Some(e)
            },
        }
    };
    r
}

// Retries.

/// A job sent out again: a new attempt under the same root.
pub open spec fn redelegated(original: Job, retry_index: nat, uuid: Seq<char>, now: u128) -> Job {
    Job {
        job_id: retry_id(retry_root(original.job_id), retry_index),
        job_uuid: uuid,
        submitted_at_ms: now,
        ..original
    }
}

/// Sends a job out again, with an identifier of its own.
pub fn redelegated_job(original: &SubproblemJob, retry_index: usize, now_ms: u128) -> (r:
    SubproblemJob)
    ensures
        r@ == redelegated(original@, retry_index as nat, r.job_uuid@, now_ms),
        is_random_uuid(r.job_uuid@),
{
    let mut job = original.clone();
    job.job_id = retry_job_id(job_retry_root(original.job_id.as_str()).as_str(), retry_index);
    job.job_uuid = new_uuid_string();
    job.submitted_at_ms = now_ms;
    job
}

/// Whether a result calls for another attempt: only an error does, and only while
/// attempts remain.
pub fn should_redelegate_result(result: &SubproblemResult, retry_index: usize, max_retries: usize) -> (r:
    bool)
    ensures
        r == (result.status@ == "error"@ && retry_index < max_retries),
{
    same(result.status.as_str(), "error") && retry_index < max_retries
}

// Acceptance.

/// What becomes of a result that comes in.
pub enum Acceptance {
    /// It belongs to another solve.
    Foreign,
    Ignored(Seq<char>),
    Accepted,
}

/// What becomes of a result: a job is counted once, and only where it was
/// expected.
pub open spec fn acceptance(
    finding: Finding,
    solve_id: Seq<char>,
    expected: Set<Seq<char>>,
    completed: Set<Seq<char>>,
) -> Acceptance {
    if finding.solve_id != solve_id {
        Acceptance::Foreign
    } else if !expected.contains(finding.job_id) {
        Acceptance::Ignored("ignored result for unknown job "@ + finding.job_id)
    } else if completed.contains(finding.job_id) {
        Acceptance::Ignored("ignored duplicate result for job "@ + finding.job_id)
    } else {
        Acceptance::Accepted
    }
}

/// Takes in a result, and notes its job as completed where it is accepted.
pub fn accept_subproblem_result(
    result: SubproblemResult,
    solve_id: &str,
    expected_job_ids: &IdSet,
    completed_job_ids: &mut IdSet,
) -> (r: Result<Option<SubproblemResult>, String>)
    ensures
        match acceptance(result@, solve_id@, expected_job_ids@, old(completed_job_ids)@) {
            Acceptance::Foreign => r is Ok && r->Ok_0 is None && final(completed_job_ids)@ == old(
                completed_job_ids,
            )@,
            Acceptance::Ignored(m) => r is Err && r->Err_0@ == m && final(completed_job_ids)@
                == old(completed_job_ids)@,
            Acceptance::Accepted => r == Ok::<Option<SubproblemResult>, String>(Some(result))
                && final(completed_job_ids)@ == old(completed_job_ids)@.insert(result.job_id@),
        },
{
    if !same(result.solve_id.as_str(), solve_id) {
        return Ok(None);
    }
    if !expected_job_ids.contains(result.job_id.as_str()) {
        let mut e = "ignored result for unknown job ".to_owned();
        e.append(result.job_id.as_str());
        return Err(e);
    }
    if !completed_job_ids.insert(result.job_id.clone()) {
        assert(completed_job_ids@ =~= old(completed_job_ids)@);
        let mut e = "ignored duplicate result for job ".to_owned();
        e.append(result.job_id.as_str());
        return Err(e);
    }
    Ok(Some(result))
}

/// A result that was accepted is ignored when it comes again, and completed jobs
/// stay among the expected ones.
pub proof fn results_count_once(
    finding: Finding,
    solve_id: Seq<char>,
    expected: Set<Seq<char>>,
    completed: Set<Seq<char>>,
)
    requires
        acceptance(finding, solve_id, expected, completed) is Accepted,
        completed.subset_of(expected),
    ensures
        acceptance(finding, solve_id, expected, completed.insert(finding.job_id)) is Ignored,
        completed.insert(finding.job_id).subset_of(expected),
        !completed.contains(finding.job_id),
{
}

/// A job can be sent out exactly where it has one source for its model: it carries
/// the model, or it refers to a stored one by the identifier of the problem.
pub proof fn sendable_jobs_have_one_model(job: Job)
    ensures
        payload_error(job) is None <==> (job.problem is Some && !job.problem_stored) || (job.problem
            is None && job.problem_stored && job.problem_id is Some),
{
}

/// A result without a solution names its job and the worker, and says how and why
/// it ended.
pub proof fn results_name_their_job(
    job: Job,
    done: Completion,
    status: Seq<char>,
    error: Seq<char>,
)
    ensures
        ({
            let f = bare_finding(job, done, status, error);
            &&& f.solve_id == job.solve_id
            &&& f.request_id == job.request_id
            &&& f.job_id == job.job_id
            &&& f.job_uuid == job.job_uuid
            &&& f.problem_id == job.problem_id
            &&& f.revision == job.revision
            &&& f.worker_node == done.worker_node@
            &&& f.finished_at_ms == done.finished_at_ms
            &&& f.elapsed_ms == done.elapsed_ms
            &&& f.accelerator == done.accelerator@
            &&& f.status == status
            &&& f.error == Some(error)
            &&& !f.ok && f.z is None && f.x.len() == 0 && f.best_bound is None && f.lp is None
            &&& f.child_jobs.len() == 0
        }),
{
}

/// The report on a linear problem holds the solution and its duals under the names
/// of the problem's variables and rows; an objective that is not finite is left out.
pub proof fn reports_tell_the_solution(lp: LpProblem, solution: LpSolution)
    ensures
        ({
            let r = report_on(lp, solution);
            &&& r.x == solution.x@
            &&& r.objective == if solution.objective.finite() {
                Some(solution.objective)
            } else {
                None
            }
            &&& r.inequality == numbers_view(solution.dual_ub)
            &&& r.equality == numbers_view(solution.dual_eq)
            &&& r.reduced_costs == numbers_view(solution.reduced_costs)
            &&& r.basic_variables == names_view(solution.var_basis)
            &&& r.basic_rows == names_view(solution.row_basis)
            &&& r.primal_names == names_view(lp.var_names) && r.dual_names == names_view(
                lp.var_names,
            )
            &&& r.row_names == names_view(lp.con_names)
            &&& r.iterations == solution.iters
            &&& r.solver == solution.solver@
        }),
{
}

/// A linear problem is complained of exactly where it was not solved, in the words
/// of the engine where it has any.
pub proof fn unsolved_problems_are_complained_of(solution: LpSolution)
    ensures
        lp_complaint(solution) is None <==> solution.status == LpStatus::Optimal,
        solution.status != LpStatus::Optimal && solution.message is Some ==> lp_complaint(solution)
            == Some(solution.message->0@),
{
}

/// A job that is sent out again is the same job: only its identifiers and its time
/// are new. The identifier counts the attempt, and the job can be sent out where it
/// could be before.
pub proof fn retries_are_the_same_job(original: Job, index: nat, uuid: Seq<char>, now: u128)
    requires
        index <= usize::MAX,
    ensures
        ({
            let again = redelegated(original, index, uuid, now);
            &&& retry_index(again.job_id) == index
            &&& again.job_uuid == uuid
            &&& again.submitted_at_ms == now
            &&& again.solve_id == original.solve_id
            &&& again.request_id == original.request_id
            &&& again.problem_id == original.problem_id
            &&& again.problem_stored == original.problem_stored
            &&& again.problem == original.problem
            &&& again.revision == original.revision
            &&& again.depth == original.depth
            &&& again.master_node == original.master_node
            &&& again.extra_constraints == original.extra_constraints
            &&& again.avoid_worker_nodes == original.avoid_worker_nodes
            &&& again.options == original.options
            &&& payload_error(again) is None <==> payload_error(original) is None
            &&& retry_root(original.job_id).is_prefix_of(again.job_id)
        }),
{
    retry_index_reads_back(retry_root(original.job_id), index);
    let again = redelegated(original, index, uuid, now);
    let root = retry_root(original.job_id);
    assert(again.job_id.subrange(0, root.len() as int) =~= root);
}

/// A result counts exactly where it belongs to the solve, is that of a job which is
/// expected, and is the first for that job.
pub proof fn accepted_results_are_awaited(
    finding: Finding,
    solve_id: Seq<char>,
    expected: Set<Seq<char>>,
    completed: Set<Seq<char>>,
)
    ensures
        acceptance(finding, solve_id, expected, completed) is Accepted <==> finding.solve_id
            == solve_id && expected.contains(finding.job_id) && !completed.contains(finding.job_id),
        acceptance(finding, solve_id, expected, completed) is Foreign <==> finding.solve_id
            != solve_id,
{
}

/// A job is seen part by part, with nothing left out.
pub proof fn jobs_are_seen_part_by_part(v: SubproblemJob)
    ensures
        v@.solve_id == v.solve_id@,
        v@.request_id == v.request_id@,
        v@.job_id == v.job_id@,
        v@.job_uuid == v.job_uuid@,
        v@.problem_id == text_view(v.problem_id),
        v@.problem_stored == v.problem_stored,
        v@.revision == v.revision,
        v@.depth == v.depth,
        v@.master_node == v.master_node@,
        v@.problem == model_view(v.problem),
        v@.extra_constraints == branches(v.extra_constraints@),
        v@.avoid_worker_nodes == texts(v.avoid_worker_nodes@),
        v@.options == v.options@,
        v@.submitted_at_ms == v.submitted_at_ms,
{
}

/// A result is seen part by part, with nothing left out.
pub proof fn results_are_seen_part_by_part(v: SubproblemResult)
    ensures
        v@.solve_id == v.solve_id@,
        v@.request_id == v.request_id@,
        v@.job_id == v.job_id@,
        v@.job_uuid == v.job_uuid@,
        v@.problem_id == text_view(v.problem_id),
        v@.revision == v.revision,
        v@.worker_node == v.worker_node@,
        v@.ok == v.ok,
        v@.status == v.status@,
        v@.z == v.z,
        v@.x == v.x@,
        v@.best_bound == v.best_bound,
        v@.gap == v.gap,
        v@.lp == lp_view(v.lp),
        v@.child_jobs == jobs_view(v.child_jobs@),
        v@.nodes_explored == v.nodes_explored,
        v@.lp_solves == v.lp_solves,
        v@.elapsed_ms == v.elapsed_ms,
        v@.accelerator == v.accelerator@,
        v@.error == text_view(v.error),
        v@.finished_at_ms == v.finished_at_ms,
{
}

/// Lists of jobs and results are seen one by one, in order.
pub proof fn lists_are_seen_one_by_one(
    jobs: Seq<SubproblemJob>,
    results: Seq<SubproblemResult>,
    i: int,
)
    ensures
        jobs_view(jobs).len() == jobs.len() && findings(results).len() == results.len(),
        0 <= i < jobs.len() ==> jobs_view(jobs)[i] == jobs[i]@,
        0 <= i < results.len() ==> findings(results)[i] == results[i]@,
{
}

}
