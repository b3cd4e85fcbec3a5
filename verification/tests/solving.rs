//! Options, frontiers, subproblems and what is made of their results.

use mip_solver_node::accelerator::{
    gpu_available, gpu_disabled, gpu_mode, gpu_required, gpu_status, gpu_status_from_report,
    matvec_begin, matvec_cpu_done, matvec_gpu_done, matvec_gpu_failed, AcceleratorReport,
    MatvecStep,
};
use mip_solver_node::aggregate::{
    aggregate_gpu_status, aggregate_results, incumbent, overall_bound, solve_status, SolveTally,
};
use mip_solver_node::bounds::{
    bound_split, bound_verdict, infeasible_reason, note_satisfied_rows, BoundVerdict,
};
use mip_solver_node::branching::{
    branch_constraints, extend_problem, first_fractional, is_pure_lp, sense_of, to_ipmip_problem,
    to_lp_problem, BranchConstraint, BranchPoint, Sense,
};
use mip_solver_node::config::{NodeRole, RuntimeConfig, Setting};
use mip_solver_node::frontier::{
    max_subproblems, split_depth, FrontierBuilder, FrontierPlan, Relaxation,
};
use mip_solver_node::id_set::IdSet;
use mip_solver_node::ids::new_uuid_string;
use mip_solver_node::jobs::{
    accept_subproblem_result, failed_subproblem, infeasible_subproblem, lp_subproblem,
    mip_subproblem, redelegated_job, should_redelegate_result, split_subproblem,
    validate_subproblem_job_payload, Completion, IpMipSolution, LpSolution, LpStatus,
    SubproblemJob, SubproblemResult,
};
use mip_solver_node::model::{normalized_problem, Limits, MipProblemSpec};
use mip_solver_node::number::Double;
use mip_solver_node::options::{integrality_tolerance, BranchRule, LpAlgorithm, SolveOptions};
use mip_solver_node::subproblem::{
    lp_task, split_subproblem_children, task_after_preprocess, task_after_relaxation,
    SubproblemTask,
};
use mip_solver_node::verification::{
    begin_check, compare_objectives, external_des_ipmip_algorithm, external_lp_method,
    external_sense, external_verification_method, external_verification_report,
    external_verification_requested, external_verification_tolerance, failed_check,
    panicked_check, verification_warning, CheckStep, ExternalAlgorithm, MismatchTexts,
};
use uuid::Uuid;

const LIMITS: Limits = Limits { max_vars: 10_000, max_constraints: 50_000 };

fn d(x: f64) -> Double {
    Double { bits: x.to_bits() }
}

fn ds(v: &[f64]) -> Vec<Double> {
    v.iter().map(|x| d(*x)).collect()
}

fn no_settings() -> RuntimeConfig {
    RuntimeConfig { settings: vec![] }
}

fn settings(pairs: &[(&str, &str)]) -> RuntimeConfig {
    RuntimeConfig {
        settings: pairs
            .iter()
            .map(|(key, text)| Setting {
                key: key.to_string(),
                text: text.to_string(),
                unsigned: text.trim().parse().ok(),
                flag: match *text {
                    "true" => Some(true),
                    "false" => Some(false),
                    _ => None,
                },
                number: text.trim().parse().ok().map(d),
            })
            .collect(),
    }
}

fn binary_knapsack_problem() -> MipProblemSpec {
    MipProblemSpec {
        sense: "max".to_string(),
        c: ds(&[10.0, 40.0, 30.0, 50.0]),
        a: vec![ds(&[5.0, 4.0, 6.0, 3.0])],
        b: ds(&[10.0]),
        integer_vars: vec![true, true, true, true],
        ub: Some(ds(&[1.0, 1.0, 1.0, 1.0])),
        var_names: None,
        con_names: None,
    }
}

fn pure_lp_problem() -> MipProblemSpec {
    MipProblemSpec {
        sense: "max".to_string(),
        c: ds(&[3.0, 2.0]),
        a: vec![ds(&[1.0, 1.0]), ds(&[1.0, 0.0]), ds(&[0.0, 1.0])],
        b: ds(&[4.0, 2.0, 3.0]),
        integer_vars: vec![false, false],
        ub: None,
        var_names: Some(vec!["x0".to_string(), "x1".to_string()]),
        con_names: Some(vec![
            "shared".to_string(),
            "x0_cap".to_string(),
            "x1_cap".to_string(),
        ]),
    }
}

fn one_variable_problem() -> MipProblemSpec {
    normalized_problem(
        MipProblemSpec {
            sense: "max".to_string(),
            c: ds(&[1.0]),
            a: vec![ds(&[1.0])],
            b: ds(&[1.5]),
            integer_vars: vec![true],
            ub: None,
            var_names: None,
            con_names: None,
        },
        LIMITS,
    )
    .unwrap()
}

fn test_job(problem: MipProblemSpec) -> SubproblemJob {
    SubproblemJob {
        solve_id: "solve-test".to_string(),
        request_id: "request-test".to_string(),
        job_id: "job-test".to_string(),
        job_uuid: new_uuid_string(),
        problem_id: Some("33333333-3333-4333-8333-333333333333".to_string()),
        problem_stored: false,
        revision: 0,
        depth: 0,
        master_node: "master-test".to_string(),
        problem: Some(problem),
        extra_constraints: Vec::new(),
        avoid_worker_nodes: Vec::new(),
        options: SolveOptions { split_depth: Some(0), ..SolveOptions::default() },
        submitted_at_ms: 1_000,
    }
}

fn test_result(job_id: &str, status: &str, z: Option<f64>, x: &[f64]) -> SubproblemResult {
    SubproblemResult {
        solve_id: "solve-test".to_string(),
        request_id: "request-test".to_string(),
        job_id: job_id.to_string(),
        job_uuid: new_uuid_string(),
        problem_id: Some("11111111-1111-4111-8111-111111111111".to_string()),
        revision: 0,
        worker_node: "worker-a".to_string(),
        ok: z.is_some(),
        status: status.to_string(),
        z: z.map(d),
        x: ds(x),
        best_bound: z.map(d),
        gap: z.map(|_| d(0.0)),
        lp: None,
        child_jobs: Vec::new(),
        nodes_explored: 1,
        lp_solves: 1,
        elapsed_ms: d(1.0),
        accelerator: AcceleratorReport::default(),
        error: None,
        finished_at_ms: 2_000,
    }
}

fn tally(expected: usize, published: usize, redelegated: usize) -> SolveTally {
    SolveTally {
        solve_id: "solve-test".to_string(),
        request_id: "request-test".to_string(),
        problem_id: None,
        revision: 0,
        maximize: true,
        jobs_expected: expected,
        jobs_published: published,
        jobs_redelegated: redelegated,
        jobs_split: 0,
        timed_out: false,
        distributed: true,
        node_id: "test-node".to_string(),
        role: NodeRole::Master,
        warnings: Vec::new(),
        generated_at_ms: 3_000,
    }
}

fn plan(solve_id: &str, problem: MipProblemSpec, options: SolveOptions, problem_id: &str, stored: bool) -> FrontierPlan {
    FrontierPlan {
        solve_id: solve_id.to_string(),
        request_id: "request-test".to_string(),
        problem_id: problem_id.to_string(),
        revision: 7,
        master_node: "master-a".to_string(),
        problem,
        options,
        problem_stored: stored,
    }
}

fn optimal(branch: Option<BranchPoint>) -> Relaxation {
    Relaxation { status: LpStatus::Optimal, status_text: "Optimal".to_string(), branch }
}

fn ended(status: LpStatus) -> Relaxation {
    Relaxation { status, status_text: format!("{status:?}"), branch: None }
}

fn between_one_and_two() -> BranchPoint {
    BranchPoint {
        var: 0,
        floor: d(1.0),
        negated_ceil: d(-2.0),
        value_text: "1.5".to_string(),
        floor_text: "1".to_string(),
        ceil_text: "2".to_string(),
    }
}

// Frontiers.

fn splits_fractional_lp_relaxation() {
    let options = SolveOptions { split_depth: Some(1), ..SolveOptions::default() };
    let mut builder = FrontierBuilder::new(plan(
        "solve-test",
        one_variable_problem(),
        options,
        "33333333-3333-4333-8333-333333333333",
        false,
    ));
    // The relaxation of the model is 1.5; that with x <= 1 is 1; with x >= 2
    // nothing is left.
    assert!(builder.next_constraints().unwrap().is_empty());
    builder.advance(optimal(Some(between_one_and_two())), 10);
    let left = builder.next_constraints().unwrap();
    assert_eq!(left[0].name, "branch_d0_x0_le_1");
    builder.advance(optimal(None), 11);
    let right = builder.next_constraints().unwrap();
    assert_eq!(right[0].coefs, ds(&[-1.0]));
    assert_eq!(right[0].rhs, d(-2.0));
    assert_eq!(right[0].name, "branch_d0_x0_ge_2");
    builder.advance(ended(LpStatus::Infeasible), 12);
    assert!(builder.next_constraints().is_none());
    let (jobs, warnings) = builder.finish();

    assert!(warnings.is_empty());
    assert_eq!(jobs.len(), 1);
    assert!(jobs.iter().all(|job| job.revision == 7));
    assert!(jobs
        .iter()
        .all(|job| job.problem_id.as_deref() == Some("33333333-3333-4333-8333-333333333333")));
    assert!(jobs.iter().all(|job| Uuid::parse_str(&job.job_uuid).is_ok()));
    assert!(jobs.iter().all(|job| job.extra_constraints.len() == 1));
    assert_eq!(jobs[0].extra_constraints[0].coefs, ds(&[1.0]));
    assert_eq!(jobs[0].extra_constraints[0].rhs, d(1.0));
    assert_eq!(jobs[0].depth, 1);
    assert_eq!(jobs[0].job_id, "solve-test-0");
    assert_eq!(jobs[0].submitted_at_ms, 11);
}

#[test]
fn main_frontier_builder_splits_fractional_lp_relaxation() {
    splits_fractional_lp_relaxation();
}

#[test]
fn tests_frontier_builder_splits_fractional_lp_relaxation() {
    splits_fractional_lp_relaxation();
}

fn value_of(d: Double) -> f64 {
    f64::from_bits(d.bits)
}

fn branch_at(floor: f64) -> BranchPoint {
    BranchPoint {
        var: 0,
        floor: d(floor),
        negated_ceil: d(-(floor + 1.0)),
        value_text: format!("{:.1}", floor + 0.5),
        floor_text: format!("{floor}"),
        ceil_text: format!("{}", floor + 1.0),
    }
}

#[test]
fn every_whole_point_lies_in_one_job() {
    let options = SolveOptions { split_depth: Some(3), ..SolveOptions::default() };
    let mut builder = FrontierBuilder::new(plan("solve-x", one_variable_problem(), options, "p", false));
    for floor in [3.0, 1.0, 5.0] {
        builder.advance(optimal(Some(branch_at(floor))), 10);
    }
    while builder.next_constraints().is_some() {
        builder.advance(optimal(None), 11);
    }
    let (jobs, _) = builder.finish();
    assert_eq!(jobs.len(), 4);
    for x in 0..8 {
        let holding = jobs
            .iter()
            .filter(|job| {
                job.extra_constraints
                    .iter()
                    .all(|row| value_of(row.coefs[0]) * f64::from(x) <= value_of(row.rhs))
            })
            .count();
        assert_eq!(holding, 1, "{x}");
    }
}

#[test]
fn the_integrality_tolerance_has_a_default() {
    let none = SolveOptions { int_tol: None, ..SolveOptions::default() };
    assert_eq!(integrality_tolerance(&none), d(1e-6));
    let given = SolveOptions { int_tol: Some(d(0.25)), ..SolveOptions::default() };
    assert_eq!(integrality_tolerance(&given), d(0.25));
}

fn can_emit_ref_only_jobs() {
    let problem = normalized_problem(binary_knapsack_problem(), LIMITS).unwrap();
    let options = SolveOptions { split_depth: Some(1), ..SolveOptions::default() };
    let mut builder = FrontierBuilder::new(plan(
        "solve-ref-test",
        problem,
        options,
        "77777777-7777-4777-8777-777777777777",
        true,
    ));
    let third_of_two = BranchPoint {
        var: 2,
        floor: d(0.0),
        negated_ceil: d(-1.0),
        value_text: "0.5".to_string(),
        floor_text: "0".to_string(),
        ceil_text: "1".to_string(),
    };
    builder.advance(optimal(Some(third_of_two)), 10);
    while builder.next_constraints().is_some() {
        builder.advance(optimal(None), 11);
    }
    let (jobs, warnings) = builder.finish();

    assert!(warnings.is_empty());
    assert!(!jobs.is_empty());
    assert!(jobs.iter().all(|job| job.problem_stored));
    assert!(jobs.iter().all(|job| job.problem.is_none()));
    assert!(jobs.iter().all(|job| validate_subproblem_job_payload(job).is_ok()));
}

#[test]
fn main_frontier_builder_can_emit_ref_only_jobs() {
    can_emit_ref_only_jobs();
}

#[test]
fn tests_frontier_builder_can_emit_ref_only_jobs() {
    can_emit_ref_only_jobs();
}

fn caps_presplit_subproblem_count() {
    let options = SolveOptions {
        split_depth: Some(4),
        max_subproblems: Some(1),
        ..SolveOptions::default()
    };
    let mut builder = FrontierBuilder::new(plan(
        "solve-test",
        one_variable_problem(),
        options,
        "44444444-4444-4444-8444-444444444444",
        false,
    ));
    builder.advance(optimal(Some(between_one_and_two())), 10);
    assert!(builder.next_constraints().is_none());
    let (jobs, warnings) = builder.finish();

    assert_eq!(jobs.len(), 1);
    assert_eq!(jobs[0].depth, 0);
    assert!(jobs[0].extra_constraints.is_empty());
    assert!(warnings
        .iter()
        .any(|warning| warning.contains("frontier split capped at 1 subproblems")));
}

#[test]
fn main_frontier_builder_caps_presplit_subproblem_count() {
    caps_presplit_subproblem_count();
}

#[test]
fn tests_frontier_builder_caps_presplit_subproblem_count() {
    caps_presplit_subproblem_count();
}

#[test]
fn frontiers_keep_what_the_engine_could_not_relax() {
    let options = SolveOptions { split_depth: Some(2), ..SolveOptions::default() };
    let mut builder = FrontierBuilder::new(plan("solve-x", one_variable_problem(), options, "p", false));
    builder.advance(optimal(Some(between_one_and_two())), 1);
    builder.advance(ended(LpStatus::NumericalError), 2);
    builder.advance(ended(LpStatus::Unbounded), 3);
    let (jobs, warnings) = builder.finish();
    assert_eq!(jobs.len(), 2);
    assert_eq!(
        warnings,
        vec![
            "LP relaxation at depth 1 returned NumericalError; keeping it as a subtree job".to_string(),
            "LP relaxation at depth 1 is unbounded; keeping it as a subtree job".to_string(),
        ]
    );
    let ids: Vec<&str> = jobs.iter().map(|job| job.job_id.as_str()).collect();
    assert_eq!(ids, vec!["solve-x-0", "solve-x-1"]);
}

#[test]
fn split_limits_have_defaults_and_maxima() {
    assert_eq!(split_depth(&SolveOptions::default()), 1);
    assert_eq!(split_depth(&SolveOptions { split_depth: Some(99), ..SolveOptions::default() }), 8);
    assert_eq!(max_subproblems(&SolveOptions::default()), 256);
    assert_eq!(max_subproblems(&SolveOptions { max_subproblems: Some(0), ..SolveOptions::default() }), 1);
    assert_eq!(
        max_subproblems(&SolveOptions { max_subproblems: Some(1_000_000), ..SolveOptions::default() }),
        100_000
    );
}

// Jobs.

fn enforces_reference_contract() {
    let problem = normalized_problem(binary_knapsack_problem(), LIMITS).unwrap();
    let mut ref_job = test_job(problem.clone()).without_problem_payload();
    ref_job.problem_id = Some("8ccccccc-8888-4888-8888-888888888888".to_string());
    assert!(validate_subproblem_job_payload(&ref_job).is_ok());

    let mut leaked_ref_job = ref_job.clone();
    leaked_ref_job.problem = Some(problem);
    assert!(validate_subproblem_job_payload(&leaked_ref_job)
        .unwrap_err()
        .contains("embedded problem"));

    let mut missing_embedded = test_job(binary_knapsack_problem());
    missing_embedded.problem = None;
    assert!(validate_subproblem_job_payload(&missing_embedded)
        .unwrap_err()
        .contains("no stored problem reference"));

    ref_job.problem_id = None;
    assert_eq!(
        validate_subproblem_job_payload(&ref_job).unwrap_err(),
        "job job-test marked problemStored but has no problemId"
    );
}

#[test]
fn main_validate_subproblem_job_payload_enforces_reference_contract() {
    enforces_reference_contract();
}

#[test]
fn tests_validate_subproblem_job_payload_enforces_reference_contract() {
    enforces_reference_contract();
}

fn preserves_payload_and_advances_retry_id() {
    let mut job = test_job(binary_knapsack_problem());
    job.job_id = "solve-test-0".to_string();
    job.extra_constraints.push(BranchConstraint {
        coefs: ds(&[1.0, 0.0, 0.0, 0.0]),
        rhs: d(0.0),
        name: "branch_x0_le_0".to_string(),
    });

    let retry = redelegated_job(&job, 2, 5_000);

    assert_eq!(retry.job_id, "solve-test-0-retry-2");
    assert_eq!(retry.solve_id, job.solve_id);
    assert_eq!(retry.request_id, job.request_id);
    assert_eq!(retry.revision, job.revision);
    assert_eq!(
        retry.problem.as_ref().map(|problem| &problem.c),
        job.problem.as_ref().map(|problem| &problem.c)
    );
    assert_eq!(retry.extra_constraints.len(), job.extra_constraints.len());
    assert_eq!(retry.extra_constraints[0].coefs, job.extra_constraints[0].coefs);
    assert_eq!(retry.extra_constraints[0].rhs, job.extra_constraints[0].rhs);
    assert_eq!(retry.extra_constraints[0].name, job.extra_constraints[0].name);
    assert_ne!(retry.job_uuid, job.job_uuid);
    assert!(Uuid::parse_str(&retry.job_uuid).is_ok());
    assert_eq!(retry.problem_id, job.problem_id);
    assert!(retry.submitted_at_ms >= job.submitted_at_ms);
    assert_eq!(redelegated_job(&retry, 3, 6_000).job_id, "solve-test-0-retry-3");
}

#[test]
fn main_redelegated_job_preserves_payload_and_advances_retry_id() {
    preserves_payload_and_advances_retry_id();
}

#[test]
fn tests_redelegated_job_preserves_payload_and_advances_retry_id() {
    preserves_payload_and_advances_retry_id();
}

fn ignores_duplicate_and_unknown_jobs() {
    let mut expected = IdSet::new();
    expected.insert("job-0".to_string());
    expected.insert("job-1".to_string());
    let mut completed = IdSet::new();
    let result = test_result("job-0", "optimal", Some(90.0), &[0.0, 1.0]);

    assert!(
        accept_subproblem_result(result.clone(), "solve-test", &expected, &mut completed)
            .unwrap()
            .is_some()
    );
    assert_eq!(completed.len(), 1);

    let duplicate =
        accept_subproblem_result(result.clone(), "solve-test", &expected, &mut completed)
            .unwrap_err();
    assert!(duplicate.contains("duplicate"));
    assert_eq!(completed.len(), 1);

    let mut unknown = result.clone();
    unknown.job_id = "job-missing".to_string();
    let warning =
        accept_subproblem_result(unknown, "solve-test", &expected, &mut completed).unwrap_err();
    assert!(warning.contains("unknown job"));
    assert_eq!(completed.len(), 1);

    let mut other_solve = result;
    other_solve.solve_id = "solve-other".to_string();
    assert!(
        accept_subproblem_result(other_solve, "solve-test", &expected, &mut completed)
            .unwrap()
            .is_none()
    );
    assert_eq!(completed.len(), 1);
}

#[test]
fn main_result_acceptance_ignores_duplicate_and_unknown_jobs() {
    ignores_duplicate_and_unknown_jobs();
}

#[test]
fn tests_result_acceptance_ignores_duplicate_and_unknown_jobs() {
    ignores_duplicate_and_unknown_jobs();
}

fn done() -> Completion {
    Completion {
        worker_node: "worker-a".to_string(),
        accelerator: AcceleratorReport::default(),
        elapsed_ms: d(4.0),
        finished_at_ms: 77,
    }
}

#[test]
fn results_say_how_a_job_ended() {
    let job = test_job(binary_knapsack_problem());
    let failed = failed_subproblem(job.clone(), done(), "no engine".to_string());
    assert!(!failed.ok);
    assert_eq!(failed.status, "error");
    assert_eq!(failed.error.as_deref(), Some("no engine"));
    assert_eq!(failed.finished_at_ms, 77);

    let pruned = infeasible_subproblem(job.clone(), done(), "row 0".to_string());
    assert_eq!(pruned.status, "infeasible");
    assert_eq!(pruned.error.as_deref(), Some("row 0"));

    let split = split_subproblem(job.clone(), done(), vec![job.clone()], "halved".to_string());
    assert_eq!(split.status, "split");
    assert_eq!(split.child_jobs.len(), 1);

    let solved = mip_subproblem(
        job.clone(),
        done(),
        IpMipSolution {
            optimal: true,
            status: "optimal".to_string(),
            z: d(90.0),
            x: ds(&[0.0, 1.0, 0.0, 1.0]),
            best_bound: d(f64::INFINITY),
            gap: d(0.0),
            nodes_explored: 5,
            lp_solves: 6,
        },
    );
    assert!(solved.ok);
    assert_eq!(solved.status, "optimal");
    assert_eq!(solved.z, Some(d(90.0)));
    assert_eq!(solved.best_bound, None);
    assert_eq!(solved.nodes_explored, 5);

    assert!(should_redelegate_result(&failed, 0, 1));
    assert!(!should_redelegate_result(&failed, 1, 1));
    assert!(!should_redelegate_result(&solved, 0, 1));
    assert!(!should_redelegate_result(&pruned, 0, 1));
}

#[test]
fn lp_results_hold_the_certificate() {
    let lp = to_lp_problem(&pure_lp_problem(), &vec![], LIMITS).unwrap();
    let solution = LpSolution {
        status: LpStatus::Optimal,
        status_text: "optimal".to_string(),
        objective: d(10.0),
        x: ds(&[2.0, 2.0]),
        dual_ub: Some(ds(&[2.0, 1.0, 0.0])),
        dual_eq: None,
        reduced_costs: Some(ds(&[0.0, 0.0])),
        var_basis: Some(vec!["basic".to_string(), "basic".to_string()]),
        row_basis: None,
        iters: Some(3),
        solver: "simplex".to_string(),
        elapsed_ms: d(1.5),
        message: None,
    };
    let result = lp_subproblem(test_job(pure_lp_problem()), done(), &lp, &solution);
    assert!(result.ok);
    assert_eq!(result.status, "optimal");
    assert_eq!(result.z, Some(d(10.0)));
    let report = result.lp.unwrap();
    assert_eq!(report.primal.x, ds(&[2.0, 2.0]));
    assert_eq!(report.dual.inequality, Some(ds(&[2.0, 1.0, 0.0])));
    assert_eq!(
        report.dual.row_names,
        Some(vec!["shared".to_string(), "x0_cap".to_string(), "x1_cap".to_string()])
    );
    assert_eq!(report.solver, "simplex");
}

// Options.

fn merge_request_values_over_runtime_defaults() {
    let defaults = SolveOptions {
        max_nodes: Some(111),
        max_ticks: Some(222),
        lp_max_iters: Some(333),
        lp_algorithm: Some("internal-simplex".to_string()),
        int_tol: Some(d(1e-4)),
        split_depth: Some(2),
        max_subproblems: Some(12),
        max_job_retries: Some(4),
        timeout_ms: Some(444),
        emit_trace: Some(false),
        verify_external: Some(false),
        external_verification_method: Some("highs".to_string()),
        external_verification_tolerance: Some(d(1e-5)),
    };
    let input = SolveOptions {
        max_nodes: Some(999),
        max_ticks: None,
        lp_max_iters: Some(777),
        lp_algorithm: Some("internal-ipm".to_string()),
        int_tol: None,
        split_depth: Some(5),
        max_subproblems: Some(3),
        max_job_retries: Some(9),
        timeout_ms: None,
        emit_trace: Some(true),
        verify_external: Some(true),
        external_verification_method: Some("highs-ds".to_string()),
        external_verification_tolerance: None,
    };

    let merged = SolveOptions::merged_with_defaults(Some(input), defaults);

    assert_eq!(merged.max_nodes, Some(999));
    assert_eq!(merged.max_ticks, Some(222));
    assert_eq!(merged.lp_max_iters, Some(777));
    assert_eq!(merged.lp_algorithm.as_deref(), Some("internal-ipm"));
    assert_eq!(merged.int_tol, Some(d(1e-4)));
    assert_eq!(merged.split_depth, Some(5));
    assert_eq!(merged.max_subproblems, Some(3));
    assert_eq!(merged.max_job_retries, Some(9));
    assert_eq!(merged.timeout_ms, Some(444));
    assert_eq!(merged.emit_trace, Some(true));
    assert_eq!(merged.verify_external, Some(true));
    assert_eq!(merged.external_verification_method.as_deref(), Some("highs-ds"));
    assert_eq!(merged.external_verification_tolerance, Some(d(1e-5)));
}

#[test]
fn main_solve_options_merge_request_values_over_runtime_defaults() {
    merge_request_values_over_runtime_defaults();
}

#[test]
fn tests_solve_options_merge_request_values_over_runtime_defaults() {
    merge_request_values_over_runtime_defaults();
}

fn force_in_house_lp_and_mip_engines() {
    let options = SolveOptions::default().to_ipmip_options(&no_settings()).unwrap();

    assert_eq!(options.allow_external_solvers, false);
    assert!(matches!(options.lp_algorithm, LpAlgorithm::InternalSimplex));
    assert!(matches!(options.branch_rule, Some(BranchRule::MostFractional)));
    assert_eq!(options.max_cut_rounds, 8);
    assert_eq!(options.max_cuts_per_node, 16);
    assert_eq!(options.heuristic_passes, 2);
    assert!(!options.verbose);
}

#[test]
fn main_solve_options_force_in_house_lp_and_mip_engines() {
    force_in_house_lp_and_mip_engines();
}

#[test]
fn tests_solve_options_force_in_house_lp_and_mip_engines() {
    force_in_house_lp_and_mip_engines();
}

fn select_internal_ipm_and_reject_external_or_unknown_algorithms() {
    for alias in ["internal-ipm", "internal_interior_point", "ipm"] {
        let options = SolveOptions {
            lp_algorithm: Some(alias.to_string()),
            ..SolveOptions::default()
        }
        .to_ipmip_options(&no_settings())
        .unwrap();
        assert!(matches!(options.lp_algorithm, LpAlgorithm::InternalInteriorPoint));
        assert_eq!(options.allow_external_solvers, false);
    }

    for rejected in ["external-highs", "auto", "mystery"] {
        let error = SolveOptions {
            lp_algorithm: Some(rejected.to_string()),
            ..SolveOptions::default()
        }
        .to_ipmip_options(&no_settings())
        .unwrap_err();
        assert!(error.contains("unsupported lpAlgorithm"), "{error}");
        assert!(error.contains(&format!("{rejected:?}")), "{error}");
    }
}

#[test]
fn main_solve_options_select_internal_ipm_and_reject_external_or_unknown_algorithms() {
    select_internal_ipm_and_reject_external_or_unknown_algorithms();
}

#[test]
fn tests_solve_options_select_internal_ipm_and_reject_external_or_unknown_algorithms() {
    select_internal_ipm_and_reject_external_or_unknown_algorithms();
}

#[test]
fn algorithm_errors_quote_the_name() {
    let error = SolveOptions {
        lp_algorithm: Some("a\"b\n".to_string()),
        ..SolveOptions::default()
    }
    .requested_lp_algorithm()
    .unwrap_err();
    assert!(error.contains("\"a\\\"b\\n\""), "{error}");
}

#[test]
fn runtime_defaults_come_from_the_settings() {
    let config = settings(&[
        ("MIP_SOLVER_MAX_NODES", "17"),
        ("MIP_SOLVER_SPLIT_DEPTH", "0"),
        ("MIP_SOLVER_MAX_JOB_RETRIES", "0"),
        ("MIP_SOLVER_LP_ALGORITHM", "ipm"),
        ("MIP_SOLVER_MAX_CUT_ROUNDS", "9999"),
    ]);
    let defaults = SolveOptions::runtime_defaults(&config);
    assert_eq!(defaults.max_nodes, Some(17));
    assert_eq!(defaults.split_depth, Some(1));
    assert_eq!(defaults.max_job_retries, Some(0));
    assert_eq!(defaults.max_ticks, Some(200_000));
    assert_eq!(defaults.lp_max_iters, Some(5_000));
    assert_eq!(defaults.int_tol, Some(d(1e-6)));
    assert_eq!(defaults.max_subproblems, Some(256));
    assert_eq!(defaults.timeout_ms, Some(120_000));
    assert_eq!(defaults.lp_algorithm.as_deref(), Some("ipm"));
    let merged = SolveOptions::merged(None, &config);
    assert_eq!(merged.max_nodes, Some(17));
    let told = merged.to_ipmip_options(&config).unwrap();
    assert_eq!(told.max_cut_rounds, 256);
    assert_eq!(told.lp_algorithm, LpAlgorithm::InternalInteriorPoint);
    let twice = SolveOptions::merged(Some(merged.clone()), &config);
    assert_eq!(twice.max_nodes, merged.max_nodes);
    assert_eq!(twice.timeout_ms, merged.timeout_ms);
}

// Branching.

fn extend_named_constraint_metadata() {
    let problem = normalized_problem(
        MipProblemSpec {
            sense: "max".to_string(),
            c: ds(&[1.0]),
            a: vec![ds(&[1.0])],
            b: ds(&[1.5]),
            integer_vars: vec![true],
            ub: Some(ds(&[3.0])),
            var_names: Some(vec!["x0".to_string()]),
            con_names: Some(vec!["capacity".to_string()]),
        },
        LIMITS,
    )
    .unwrap();
    let extra = vec![BranchConstraint {
        coefs: ds(&[1.0]),
        rhs: d(1.0),
        name: "branch_d0_x0_le_1".to_string(),
    }];

    let ipmip = to_ipmip_problem(&problem, &extra, LIMITS).unwrap();
    let lp = to_lp_problem(&problem, &extra, LIMITS).unwrap();

    assert_eq!(
        ipmip.problem.con_names,
        Some(vec!["capacity".to_string(), "branch_d0_x0_le_1".to_string()])
    );
    assert_eq!(
        lp.con_names,
        Some(vec!["capacity".to_string(), "branch_d0_x0_le_1".to_string()])
    );
    assert_eq!(lp.a_ub, vec![ds(&[1.0]), ds(&[1.0])]);
    assert_eq!(lp.b_ub, ds(&[1.5, 1.0]));
    assert_eq!(lp.lb, vec![Some(d(0.0))]);
    assert_eq!(lp.ub, Some(vec![Some(d(3.0))]));
}

#[test]
fn main_branch_constraints_extend_named_constraint_metadata() {
    extend_named_constraint_metadata();
}

#[test]
fn tests_branch_constraints_extend_named_constraint_metadata() {
    extend_named_constraint_metadata();
}

fn are_validated_before_lp_and_mip_conversion() {
    let lp_problem = normalized_problem(pure_lp_problem(), LIMITS).unwrap();
    let bad_width = BranchConstraint {
        coefs: ds(&[1.0]),
        rhs: d(1.0),
        name: "bad_width".to_string(),
    };
    let err = to_lp_problem(&lp_problem, &vec![bad_width], LIMITS).unwrap_err();
    assert!(err.contains("bad_width has length 1, expected 2"));

    let mip_problem = normalized_problem(binary_knapsack_problem(), LIMITS).unwrap();
    let bad_coef = BranchConstraint {
        coefs: ds(&[1.0, f64::NAN, 0.0, 0.0]),
        rhs: d(1.0),
        name: "bad_coef".to_string(),
    };
    let err = to_ipmip_problem(&mip_problem, &vec![bad_coef], LIMITS).unwrap_err();
    assert!(err.contains("bad_coef contains a non-finite coefficient"));

    let bad_rhs = BranchConstraint {
        coefs: ds(&[1.0, 0.0, 0.0, 0.0]),
        rhs: d(f64::INFINITY),
        name: "bad_rhs".to_string(),
    };
    let err = bound_split(&mip_problem, &vec![bad_rhs], LIMITS).unwrap_err();
    assert!(err.contains("bad_rhs rhs must be finite"));
}

#[test]
fn main_branch_constraints_are_validated_before_lp_and_mip_conversion() {
    are_validated_before_lp_and_mip_conversion();
}

#[test]
fn tests_branch_constraints_are_validated_before_lp_and_mip_conversion() {
    are_validated_before_lp_and_mip_conversion();
}

#[test]
fn branches_are_accepted_by_the_model_they_part() {
    let problem = binary_knapsack_problem();
    let point = BranchPoint {
        var: 2,
        floor: d(0.0),
        negated_ceil: d(-1.0),
        value_text: "0.5".to_string(),
        floor_text: "0".to_string(),
        ceil_text: "1".to_string(),
    };
    let (left, right) = branch_constraints(&point, 4, 3);
    assert_eq!(left.name, "branch_d3_x2_le_0");
    assert_eq!(left.coefs, ds(&[0.0, 0.0, 1.0, 0.0]));
    assert_eq!(left.rhs, d(0.0));
    assert_eq!(right.name, "branch_d3_x2_ge_1");
    assert_eq!(right.coefs, ds(&[0.0, 0.0, -1.0, 0.0]));
    assert_eq!(right.rhs, d(-1.0));
    let extended = extend_problem(&problem, &vec![left, right], LIMITS).unwrap();
    assert_eq!(extended.a.len(), 3);
    assert_eq!(extended.b.len(), 3);
}

#[test]
fn senses_and_kinds_of_models() {
    assert_eq!(sense_of("MINIMIZE"), Sense::Min);
    assert_eq!(sense_of("max"), Sense::Max);
    assert_eq!(sense_of(""), Sense::Max);
    assert!(is_pure_lp(&pure_lp_problem(), LIMITS).unwrap());
    assert!(!is_pure_lp(&binary_knapsack_problem(), LIMITS).unwrap());
    assert_eq!(first_fractional(&vec![false, true, true], &vec![true, false, true]), Some(2));
    assert_eq!(first_fractional(&vec![false, true], &vec![true, false]), None);
}

// Bounds.

fn product(rows: &[Vec<Double>], x: &[Double]) -> Vec<f64> {
    rows.iter()
        .map(|row| {
            row.iter()
                .zip(x)
                .map(|(a, b)| f64::from_bits(a.bits) * f64::from_bits(b.bits))
                .sum()
        })
        .collect()
}

fn preprocess(problem: &MipProblemSpec) -> (Option<String>, AcceleratorReport) {
    let split = bound_split(problem, &vec![], LIMITS).unwrap();
    let report = match matvec_begin(&split.positive, split.finite_ub.len(), "off", false) {
        MatvecStep::Cpu(report) => matvec_cpu_done(report, false),
        other => panic!("unexpected step {other:?}"),
    };
    let greatest = ds(&product(&split.positive, &split.finite_ub));
    let least = ds(&product(&split.negative, &split.finite_ub));
    let slack: Vec<Double> =
        split.rhs.iter().map(|b| d(f64::from_bits(b.bits) + 1e-9)).collect();
    match bound_verdict(&split, &greatest, &least, &slack) {
        BoundVerdict::Infeasible { row, min_activity } => {
            let min = format!("{:.6}", f64::from_bits(min_activity.bits));
            let rhs = format!("{:.6}", f64::from_bits(split.rhs[row].bits));
            (Some(infeasible_reason(row, &min, &rhs)), report)
        }
        BoundVerdict::Open { always_satisfied } => {
            (None, note_satisfied_rows(report, always_satisfied))
        }
    }
}

fn prunes_rows_impossible_under_lower_bounds() {
    let problem = MipProblemSpec {
        sense: "max".to_string(),
        c: ds(&[1.0]),
        a: vec![ds(&[1.0])],
        b: ds(&[-1.0]),
        integer_vars: vec![false],
        ub: Some(ds(&[10.0])),
        var_names: None,
        con_names: None,
    };

    let (reason, report) = preprocess(&problem);

    assert!(reason
        .as_deref()
        .unwrap_or_default()
        .contains("bound preprocessing proved row 0 infeasible"));
    assert_eq!(report.backend, "in-house-cpu");
    assert!(!report.used_gpu);
}

#[test]
fn main_bound_preprocess_prunes_rows_impossible_under_lower_bounds() {
    prunes_rows_impossible_under_lower_bounds();
}

#[test]
fn tests_bound_preprocess_prunes_rows_impossible_under_lower_bounds() {
    prunes_rows_impossible_under_lower_bounds();
}

fn reports_rows_always_satisfied_by_bounds() {
    let problem = MipProblemSpec {
        sense: "max".to_string(),
        c: ds(&[1.0]),
        a: vec![ds(&[1.0])],
        b: ds(&[5.0]),
        integer_vars: vec![false],
        ub: Some(ds(&[3.0])),
        var_names: None,
        con_names: None,
    };

    let (reason, report) = preprocess(&problem);

    assert!(reason.is_none());
    assert!(report
        .notes
        .iter()
        .any(|note| note.contains("rows always satisfied by variable bounds")));
}

#[test]
fn main_bound_preprocess_reports_rows_always_satisfied_by_bounds() {
    reports_rows_always_satisfied_by_bounds();
}

#[test]
fn tests_bound_preprocess_reports_rows_always_satisfied_by_bounds() {
    reports_rows_always_satisfied_by_bounds();
}

#[test]
fn unbounded_variables_decide_no_row() {
    let problem = MipProblemSpec {
        c: ds(&[1.0, 1.0]),
        a: vec![ds(&[-1.0, 2.0])],
        b: ds(&[-5.0]),
        integer_vars: vec![],
        ub: None,
        ..binary_knapsack_problem()
    };
    let split = bound_split(&problem, &vec![], LIMITS).unwrap();
    assert_eq!(split.positive_infinite, vec![true]);
    assert_eq!(split.negative_infinite, vec![true]);
    assert_eq!(split.finite_ub, ds(&[0.0, 0.0]));
    let (reason, report) = preprocess(&problem);
    assert!(reason.is_none());
    assert!(report.notes.iter().all(|note| !note.contains("always satisfied")));
}

// Subproblems.

#[test]
fn subproblems_go_to_the_engine_that_fits() {
    let config = no_settings();
    let mip = test_job(binary_knapsack_problem());
    match task_after_preprocess(&mip, Ok(None), LIMITS, &config) {
        SubproblemTask::SolveMip(task) => assert_eq!(task.problem.sense, Sense::Max),
        other => panic!("unexpected task {other:?}"),
    }
    match task_after_preprocess(&test_job(pure_lp_problem()), Ok(None), LIMITS, &config) {
        SubproblemTask::SolveLp(task) => assert_eq!(task.algorithm, LpAlgorithm::InternalSimplex),
        other => panic!("unexpected task {other:?}"),
    }
    match task_after_preprocess(&mip, Ok(Some("row 0".to_string())), LIMITS, &config) {
        SubproblemTask::Prune(reason) => assert_eq!(reason, "row 0"),
        other => panic!("unexpected task {other:?}"),
    }
    match task_after_preprocess(&mip, Err("bad".to_string()), LIMITS, &config) {
        SubproblemTask::Fail(error) => assert_eq!(error, "bad"),
        other => panic!("unexpected task {other:?}"),
    }
    let task = lp_task(&pure_lp_problem(), &vec![], &SolveOptions::default(), LIMITS).unwrap();
    assert_eq!(task.lp.b_ub, ds(&[4.0, 2.0, 3.0]));
}

#[test]
fn fractional_subtrees_are_split_where_depth_allows() {
    let config = no_settings();
    let mut job = test_job(one_variable_problem());
    job.options.split_depth = Some(1);
    match task_after_preprocess(&job, Ok(None), LIMITS, &config) {
        SubproblemTask::Relax(_) => {}
        other => panic!("unexpected task {other:?}"),
    }
    match task_after_relaxation(&job, &optimal(Some(between_one_and_two())), 50, LIMITS, &config) {
        SubproblemTask::Split(children, reason) => {
            assert_eq!(children.len(), 2);
            assert_eq!(children[0].depth, 1);
            assert_eq!(children[0].extra_constraints[0].name, "branch_d0_x0_le_1");
            assert_eq!(children[1].extra_constraints[0].name, "branch_d0_x0_ge_2");
            assert_ne!(children[0].job_id, children[1].job_id);
            assert_ne!(children[0].job_uuid, children[1].job_uuid);
            assert!(reason.starts_with("subproblem job-test split at depth 0 on x0"));
            assert!(reason.contains("1.5"));
        }
        other => panic!("unexpected task {other:?}"),
    }
    match task_after_relaxation(&job, &optimal(None), 50, LIMITS, &config) {
        SubproblemTask::SolveMip(_) => {}
        other => panic!("unexpected task {other:?}"),
    }
    let (halves, _) = split_subproblem_children(
        &job,
        1,
        &between_one_and_two(),
        "left".to_string(),
        "right".to_string(),
        60,
    );
    assert_eq!(halves[0].job_uuid, "left");
    assert_eq!(halves[1].job_uuid, "right");
    assert_eq!(halves[0].submitted_at_ms, 60);
}

// Answers.

fn counts_infeasible_subtrees_as_complete() {
    let best = test_result("job-0", "optimal", Some(90.0), &[0.0, 1.0, 0.0, 1.0]);
    let mut pruned = test_result("job-1", "infeasible", None, &[]);
    pruned.error = Some("pruned".to_string());

    let response =
        aggregate_results(tally(2, 2, 0), vec![best, pruned], d(0.0), None, AcceleratorReport::default());

    assert!(response.ok);
    assert_eq!(response.status, "optimal");
    assert_eq!(response.jobs_completed, 2);
    assert_eq!(response.jobs_expected, 2);
    assert_eq!(response.jobs_redelegated, 0);
    assert_eq!(response.jobs_split, 0);
    assert_eq!(response.z, Some(d(90.0)));
}

#[test]
fn main_aggregate_results_counts_infeasible_subtrees_as_complete() {
    counts_infeasible_subtrees_as_complete();
}

#[test]
fn tests_aggregate_results_counts_infeasible_subtrees_as_complete() {
    counts_infeasible_subtrees_as_complete();
}

fn treats_redelegated_attempt_as_complete() {
    let retry = test_result("job-0-retry-1", "optimal", Some(90.0), &[0.0, 1.0, 0.0, 1.0]);

    let response =
        aggregate_results(tally(1, 2, 1), vec![retry], d(0.0), None, AcceleratorReport::default());

    assert!(response.ok);
    assert_eq!(response.status, "optimal");
    assert_eq!(response.jobs_expected, 1);
    assert_eq!(response.jobs_published, 2);
    assert_eq!(response.jobs_completed, 1);
    assert_eq!(response.jobs_redelegated, 1);
    assert_eq!(response.jobs_split, 0);
    assert_eq!(response.z, Some(d(90.0)));
}

#[test]
fn main_aggregate_results_treats_redelegated_attempt_as_complete() {
    treats_redelegated_attempt_as_complete();
}

#[test]
fn tests_aggregate_results_treats_redelegated_attempt_as_complete() {
    treats_redelegated_attempt_as_complete();
}

fn reports_unavailable_without_feature() {
    let best = test_result("job-verify", "optimal", Some(90.0), &[0.0, 1.0, 0.0, 1.0]);
    let options = SolveOptions {
        verify_external: Some(true),
        external_verification_method: Some("highs".to_string()),
        ..SolveOptions::default()
    };
    let check = external_verification_report(&options);

    let response =
        aggregate_results(tally(1, 1, 0), vec![best], d(0.0), check, AcceleratorReport::default());

    let verification = response.external_verification.expect("verification report");
    assert_eq!(verification.status, "unavailable");
    assert!(!verification.enabled);
    assert!(response
        .warnings
        .iter()
        .any(|warning| warning.contains("feature is not enabled")));
}

#[test]
fn main_external_verification_request_reports_unavailable_without_feature() {
    reports_unavailable_without_feature();
}

#[test]
fn tests_external_verification_request_reports_unavailable_without_feature() {
    reports_unavailable_without_feature();
}

#[test]
fn the_best_result_and_the_weakest_bound_are_told() {
    let mut a = test_result("job-0", "optimal", Some(5.0), &[1.0]);
    a.best_bound = Some(d(9.0));
    let b = test_result("job-1", "optimal", Some(7.0), &[2.0]);
    let results = vec![a, b];
    assert_eq!(incumbent(&results, true), Some(1));
    assert_eq!(incumbent(&results, false), Some(0));
    assert_eq!(overall_bound(&results, true), Some(d(9.0)));
    assert_eq!(overall_bound(&results, false), Some(d(7.0)));
    assert_eq!(solve_status(&results, true, 2, false), "optimal");
    assert_eq!(solve_status(&results, true, 3, false), "feasible-partial");
    assert_eq!(incumbent(&vec![], true), None);
    assert_eq!(overall_bound(&vec![], true), None);
}

#[test]
fn timed_out_solves_decide_nothing() {
    let mut late = tally(2, 2, 0);
    late.timed_out = true;
    let response = aggregate_results(late, vec![], d(0.0), None, AcceleratorReport::default());
    assert!(!response.ok);
    assert_ne!(response.status, "optimal");
    assert_ne!(response.status, "infeasible");
    assert!(response
        .warnings
        .contains(&"solve timed out before every subproblem result returned".to_string()));
    let pruned = test_result("job-0", "infeasible", None, &[]);
    let none = aggregate_results(tally(1, 1, 0), vec![pruned], d(0.0), None, AcceleratorReport::default());
    assert!(none.ok);
    assert_eq!(none.status, "infeasible");
    assert_eq!(none.z, None);
}

// Second opinions.

#[test]
fn checks_are_run_only_on_request_and_on_optima() {
    let asked = SolveOptions { verify_external: Some(true), ..SolveOptions::default() };
    assert!(!external_verification_requested(&SolveOptions::default()));
    assert!(external_verification_report(&SolveOptions::default()).is_none());
    assert!(matches!(
        begin_check(&SolveOptions::default(), "optimal", true, true, d(0.0)),
        CheckStep::Skip
    ));
    match begin_check(&asked, "optimal", true, true, d(0.0)) {
        CheckStep::Run { method, tolerance } => {
            assert_eq!(method, "highs");
            assert_eq!(tolerance, d(1e-6));
        }
        other => panic!("unexpected step {other:?}"),
    }
    match begin_check(&asked, "feasible", true, true, d(2.0)) {
        CheckStep::Report(report) => {
            assert_eq!(report.status, "skipped");
            assert!(report.enabled);
            assert_eq!(report.elapsed_ms, d(2.0));
        }
        other => panic!("unexpected step {other:?}"),
    }
    let negative = SolveOptions {
        external_verification_tolerance: Some(d(-1.0)),
        ..SolveOptions::default()
    };
    assert_eq!(external_verification_tolerance(&negative), d(1e-6));
    assert_eq!(external_verification_method(&asked), "highs");
}

#[test]
fn objectives_are_compared_within_the_tolerance() {
    assert_eq!(compare_objectives(true, Some(d(1e-7)), d(1e-6)), "verified");
    assert_eq!(compare_objectives(true, Some(d(1e-6)), d(1e-6)), "verified");
    assert_eq!(compare_objectives(true, Some(d(2e-6)), d(1e-6)), "mismatch");
    assert_eq!(compare_objectives(true, Some(d(f64::NAN)), d(1e-6)), "mismatch");
    assert_eq!(compare_objectives(true, None, d(1e-6)), "mismatch");
    assert_eq!(compare_objectives(false, Some(d(0.0)), d(1e-6)), "unverified");
    let options = SolveOptions { verify_external: Some(true), ..SolveOptions::default() };
    let (mut report, warning) = failed_check(&options, d(1.0), "no solver".to_string());
    assert_eq!(warning, "external solver verification failed: no solver");
    assert_eq!(report.status, "error");
    let numbers = MismatchTexts {
        solver_objective: "1".to_string(),
        own_objective: "2".to_string(),
        delta: "1".to_string(),
        tolerance: "0.5".to_string(),
    };
    report.status = "verified".to_string();
    assert_eq!(verification_warning(&report, &numbers), None);
    report.status = "mismatch".to_string();
    assert_eq!(
        verification_warning(&report, &numbers).unwrap(),
        "external solver verification mismatch: solver objective 1, in-house objective 2, delta 1, tolerance 0.5"
    );
    let (panicked, _) = panicked_check(&options, d(1.0));
    assert_ne!(panicked.status, "verified");
    assert_eq!(external_sense("MIN"), Sense::Min);
    assert_eq!(external_lp_method(" external-highs-ds"), "highs-ds");
    assert_eq!(external_lp_method("highs"), "highs");
    assert_eq!(external_des_ipmip_algorithm("HIGHS_DS"), ExternalAlgorithm::HighsDs);
    assert_eq!(external_des_ipmip_algorithm("highs-ipm"), ExternalAlgorithm::HighsIpm);
    assert_eq!(external_des_ipmip_algorithm("highs"), ExternalAlgorithm::Highs);
}

// Accelerators.

#[test]
fn accelerators_follow_the_mode() {
    assert!(gpu_disabled("off"));
    assert!(gpu_required("required"));
    assert_eq!(gpu_mode(&no_settings()), "auto");
    let config = settings(&[("MIP_SOLVER_GPU_MODE", "off")]);
    assert_eq!(gpu_mode(&config), "off");
    assert!(gpu_available(&config, true));
    assert!(!gpu_available(&config, false));
    assert!(gpu_available(&settings(&[("NVIDIA_VISIBLE_DEVICES", "all")]), false));
    assert!(!gpu_available(&settings(&[("NVIDIA_VISIBLE_DEVICES", "void")]), false));
    let status = gpu_status(&no_settings(), true);
    assert!(status.available);
    assert!(!status.used);

    let rows = vec![ds(&[1.0])];
    match matvec_begin(&rows, 1, "auto", true) {
        MatvecStep::Gpu(report) => match matvec_gpu_failed(report, "lost".to_string()) {
            MatvecStep::Cpu(report) => {
                assert!(report.notes.iter().any(|note| note.contains("lost")));
                let report = matvec_cpu_done(report, true);
                assert!(report.used_cpu_parallel);
                assert!(!report.used_gpu);
            }
            other => panic!("unexpected step {other:?}"),
        },
        other => panic!("unexpected step {other:?}"),
    }
    match matvec_begin(&rows, 1, "required", false) {
        MatvecStep::Refuse(error) => assert!(!error.is_empty()),
        other => panic!("unexpected step {other:?}"),
    }
    match matvec_begin(&rows, 1, "required", true) {
        MatvecStep::Gpu(report) => {
            let done = matvec_gpu_done(report);
            assert!(done.used_gpu);
            assert!(gpu_status_from_report(&done).used);
        }
        other => panic!("unexpected step {other:?}"),
    }
    assert!(matches!(matvec_begin(&vec![], 1, "auto", true), MatvecStep::Empty(_)));
}

#[test]
fn solves_report_the_devices_of_their_parts() {
    let mut result = test_result("job-0", "optimal", Some(1.0), &[1.0]);
    result.accelerator = AcceleratorReport {
        mode: "auto".to_string(),
        backend: "cuda".to_string(),
        gpu_available: true,
        used_gpu: true,
        used_cpu_parallel: false,
        notes: vec!["note".to_string()],
    };
    let status = aggregate_gpu_status(AcceleratorReport::for_mode("auto", false), &vec![result]);
    assert_eq!(status.backend, "cuda");
    assert!(status.used);
    assert!(status.available);
    let mut report = AcceleratorReport::runtime(&no_settings(), false);
    let other = AcceleratorReport { used_cpu_parallel: true, ..AcceleratorReport::default() };
    report.merge(&other);
    assert!(report.used_cpu_parallel);
}
