//! What masters and workers know of each other.

use mip_solver_node::accelerator::AcceleratorReport;
use mip_solver_node::aggregate::{lp_totals, no_job_totals};
use mip_solver_node::cancel::{
    cancelled_solve_response, cleanup_finished_solve, newest_matching_solve_id,
    request_solve_cancel, resolve_solve_id, solve_cancel_info, solve_cancel_info_for,
    solve_cancel_requested, solve_cancel_requested_for, terminal_solve_status,
    track_solve_cancelled, CancelInfo, SolveMatch,
};
use mip_solver_node::config::{NodeRole, RuntimeConfig, Setting};
use mip_solver_node::document::Document;
use mip_solver_node::events::{
    cancel_event_payload, cancel_payload, finish_record, frontier_built_payload,
    redelegated_payload, requeued_payload, result_record, solve_cancelled_payload,
    solve_finished_payload, split_payload, start_record, submission_record,
};
use mip_solver_node::id_set::IdSet;
use mip_solver_node::ids::new_uuid_string;
use mip_solver_node::job_tracking::{
    elapsed_ms, jobs_expected_after_split, stale_worker_jobs, track_job_redelegated,
    track_job_result, track_job_split, track_job_stale_requeued, track_job_submitted,
    StaleWorkerJob,
};
use mip_solver_node::jobs::{SubproblemJob, SubproblemResult};
use mip_solver_node::json::{Json, JsonNumber};
use mip_solver_node::local_run::{LocalRun, LocalStep};
use mip_solver_node::master::{
    max_retries, timeout_ms, wait_is_over, wait_time, ResultPlan, SolveRun, StaleStep, Taken,
};
use mip_solver_node::model::{normalized_problem, Limits, MipProblemSpec};
use mip_solver_node::model_store::{
    cached_problem_model, ensure_local_problem_model, hydrate_subproblem_job, hydrated,
    model_loaded, models_are_same, problem_model_from_value, remember_problem_model,
    store_after_load, store_after_put, store_after_reload, store_problem_model, Hydration,
    ProblemStoreStatus, StoreStep,
};
use mip_solver_node::moves::{look, next_to_send, Move};
use mip_solver_node::number::Double;
use mip_solver_node::options::SolveOptions;
use mip_solver_node::registry::{new_job_entry, track_solve_started, SolveRegistryEntry};
use mip_solver_node::replies::is_problem_model_conflict;
use mip_solver_node::response::{track_solve_finished, SolveResponse};
use mip_solver_node::service::SERVICE_NAME;
use mip_solver_node::status::control_document;
use mip_solver_node::table::Table;
use mip_solver_node::tasks::{
    prune_runtime_tasks, runtime_task_entries, runtime_task_lookup, track_runtime_task_abort_handle,
    track_runtime_task_finished, track_runtime_task_finished_if_open, track_runtime_task_solve,
    track_runtime_task_started, RuntimeTaskEntry, TaskSubject,
};
use mip_solver_node::worker_loop::{
    command_for, completed_payload, delivery_refusal, discarded_payload, given_up_payload, refuse,
    reply_for, task_status, worker_act, worker_job_payload, worker_ready_payload, worker_settings,
    Refusal, Reply, WorkerAct, WorkerEvent, LEFT_JOB_SECONDS,
};
use mip_solver_node::workers::{
    current_worker_snapshot, record_cancel_control_frame, record_worker_control_frame,
    retain_current_workers, take_control_frame, ControlOutcome, WorkerNodeStatus,
};
use serde_json::Value;

const LIMITS: Limits = Limits { max_vars: 10_000, max_constraints: 50_000 };

fn d(x: f64) -> Double {
    Double { bits: x.to_bits() }
}

fn ds(v: &[f64]) -> Vec<Double> {
    v.iter().map(|x| d(*x)).collect()
}

fn to_json(v: &Value) -> Json {
    match v {
        Value::Null => Json::Null,
        Value::Bool(b) => Json::Bool(*b),
        Value::Number(n) => Json::Number(JsonNumber {
            unsigned: n.as_u64(),
            value: d(n.as_f64().unwrap()),
        }),
        Value::String(s) => Json::Text(s.clone()),
        Value::Array(items) => Json::Array(items.iter().map(to_json).collect()),
        Value::Object(fields) => {
            Json::Object(fields.iter().map(|(k, v)| (k.clone(), to_json(v))).collect())
        }
    }
}

fn json(text: &str) -> Json {
    to_json(&serde_json::from_str(text).unwrap())
}

fn value(document: &Document) -> Value {
    match document {
        Document::Null => Value::Null,
        Document::Flag(b) => Value::Bool(*b),
        Document::Count(n) => Value::from(u64::try_from(*n).unwrap()),
        Document::Number(x) => Value::from(f64::from_bits(x.bits)),
        Document::Text(s) => Value::String(s.clone()),
        Document::List(items) => Value::Array(items.iter().map(value).collect()),
        Document::Object(fields) => {
            Value::Object(fields.iter().map(|(k, v)| (k.clone(), value(v))).collect())
        }
    }
}

fn no_settings() -> RuntimeConfig {
    RuntimeConfig { settings: vec![] }
}

fn setting(key: &str, number: u64) -> RuntimeConfig {
    RuntimeConfig {
        settings: vec![Setting {
            key: key.to_string(),
            text: number.to_string(),
            unsigned: Some(number),
            flag: None,
            number: Some(d(number as f64)),
        }],
    }
}

fn frame(role: &str, node: &str, command: &str, payload: &str, time: u64) -> Json {
    json(&format!(
        "{{\"schema\":\"dd.mip-solver.control.v1\",\"service\":\"{SERVICE_NAME}\",\"nodeId\":\"{node}\",\"role\":\"{role}\",\"commandName\":\"{command}\",\"payload\":{payload},\"timeMs\":{time}}}"
    ))
}

fn binary_knapsack_problem() -> MipProblemSpec {
    MipProblemSpec {
        sense: "max".to_string(),
        c: ds(&[10.0, 40.0, 30.0, 50.0]),
        a: vec![ds(&[5.0, 4.0, 6.0, 3.0])],
        b: ds(&[10.0]),
        integer_vars: vec![true, true, true, true],
        ub: Some(ds(&[1.0, 1.0, 1.0, 1.0])),
        var_names: None,
        con_names: None,
    }
}

fn test_job(id: &str) -> SubproblemJob {
    SubproblemJob {
        solve_id: "solve-test".to_string(),
        request_id: "request-test".to_string(),
        job_id: id.to_string(),
        job_uuid: new_uuid_string(),
        problem_id: Some("33333333-3333-4333-8333-333333333333".to_string()),
        problem_stored: false,
        revision: 0,
        depth: 0,
        master_node: "master-test".to_string(),
        problem: Some(binary_knapsack_problem()),
        extra_constraints: Vec::new(),
        avoid_worker_nodes: Vec::new(),
        options: SolveOptions { split_depth: Some(0), ..SolveOptions::default() },
        submitted_at_ms: 1_000,
    }
}

fn test_result(job_id: &str, status: &str) -> SubproblemResult {
    SubproblemResult {
        solve_id: "solve-test".to_string(),
        request_id: "request-test".to_string(),
        job_id: job_id.to_string(),
        job_uuid: new_uuid_string(),
        problem_id: Some("11111111-1111-4111-8111-111111111111".to_string()),
        revision: 0,
        worker_node: "worker-a".to_string(),
        ok: status == "optimal",
        status: status.to_string(),
        z: None,
        x: vec![],
        best_bound: None,
        gap: None,
        lp: None,
        child_jobs: Vec::new(),
        nodes_explored: 1,
        lp_solves: 1,
        elapsed_ms: d(1.0),
        accelerator: AcceleratorReport::default(),
        error: None,
        finished_at_ms: 2_000,
    }
}

fn solve(id: &str, request: &str, problem: Option<&str>, status: &str, started: u128) -> SolveRegistryEntry {
    SolveRegistryEntry {
        solve_id: id.to_string(),
        request_id: request.to_string(),
        problem_id: problem.map(|p| p.to_string()),
        revision: 0,
        status: status.to_string(),
        jobs_expected: 1,
        jobs_published: 0,
        jobs_completed: 0,
        jobs_redelegated: 0,
        jobs_split: 0,
        timed_out: false,
        distributed: false,
        started_at_ms: started,
        updated_at_ms: started,
        finished_at_ms: None,
        cancel_requested: false,
        cancel_requested_at_ms: None,
        cancel_reason: None,
        warnings: vec![],
        jobs: Table::new(),
    }
}

fn one_solve(entry: SolveRegistryEntry) -> Table<SolveRegistryEntry> {
    let mut solves = Table::new();
    solves.insert(entry.solve_id.clone(), entry);
    solves
}

// Control frames.

fn worker_frames_update_master_registry() {
    let mut workers: Table<WorkerNodeStatus> = Table::new();
    let mut solves: Table<SolveRegistryEntry> = Table::new();
    for f in [
        frame(
            "slave",
            "worker-a",
            "worker-ready",
            r#"{"consumer":"dd-in-house-mip-solver-node-workers","jobsSubject":"dd.remote.mip_solver.jobs","resultsSubject":"dd.remote.mip_solver.results"}"#,
            1000,
        ),
        frame(
            "slave",
            "worker-a",
            "request-work",
            r#"{"consumer":"dd-in-house-mip-solver-node-workers"}"#,
            1100,
        ),
        frame(
            "slave",
            "worker-a",
            "worker-completed",
            r#"{"consumer":"dd-in-house-mip-solver-node-workers","jobId":"solve-test-0","solveId":"solve-test","status":"optimal","resultsSubject":"dd.remote.mip_solver.results"}"#,
            1200,
        ),
    ] {
        record_worker_control_frame(&mut workers, &mut solves, &f, 5_000, &no_settings()).unwrap();
    }

    let worker = workers.get("worker-a").expect("worker-a");
    assert_eq!(worker.ready_at_ms, Some(1000));
    assert_eq!(worker.last_seen_ms, 1200);
    assert_eq!(worker.request_count, 1);
    assert_eq!(worker.completed_count, 1);
    assert_eq!(worker.last_command, "worker-completed");
    assert_eq!(worker.last_job_id.as_deref(), Some("solve-test-0"));
    assert_eq!(worker.last_solve_id.as_deref(), Some("solve-test"));
    assert_eq!(worker.last_status.as_deref(), Some("optimal"));
}

#[test]
fn main_worker_control_frames_update_master_registry() {
    worker_frames_update_master_registry();
}

#[test]
fn tests_worker_control_frames_update_master_registry() {
    worker_frames_update_master_registry();
}

fn progress_updates_active_job_and_stale_detection() {
    let mut workers: Table<WorkerNodeStatus> = Table::new();
    let mut solves: Table<SolveRegistryEntry> = Table::new();
    let job = test_job("job-test");
    let problem_id = job.problem_id.clone().unwrap();
    track_solve_started(
        &mut solves,
        &job.solve_id,
        &job.request_id,
        &problem_id,
        job.revision,
        1,
        true,
        900,
    )
    .unwrap();
    track_job_submitted(&mut solves, &job, 950);

    let payload = format!(
        "{{\"consumer\":\"dd-in-house-mip-solver-node-workers\",\"jobId\":\"{}\",\"jobUuid\":\"{}\",\"solveId\":\"{}\",\"problemId\":\"{}\",\"startedAtMs\":1000}}",
        job.job_id, job.job_uuid, job.solve_id, problem_id
    );
    for (command, time) in [("request-work", 1000), ("worker-progress", 26_000)] {
        record_worker_control_frame(
            &mut workers,
            &mut solves,
            &frame("slave", "worker-progress-a", command, &payload, time),
            time.into(),
            &no_settings(),
        )
        .unwrap();
    }

    let worker = workers.get("worker-progress-a").expect("worker");
    assert_eq!(worker.request_count, 1);
    assert_eq!(worker.last_job_id.as_deref(), Some(job.job_id.as_str()));
    assert_eq!(worker.last_solve_id.as_deref(), Some(job.solve_id.as_str()));
    assert_eq!(worker.last_status.as_deref(), Some("running"));
    assert!(worker.active_jobs.contains_key(&job.job_uuid));

    let found = solves
        .get(&job.solve_id)
        .and_then(|solve| solve.jobs.get(&job.job_id))
        .expect("found job");
    assert_eq!(found.status, "running");
    assert_eq!(found.worker_node.as_deref(), Some("worker-progress-a"));
    assert_eq!(found.last_heartbeat_ms, Some(26_000));

    let mut active = IdSet::new();
    active.insert(job.job_id.clone());
    let completed = IdSet::new();
    assert!(stale_worker_jobs(&solves, &job.solve_id, &active, &completed, 100_000, 126_000).is_empty());
    let stale = stale_worker_jobs(&solves, &job.solve_id, &active, &completed, 100_000, 126_002);
    assert_eq!(stale.len(), 1);
    assert_eq!(stale[0].job_id, job.job_id);
    assert_eq!(stale[0].job_uuid.as_deref(), Some(job.job_uuid.as_str()));
    assert_eq!(stale[0].worker_node, "worker-progress-a");
}

#[test]
fn main_worker_progress_updates_active_job_and_stale_detection() {
    progress_updates_active_job_and_stale_detection();
}

#[test]
fn tests_worker_progress_updates_active_job_and_stale_detection() {
    progress_updates_active_job_and_stale_detection();
}

#[test]
fn broken_and_foreign_frames_change_nothing() {
    let mut workers: Table<WorkerNodeStatus> = Table::new();
    let mut solves: Table<SolveRegistryEntry> = Table::new();
    let config = no_settings();
    let foreign = json(r#"{"service":"another","nodeId":"n","commandName":"worker-ready"}"#);
    record_worker_control_frame(&mut workers, &mut solves, &foreign, 1, &config).unwrap();
    assert_eq!(workers.len(), 0);
    let nameless = json(&format!("{{\"service\":\"{SERVICE_NAME}\",\"commandName\":\"worker-ready\"}}"));
    assert_eq!(
        record_worker_control_frame(&mut workers, &mut solves, &nameless, 1, &config).unwrap_err(),
        "control frame missing nodeId"
    );
    let speechless = json(&format!("{{\"service\":\"{SERVICE_NAME}\",\"nodeId\":\"n\"}}"));
    assert_eq!(
        record_worker_control_frame(&mut workers, &mut solves, &speechless, 1, &config).unwrap_err(),
        "control frame missing commandName"
    );
    assert_eq!(workers.len(), 0);
}

#[test]
fn a_frame_changes_one_job_of_its_worker() {
    let mut workers: Table<WorkerNodeStatus> = Table::new();
    let mut solves: Table<SolveRegistryEntry> = Table::new();
    let config = no_settings();
    for (command, job, time) in [
        ("request-work", "a", 10),
        ("request-work", "b", 20),
        ("worker-completed", "a", 30),
        ("worker-stopped-cancelled", "b", 40),
    ] {
        let payload = format!("{{\"jobId\":\"{job}\",\"solveId\":\"s\",\"status\":\"optimal\"}}");
        let f = frame("slave", "w", command, &payload, time);
        record_worker_control_frame(&mut workers, &mut solves, &f, 50, &config).unwrap();
        let jobs = &workers.get("w").unwrap().active_jobs;
        match time {
            10 => assert!(jobs.contains_key("a") && !jobs.contains_key("b")),
            20 => assert!(jobs.contains_key("a") && jobs.contains_key("b")),
            30 => assert!(!jobs.contains_key("a") && jobs.contains_key("b")),
            _ => assert_eq!(jobs.len(), 0),
        }
    }
    assert_eq!(workers.get("w").unwrap().last_status.as_deref(), Some("cancelled"));
}

#[test]
fn worker_rotation_prunes_stale_registry_entries() {
    let mut workers: Table<WorkerNodeStatus> = Table::new();
    let mut solves: Table<SolveRegistryEntry> = Table::new();
    let config = setting("MIP_SOLVER_WORKER_STALE_SECONDS", 1);
    for (node, time) in [("old", 1_000), ("new", 2_500)] {
        let f = frame("slave", node, "worker-ready", "{}", time);
        record_worker_control_frame(&mut workers, &mut solves, &f, time.into(), &config).unwrap();
    }
    let listed = current_worker_snapshot(&mut workers, 2_600, &config);
    assert_eq!(listed.len(), 1);
    assert_eq!(listed[0].node_id, "new");
    retain_current_workers(&mut workers, 9_000, &config);
    assert_eq!(workers.len(), 0);
}

// Cancelling.

fn cancel_frames_update_local_cancel_map_without_solve_registry() {
    let mut solves: Table<SolveRegistryEntry> = Table::new();
    let mut cancels: Table<CancelInfo> = Table::new();

    let handled = record_cancel_control_frame(
        &mut solves,
        &mut cancels,
        &frame(
            "master",
            "master-a",
            "cancel-solve",
            r#"{"solveId":"solve-cancel-broadcast","requestId":"request-cancel-broadcast","reason":"client cancelled","requestedBy":"master-a","requestedAtMs":3000}"#,
            3001,
        ),
        9_000,
    )
    .unwrap();

    assert!(handled);
    let info = solve_cancel_info(&cancels, "solve-cancel-broadcast").unwrap();
    assert_eq!(info.request_id.as_deref(), Some("request-cancel-broadcast"));
    assert_eq!(info.reason, "client cancelled");
    assert_eq!(info.requested_at_ms, 3000);
}

#[test]
fn main_cancel_control_frames_update_local_cancel_map_without_solve_registry() {
    cancel_frames_update_local_cancel_map_without_solve_registry();
}

#[test]
fn tests_cancel_control_frames_update_local_cancel_map_without_solve_registry() {
    cancel_frames_update_local_cancel_map_without_solve_registry();
}

fn cancel_frame_resolves_problem_id_to_running_solve() {
    let problem_id = "99999999-9999-4999-8999-999999999999";
    let mut solves = one_solve(solve(
        "solve-problem-cancel",
        "request-problem-cancel",
        Some(problem_id),
        "running",
        1000,
    ));
    let mut cancels: Table<CancelInfo> = Table::new();

    let handled = record_cancel_control_frame(
        &mut solves,
        &mut cancels,
        &frame(
            "master",
            "master-a",
            "cancel-solve",
            &format!("{{\"problemId\":\"{problem_id}\",\"reason\":\"nats problem cancel\",\"requestedBy\":\"master-a\",\"requestedAtMs\":4000}}"),
            4001,
        ),
        9_000,
    )
    .unwrap();

    assert!(handled);
    let info = solve_cancel_info(&cancels, "solve-problem-cancel").unwrap();
    assert_eq!(info.request_id.as_deref(), Some("request-problem-cancel"));
    assert_eq!(info.problem_id.as_deref(), Some(problem_id));
    assert_eq!(info.reason, "nats problem cancel");
    let solve = solves.get("solve-problem-cancel").unwrap();
    assert_eq!(solve.status, "cancelling");
    assert!(solve.cancel_requested);
}

#[test]
fn main_cancel_control_frame_resolves_problem_id_to_running_solve() {
    cancel_frame_resolves_problem_id_to_running_solve();
}

#[test]
fn tests_cancel_control_frame_resolves_problem_id_to_running_solve() {
    cancel_frame_resolves_problem_id_to_running_solve();
}

fn cancel_frame_records_problem_id_for_workers_without_registry() {
    let problem_id = "abababab-abab-4bab-8bab-abababababab";
    let mut solves: Table<SolveRegistryEntry> = Table::new();
    let mut cancels: Table<CancelInfo> = Table::new();

    let handled = record_cancel_control_frame(
        &mut solves,
        &mut cancels,
        &frame(
            "master",
            "master-a",
            "cancel-solve",
            &format!("{{\"problemId\":\"{problem_id}\",\"reason\":\"nats problem cancel\",\"requestedBy\":\"master-a\",\"requestedAtMs\":5000}}"),
            5001,
        ),
        9_000,
    )
    .unwrap();

    assert!(handled);
    let info = solve_cancel_info(&cancels, problem_id).unwrap();
    assert_eq!(info.problem_id.as_deref(), Some(problem_id));
    assert_eq!(info.reason, "nats problem cancel");
    assert!(solve_cancel_requested_for(&cancels, "solve-worker-local", Some(problem_id)));
}

#[test]
fn main_cancel_control_frame_records_problem_id_for_workers_without_registry() {
    cancel_frame_records_problem_id_for_workers_without_registry();
}

#[test]
fn tests_cancel_control_frame_records_problem_id_for_workers_without_registry() {
    cancel_frame_records_problem_id_for_workers_without_registry();
}

#[test]
fn broken_cancel_frames_are_named() {
    let mut solves: Table<SolveRegistryEntry> = Table::new();
    let mut cancels: Table<CancelInfo> = Table::new();
    for (payload, expected) in [
        ("{}", "cancel frame missing solveId, problemId, or requestId"),
        (r#"{"problemId":"no-uuid"}"#, "cancel frame problemId must be a UUID"),
        (r#"{"requestId":"unknown"}"#, "cancel frame target not found: unknown"),
    ] {
        let f = frame("master", "m", "cancel-solve", payload, 1);
        assert_eq!(
            record_cancel_control_frame(&mut solves, &mut cancels, &f, 2).unwrap_err(),
            expected
        );
    }
    let other = frame("slave", "w", "worker-ready", "{}", 1);
    assert_eq!(record_cancel_control_frame(&mut solves, &mut cancels, &other, 2), Ok(false));
    assert_eq!(cancels.len(), 0);

    let mut workers: Table<WorkerNodeStatus> = Table::new();
    let config = no_settings();
    assert!(matches!(
        take_control_frame(&mut workers, &mut solves, &mut cancels, &other, 2, &config),
        ControlOutcome::Noted
    ));
    let broken = frame("master", "m", "cancel-solve", "{}", 1);
    assert!(matches!(
        take_control_frame(&mut workers, &mut solves, &mut cancels, &broken, 2, &config),
        ControlOutcome::BadCancel(_)
    ));
    let whole = frame("master", "m", "cancel-solve", r#"{"solveId":"s"}"#, 1);
    assert!(matches!(
        take_control_frame(&mut workers, &mut solves, &mut cancels, &whole, 2, &config),
        ControlOutcome::Cancelled
    ));
    let info = solve_cancel_info_for(&cancels, "s", None).unwrap();
    assert_eq!(info.reason, "cancel requested");
    assert_eq!(info.requested_by, "m");
}

#[test]
fn solves_are_named_by_id_request_or_problem() {
    let problem = "99999999-9999-4999-8999-999999999999";
    let mut solves = one_solve(solve("a", "r", Some(problem), "running", 10));
    solves.insert("b".to_string(), solve("b", "r", Some(problem), "running", 20));
    assert_eq!(resolve_solve_id(&solves, "a").as_deref(), Some("a"));
    assert_eq!(resolve_solve_id(&solves, "r").as_deref(), Some("b"));
    assert_eq!(resolve_solve_id(&solves, &problem.to_uppercase()).as_deref(), Some("b"));
    assert_eq!(resolve_solve_id(&solves, "nothing"), None);
    assert_eq!(
        newest_matching_solve_id(&solves, &SolveMatch::Request("r".to_string())).as_deref(),
        Some("b")
    );
}

#[test]
fn the_first_cancellation_stays() {
    let mut solves = one_solve(solve("s", "r", None, "running", 10));
    let mut cancels: Table<CancelInfo> = Table::new();
    let first = request_solve_cancel(
        &mut solves,
        &mut cancels,
        "r",
        "first".to_string(),
        "me".to_string(),
        50,
    )
    .unwrap();
    assert_eq!(first.solve_id, "s");
    let second = request_solve_cancel(
        &mut solves,
        &mut cancels,
        "s",
        "second".to_string(),
        "you".to_string(),
        60,
    )
    .unwrap();
    assert_eq!(second.reason, "second");
    let entry = solves.get("s").unwrap();
    assert_eq!(entry.cancel_reason.as_deref(), Some("first"));
    assert_eq!(entry.cancel_requested_at_ms, Some(50));
    assert_eq!(entry.updated_at_ms, 60);
    assert!(solve_cancel_requested(&cancels, "s"));
    assert_eq!(solves.get("s").unwrap().status, "cancelling");
    assert_eq!(
        request_solve_cancel(&mut solves, &mut cancels, "x", String::new(), String::new(), 1)
            .unwrap_err(),
        "solve or request id not found: x"
    );
    let mut done = one_solve(solve("s", "r", None, "optimal", 10));
    assert_eq!(
        request_solve_cancel(&mut done, &mut cancels, "s", String::new(), String::new(), 1)
            .unwrap_err(),
        "solve s is already terminal with status optimal"
    );
    assert!(terminal_solve_status("cancelled"));
    assert!(!terminal_solve_status("cancelling"));
}

#[test]
fn an_accepted_cancellation_is_seen_for_its_solve_alone() {
    let mut solves = one_solve(solve("s", "r", None, "running", 10));
    let mut cancels: Table<CancelInfo> = Table::new();
    assert!(!solve_cancel_requested(&cancels, "s"));
    let asked = request_solve_cancel(
        &mut solves,
        &mut cancels,
        "s",
        "enough".to_string(),
        "me".to_string(),
        50,
    )
    .unwrap();
    let seen = solve_cancel_info(&cancels, "s").unwrap();
    assert_eq!(seen.reason, "enough");
    assert_eq!(seen.requested_at_ms, asked.requested_at_ms);
    assert!(solve_cancel_info(&cancels, "t").is_none());
}

#[test]
fn cancellation_closes_every_job() {
    let mut entry = solve("s", "r", None, "running", 10);
    entry.jobs.insert("s-0".to_string(), new_job_entry("s-0"));
    let mut finished = new_job_entry("s-1");
    finished.status = "optimal".to_string();
    finished.finished_at_ms = Some(15);
    entry.jobs.insert("s-1".to_string(), finished);
    let mut solves = one_solve(entry);
    let closed = track_solve_cancelled(&mut solves, "s", "why", 99).unwrap();
    assert_eq!(closed.status, "cancelled");
    assert_eq!(closed.finished_at_ms, Some(99));
    assert_eq!(closed.jobs.get("s-0").unwrap().status, "cancelled");
    assert_eq!(closed.jobs.get("s-0").unwrap().finished_at_ms, Some(99));
    assert_eq!(closed.jobs.get("s-1").unwrap().status, "optimal");
    assert!(track_solve_cancelled(&mut solves, "x", "why", 99).is_none());

    let response = cancelled_solve_response(
        &mut solves,
        "s".to_string(),
        "r".to_string(),
        None,
        3,
        true,
        vec![],
        "why".to_string(),
        "node",
        NodeRole::Master,
        &AcceleratorReport::default(),
        100,
    );
    assert!(!response.ok);
    assert_eq!(response.status, "cancelled");
    assert_eq!(response.warnings, vec!["solve cancelled: why".to_string()]);
    assert_eq!(value(&solve_cancelled_payload(&response))["solveId"], "s");
}

#[test]
fn finished_solves_can_be_cleaned_up() {
    let mut ended = solve("s", "r", None, "optimal", 10);
    ended.finished_at_ms = Some(20);
    let mut solves = one_solve(ended);
    let mut cancels: Table<CancelInfo> = Table::new();
    let removed = cleanup_finished_solve(&mut solves, &mut cancels, "r").unwrap().unwrap();
    assert_eq!(removed.solve_id, "s");
    assert_eq!(solves.len(), 0);
    assert_eq!(
        cleanup_finished_solve(&mut solves, &mut cancels, "r").unwrap_err(),
        "solve or request id not found: r"
    );
    let mut running = one_solve(solve("s", "r", None, "running", 10));
    assert!(cleanup_finished_solve(&mut running, &mut cancels, "s").unwrap().is_none());
    assert_eq!(running.len(), 1);
}

// Registries.

#[test]
fn a_problem_has_one_running_solve() {
    let mut solves: Table<SolveRegistryEntry> = Table::new();
    track_solve_started(&mut solves, "s", "r", "p", 0, 2, true, 10).unwrap();
    assert_eq!(
        track_solve_started(&mut solves, "t", "r", "p", 0, 2, true, 20).unwrap_err(),
        "problemId p already has running solve s"
    );
    let response = answer("s", "optimal");
    track_solve_finished(&mut solves, &response);
    assert_eq!(solves.get("s").unwrap().status, "optimal");
    track_solve_started(&mut solves, "t", "r", "p", 0, 2, true, 20).unwrap();
    assert_eq!(solves.len(), 2);
}

fn answer(solve_id: &str, status: &str) -> SolveResponse {
    let mut solves: Table<SolveRegistryEntry> = Table::new();
    let mut response = cancelled_solve_response(
        &mut solves,
        solve_id.to_string(),
        "r".to_string(),
        Some("p".to_string()),
        0,
        true,
        vec![],
        "x".to_string(),
        "node",
        NodeRole::Master,
        &AcceleratorReport::default(),
        100,
    );
    response.ok = true;
    response.status = status.to_string();
    response
}

#[test]
fn job_registers_follow_what_happens() {
    let mut solves: Table<SolveRegistryEntry> = Table::new();
    track_solve_started(&mut solves, "solve-test", "r", "p", 0, 1, true, 10).unwrap();
    let job = test_job("solve-test-0");
    track_job_submitted(&mut solves, &job, 20);
    assert_eq!(solves.get("solve-test").unwrap().jobs_published, 1);
    assert_eq!(solves.get("solve-test").unwrap().jobs.get("solve-test-0").unwrap().status, "submitted");

    track_job_result(&mut solves, &test_result("solve-test-0", "error"), false, 30);
    assert_eq!(solves.get("solve-test").unwrap().jobs.get("solve-test-0").unwrap().status, "retrying");
    track_job_redelegated(&mut solves, "solve-test", 31);
    assert_eq!(solves.get("solve-test").unwrap().jobs_redelegated, 1);

    track_job_stale_requeued(&mut solves, "solve-test", "solve-test-0", "w", "solve-test-0-retry-1", 5, 40);
    let entry = solves.get("solve-test").unwrap().jobs.get("solve-test-0").unwrap();
    assert_eq!(entry.status, "stale-requeued");
    assert_eq!(
        entry.error.as_deref(),
        Some("worker w missed heartbeat since 5; requeued as solve-test-0-retry-1")
    );

    track_job_split(&mut solves, "solve-test", 2, 50);
    let solve = solves.get("solve-test").unwrap();
    assert_eq!(solve.jobs_split, 1);
    assert_eq!(solve.jobs_expected, jobs_expected_after_split(1, 2));
    assert_eq!(jobs_expected_after_split(1, 2), 2);
    track_job_result(&mut solves, &test_result("solve-test-0-retry-1", "optimal"), true, 60);
    assert_eq!(solves.get("solve-test").unwrap().jobs_completed, 1);
    assert_eq!(elapsed_ms(5, 9), 0);
    assert_eq!(elapsed_ms(9, 5), 4);
}

// Tasks.

fn subject(problem: &str, job: &str) -> TaskSubject {
    TaskSubject {
        problem_id: Some(problem.to_string()),
        solve_id: None,
        request_id: Some("r".to_string()),
        job_id: Some(job.to_string()),
        job_uuid: None,
    }
}

#[test]
fn tasks_are_found_and_pruned() {
    let config = setting("MIP_SOLVER_TASK_RETENTION_SECONDS", 1);
    let problem = "99999999-9999-4999-8999-999999999999";
    let mut tasks: Table<RuntimeTaskEntry> = Table::new();
    track_runtime_task_started(
        &mut tasks, "t1".to_string(), "solve", subject(problem, "j1"), false, "n", NodeRole::Master, 10, &config,
    );
    track_runtime_task_started(
        &mut tasks, "t2".to_string(), "job", subject(problem, "j2"), false, "n", NodeRole::Master, 20, &config,
    );
    track_runtime_task_solve(&mut tasks, "t1", "s1", 30);
    assert!(track_runtime_task_abort_handle(&mut tasks, "t1", 31));
    assert_eq!(runtime_task_lookup(&mut tasks, "s1", 40, &config).unwrap().task_id, "t1");
    assert_eq!(runtime_task_lookup(&mut tasks, "j2", 40, &config).unwrap().task_id, "t2");
    assert!(runtime_task_lookup(&mut tasks, "nothing", 40, &config).is_none());
    let listed = runtime_task_entries(&mut tasks, 40, &config);
    assert_eq!(listed.len(), 2);

    track_runtime_task_finished_if_open(&mut tasks, "t1", "optimal", 50);
    track_runtime_task_finished_if_open(&mut tasks, "t1", "error", 60);
    let entry = runtime_task_lookup(&mut tasks, "t1", 60, &config).unwrap();
    assert_eq!(entry.status, "optimal");
    assert_eq!(entry.finished_at_ms, Some(50));
    track_runtime_task_finished(&mut tasks, "t2", "cancelled", 70);
    prune_runtime_tasks(&mut tasks, 1_055, &config);
    assert!(!tasks.contains_key("t1"));
    assert!(tasks.contains_key("t2"));
    prune_runtime_tasks(&mut tasks, 9_000, &config);
    assert_eq!(tasks.len(), 0);
}

// Running a solve.

fn stale(id: &str) -> StaleWorkerJob {
    StaleWorkerJob {
        job_id: id.to_string(),
        job_uuid: None,
        worker_node: "lost".to_string(),
        last_heartbeat_ms: 5,
    }
}

#[test]
fn every_job_of_a_run_is_answered_or_awaited() {
    let jobs = vec![test_job("solve-test-0"), test_job("solve-test-1")];
    let none: Table<CancelInfo> = Table::new();
    let mut run = SolveRun::new("solve-test", 1, &jobs, vec![]);
    assert_eq!(run.jobs_expected, 2);
    assert!(run.awaiting());

    // The first job fails once and is delegated again.
    let failed = match run.take_result(test_result("solve-test-0", "error"), &none) {
        Taken::Accepted(result) => result,
        other => panic!("unexpected {other:?}"),
    };
    match run.plan_for(&failed, 10) {
        ResultPlan::Redelegate { job, retry_index } => {
            assert_eq!(job.job_id, "solve-test-0-retry-1");
            assert_eq!(retry_index, 1);
            run.redelegated(&job, retry_index);
        }
        other => panic!("unexpected {other:?}"),
    }
    assert_eq!(run.jobs_expected, 2);
    assert_eq!(run.jobs_redelegated, 1);

    // A second failure is kept: there are no tries left.
    let failed = match run.take_result(test_result("solve-test-0-retry-1", "error"), &none) {
        Taken::Accepted(result) => result,
        other => panic!("unexpected {other:?}"),
    };
    assert!(matches!(run.plan_for(&failed, 11), ResultPlan::Done));
    run.keep(failed);

    // The second job is split; its parts take its place.
    let mut split = test_result("solve-test-1", "split");
    split.child_jobs = vec![test_job("solve-test-1-l"), test_job("solve-test-1-r")];
    let split = match run.take_result(split, &none) {
        Taken::Accepted(result) => result,
        other => panic!("unexpected {other:?}"),
    };
    assert!(matches!(run.plan_for(&split, 12), ResultPlan::Split));
    for part in &split.child_jobs {
        run.part_published(part);
    }
    run.split_done(&split);
    assert_eq!(run.jobs_expected, 3);
    assert_eq!(run.jobs_split, 1);
    assert!(run.awaiting());

    // One worker falls silent; the other answers.
    match run.stale_step(&stale("solve-test-1-l"), 20) {
        StaleStep::Publish { job, retry_index } => {
            assert_eq!(job.job_id, "solve-test-1-l-retry-1");
            assert_eq!(job.avoid_worker_nodes, vec!["lost".to_string()]);
            run.stale_requeued(&stale("solve-test-1-l"), &job, retry_index);
        }
        other => panic!("unexpected {other:?}"),
    }
    assert!(matches!(
        run.take_result(test_result("solve-test-1-l", "optimal"), &none),
        Taken::Superseded
    ));
    for id in ["solve-test-1-l-retry-1", "solve-test-1-r"] {
        match run.take_result(test_result(id, "optimal"), &none) {
            Taken::Accepted(result) => run.keep(result),
            other => panic!("unexpected {other:?}"),
        }
    }
    assert!(!run.awaiting());
    assert_eq!(run.results.len(), 3);
    assert!(matches!(run.take_result(test_result("solve-test-1-r", "optimal"), &none), Taken::Ignored));
    let mut foreign = test_result("solve-test-1-r", "optimal");
    foreign.solve_id = "other".to_string();
    assert!(matches!(run.take_result(foreign, &none), Taken::Foreign));
    assert!(run.warnings.iter().any(|w| w.contains("missed heartbeat for job solve-test-1-l (unknown); requeued as solve-test-1-l-retry-1")));
}

#[test]
fn runs_note_what_goes_wrong() {
    let jobs = vec![test_job("solve-test-0")];
    let none: Table<CancelInfo> = Table::new();
    let mut run = SolveRun::new("solve-test", 1, &jobs, vec![]);
    assert!(matches!(run.stale_step(&stale("unknown"), 20), StaleStep::Lost | StaleStep::Skip));
    run.stale_requeue_failed(&stale("solve-test-0"), "down");
    run.reading_failed("broken");
    let result = match run.take_result(test_result("solve-test-0", "split"), &none) {
        Taken::Accepted(result) => result,
        other => panic!("unexpected {other:?}"),
    };
    run.split_failed(result, "down");
    assert_eq!(run.results[0].status, "error");
    assert_eq!(
        run.results[0].error.as_deref(),
        Some("failed to publish split children: down")
    );
    for expected in [
        "failed to requeue stale job solve-test-0 from worker lost: down",
        "JetStream result consumer error: broken",
        "failed to publish split children for job solve-test-0: down",
    ] {
        assert!(run.warnings.contains(&expected.to_string()), "{:?}", run.warnings);
    }
    run.time_is_up();
    assert!(run.timed_out);

    let mut closed = SolveRun::new("solve-test", 1, &jobs, vec![]);
    closed.reading_closed();
    assert!(closed.warnings.contains(&"JetStream result consumer closed".to_string()));
    let lost = match closed.take_result(test_result("solve-test-0", "error"), &none) {
        Taken::Accepted(result) => result,
        other => panic!("unexpected {other:?}"),
    };
    closed.redelegation_failed(lost, "down");
    assert!(closed
        .warnings
        .contains(&"failed to re-delegate job solve-test-0: down".to_string()));
    let mut gone = SolveRun::new("solve-test", 1, &jobs, vec![]);
    gone.keep_lost(test_result("solve-test-0", "error"));
    assert!(gone
        .warnings
        .contains(&"cannot re-delegate solve-test-0; original job payload not found".to_string()));
    assert_eq!(wait_time(10, 15, 100), Some(5));
    assert_eq!(wait_time(10, 500, 100), Some(100));
    assert_eq!(wait_time(15, 15, 100), None);
    assert!(wait_is_over(10, 15, 5));
    assert!(!wait_is_over(10, 500, 100));
    assert_eq!(max_retries(&SolveOptions::default()), 2);
    let once = SolveOptions { max_job_retries: Some(1), ..SolveOptions::default() };
    assert_eq!(max_retries(&once), 1);
    let patient = SolveOptions { timeout_ms: Some(7), ..SolveOptions::default() };
    assert_eq!(timeout_ms(&SolveOptions::default()), 120_000);
    assert_eq!(timeout_ms(&patient), 7);
}

fn sent(step: Move) -> String {
    match step {
        Move::Send(job) => job.job_id,
        other => panic!("unexpected {other:?}"),
    }
}

fn cancelled(solve_id: &str) -> Table<CancelInfo> {
    let mut solves = one_solve(solve(solve_id, "r", None, "running", 10));
    let mut cancels: Table<CancelInfo> = Table::new();
    request_solve_cancel(&mut solves, &mut cancels, solve_id, "enough".to_string(), "me".to_string(), 50)
        .unwrap();
    cancels
}

fn reason(step: Move) -> String {
    match step {
        Move::Cancel(info) => info.reason,
        other => panic!("unexpected {other:?}"),
    }
}

#[test]
fn a_cancelled_solve_sends_nothing_more() {
    let none: Table<CancelInfo> = Table::new();
    let cancels = cancelled("solve-test");
    let others = cancelled("solve-other");
    let jobs = vec![test_job("solve-test-0"), test_job("solve-test-1")];

    assert!(matches!(look("solve-test", &none), Move::GoOn));
    assert!(matches!(look("solve-test", &others), Move::GoOn));
    assert_eq!(reason(look("solve-test", &cancels)), "enough");
    assert_eq!(sent(next_to_send(&jobs, 0, "solve-test", &none)), "solve-test-0");
    assert_eq!(sent(next_to_send(&jobs, 1, "solve-test", &others)), "solve-test-1");
    assert_eq!(reason(next_to_send(&jobs, 1, "solve-test", &cancels)), "enough");
    assert!(matches!(next_to_send(&jobs, 2, "solve-test", &cancels), Move::GoOn));

    let mut run = SolveRun::new("solve-test", 1, &jobs, vec![]);
    assert!(matches!(run.next_turn(&none), Move::GoOn));
    assert_eq!(reason(run.next_turn(&cancels)), "enough");
    match run.take_result(test_result("solve-test-0", "optimal"), &cancels) {
        Taken::Cancelled(info) => assert_eq!(info.solve_id, "solve-test"),
        other => panic!("unexpected {other:?}"),
    }
    assert!(run.completed.contains("solve-test-0"));
    assert!(matches!(
        run.take_result(test_result("solve-test-0", "optimal"), &cancels),
        Taken::Ignored
    ));
    run.keep(test_result("solve-test-0", "optimal"));
    run.keep(test_result("solve-test-1", "optimal"));
    assert!(matches!(run.next_turn(&cancels), Move::Finish));
    let totals = run.totals();
    assert_eq!(totals.results.len(), 2);
    assert_eq!((totals.jobs_expected, totals.jobs_published), (2, 2));
    assert_eq!((totals.jobs_redelegated, totals.jobs_split), (0, 0));
    assert!(!totals.timed_out);

    let mut here = LocalRun::new(1, jobs, vec![]);
    assert_eq!(sent(here.next_turn("solve-test", &none)), "solve-test-0");
    here.take_result(test_result("solve-test-0", "optimal"), 5);
    assert_eq!(reason(here.next_turn("solve-test", &cancels)), "enough");
    assert_eq!(here.jobs_published, 1);
    let totals = here.totals();
    assert_eq!(totals.results.len(), 1);
    assert_eq!((totals.jobs_expected, totals.jobs_published), (2, 1));
}

#[test]
fn messages_of_split_and_lost_jobs_are_left() {
    assert!(!ResultPlan::Split.acknowledges());
    assert!(!ResultPlan::Lost.acknowledges());
    assert!(ResultPlan::Done.acknowledges());
    let again = ResultPlan::Redelegate { job: test_job("solve-test-0"), retry_index: 1 };
    assert!(again.acknowledges());
}

#[test]
fn totals_of_solves_without_parts() {
    let lp = lp_totals(test_result("solve-test-0", "optimal"));
    assert_eq!(lp.results.len(), 1);
    assert_eq!((lp.jobs_expected, lp.jobs_published), (1, 1));
    assert_eq!((lp.jobs_redelegated, lp.jobs_split), (0, 0));
    assert!(lp.warnings.is_empty() && !lp.timed_out);
    let empty = no_job_totals(vec!["w".to_string()]);
    assert!(empty.results.is_empty() && !empty.timed_out);
    assert_eq!((empty.jobs_expected, empty.jobs_published), (0, 0));
    assert_eq!((empty.jobs_redelegated, empty.jobs_split), (0, 0));
    assert_eq!(empty.warnings, vec!["w".to_string()]);
}

#[test]
fn local_runs_answer_every_job() {
    let none: Table<CancelInfo> = Table::new();
    let mut run = LocalRun::new(1, vec![test_job("solve-test-0")], vec![]);
    assert_eq!(sent(run.next_turn("solve-test", &none)), "solve-test-0");
    assert_eq!(run.take_result(test_result("solve-test-0", "error"), 5), LocalStep::Retry);
    assert_eq!(run.current.as_ref().unwrap().job.job_id, "solve-test-0-retry-1");
    assert_eq!(sent(run.next_turn("solve-test", &none)), "solve-test-0-retry-1");
    let mut split = test_result("solve-test-0-retry-1", "split");
    split.child_jobs = vec![test_job("a"), test_job("b")];
    assert_eq!(run.take_result(split, 6), LocalStep::Split);
    assert_eq!(run.jobs_expected, 2);
    for id in ["a", "b"] {
        assert_eq!(sent(run.next_turn("solve-test", &none)), id);
        assert_eq!(run.take_result(test_result(id, "optimal"), 7), LocalStep::Done);
    }
    assert!(matches!(run.next_turn("solve-test", &none), Move::Finish));
    assert_eq!(run.results.len(), run.jobs_expected);
    assert_eq!(run.jobs_published, 4);
    assert_eq!(
        run.warnings,
        vec![
            "local job solve-test-0 failed; re-delegating retry 1 of 1".to_string(),
            "local job solve-test-0-retry-1 split into 2 child subproblems".to_string(),
        ]
    );
}

// Stored models.

#[test]
fn hydrate_subproblem_job_loads_problem_from_cache() {
    let problem = normalized_problem(binary_knapsack_problem(), LIMITS).unwrap();
    let problem_id = "88888888-8888-4888-8888-888888888888";
    let mut problems: Table<MipProblemSpec> = Table::new();
    remember_problem_model(&mut problems, problem_id, 4, problem.clone());
    let mut job = test_job("job-test").without_problem_payload();
    job.problem_id = Some(problem_id.to_string());
    job.revision = 4;
    match hydrate_subproblem_job(&job) {
        Hydration::Load { problem_id: id } => {
            let loaded = cached_problem_model(&problems, &id, job.revision);
            hydrated(&mut job, &id, loaded).unwrap();
        }
        other => panic!("unexpected {other:?}"),
    }
    assert_eq!(job.problem.as_ref().map(|problem| &problem.c), Some(&problem.c));
    assert!(cached_problem_model(&problems, problem_id, 5).is_none());
}

#[test]
fn hydrate_subproblem_job_uses_stored_model_over_embedded_payload() {
    let stored = normalized_problem(binary_knapsack_problem(), LIMITS).unwrap();
    let mut embedded = stored.clone();
    embedded.c[0] = d(999.0);
    let mut job = test_job("job-test");
    job.problem = Some(embedded);
    job.problem_stored = true;
    match hydrate_subproblem_job(&job) {
        Hydration::Load { problem_id } => hydrated(&mut job, &problem_id, Some(stored.clone())).unwrap(),
        other => panic!("unexpected {other:?}"),
    }
    assert_eq!(job.problem.as_ref().map(|problem| &problem.c), Some(&stored.c));
}

#[test]
fn jobs_without_a_model_fail() {
    assert!(matches!(hydrate_subproblem_job(&test_job("j")), Hydration::Ready));
    let mut job = test_job("j").without_problem_payload();
    assert!(job.problem().is_err());
    assert_eq!(
        hydrated(&mut job, "p", None).unwrap_err(),
        "subproblem j could not load problem p revision 0"
    );
    job.problem_id = None;
    match hydrate_subproblem_job(&job) {
        Hydration::Failed(error) => {
            assert_eq!(error, "subproblem j omitted problem payload but has no problemId")
        }
        other => panic!("unexpected {other:?}"),
    }
}

#[test]
fn store_problem_model_rejects_same_id_with_different_model() {
    let problem_id = "8bbbbbbb-8888-4888-8888-888888888888";
    let first = normalized_problem(binary_knapsack_problem(), LIMITS).unwrap();
    let mut second = first.clone();
    second.c[0] = d(11.0);
    let mut problems: Table<MipProblemSpec> = Table::new();

    assert!(matches!(
        store_problem_model(&mut problems, false, problem_id, 0, &first),
        StoreStep::Done(Ok(ProblemStoreStatus::Created))
    ));
    assert!(matches!(
        store_problem_model(&mut problems, false, problem_id, 0, &first),
        StoreStep::Done(Ok(ProblemStoreStatus::Existing))
    ));
    match store_problem_model(&mut problems, false, problem_id, 0, &second) {
        StoreStep::Done(Err(conflict)) => assert!(is_problem_model_conflict(&conflict)),
        other => panic!("unexpected {other:?}"),
    }
    assert!(ensure_local_problem_model(&mut problems, problem_id, 0, &second).is_err());
    assert!(models_are_same(&first, &first));
    assert!(!models_are_same(&first, &second));
}

#[test]
fn shared_models_are_put_once() {
    let id = "p";
    let model = binary_knapsack_problem();
    let mut other = model.clone();
    other.b[0] = d(3.0);
    let mut problems: Table<MipProblemSpec> = Table::new();
    assert!(matches!(store_problem_model(&mut problems, true, id, 0, &model), StoreStep::Load));
    assert!(matches!(store_after_load(&mut problems, None, id, 0, &model), StoreStep::Put));
    assert!(matches!(
        store_after_put(&mut problems, Ok(true), id, 0, &model),
        StoreStep::Done(Ok(ProblemStoreStatus::Created))
    ));
    assert!(cached_problem_model(&problems, id, 0).is_some());

    let mut empty: Table<MipProblemSpec> = Table::new();
    assert!(matches!(
        store_after_load(&mut empty, Some(model.clone()), id, 0, &model),
        StoreStep::Done(Ok(ProblemStoreStatus::Existing))
    ));
    assert!(matches!(
        store_after_load(&mut empty, Some(other.clone()), id, 0, &model),
        StoreStep::Done(Err(_))
    ));
    assert!(matches!(store_after_put(&mut empty, Ok(false), id, 0, &model), StoreStep::Reload));
    match store_after_put(&mut empty, Err("down".to_string()), id, 0, &model) {
        StoreStep::Done(Err(error)) => assert!(error.contains("down")),
        step => panic!("unexpected {step:?}"),
    }
    assert_eq!(
        store_after_reload(&mut empty, None, id, 0, &model).unwrap_err(),
        "stored problem p revision 0 already exists but could not be reloaded"
    );
    assert_eq!(
        store_after_reload(&mut empty, Some(model.clone()), id, 0, &model),
        Ok(ProblemStoreStatus::Existing)
    );
    assert_eq!(
        store_after_reload(&mut empty, Some(other), id, 0, &model).unwrap_err(),
        "stored problem p revision 0 already exists with a different model"
    );
    let mut broken = model.clone();
    broken.b.clear();
    assert!(problem_model_from_value(Some(broken), LIMITS).is_none());
    assert!(model_loaded(&mut empty, Some(model), "q", 7, LIMITS).is_some());
    assert!(cached_problem_model(&empty, "q", 7).is_some());
    assert_eq!(ProblemStoreStatus::Existing.as_str(), "existing");
}

// Workers.

#[test]
fn worker_settings_have_defaults() {
    let settings = worker_settings(&no_settings(), "group");
    assert_eq!(settings.consumer, "group");
    assert_eq!(settings.heartbeat_seconds, 25);
    assert_eq!(settings.max_in_flight, 5);
    assert_eq!(settings.saturation_retry_seconds, 180);
    assert_eq!(settings.ack_wait_seconds, 600);
    assert_eq!(settings.max_ack_pending, 32);
    assert_eq!(settings.max_deliver, 5);
}

#[test]
fn deliveries_are_refused_for_a_reason() {
    let settings = worker_settings(&no_settings(), "group");
    let mut cancels: Table<CancelInfo> = Table::new();
    let mut job = test_job("j");
    assert!(delivery_refusal(&job, "me", &cancels).is_none());
    job.avoid_worker_nodes.push("me".to_string());
    assert_eq!(delivery_refusal(&job, "me", &cancels), Some(Refusal::Avoided));
    let avoided = refuse(Refusal::Avoided, &job, &settings);
    assert_eq!(avoided.command, "worker-avoided-stale-retry");
    assert!(matches!(avoided.reply, Reply::Later(_)));

    let mut solves = one_solve(solve("solve-test", "r", None, "running", 1));
    request_solve_cancel(&mut solves, &mut cancels, "solve-test", String::new(), String::new(), 2).unwrap();
    assert_eq!(delivery_refusal(&job, "other", &cancels), Some(Refusal::Cancelled));
    let skipped = refuse(Refusal::Cancelled, &job, &settings);
    assert_eq!(skipped.command, "worker-skipped-cancelled");
    assert_eq!(skipped.reply, Reply::Ack);
    let saturated = refuse(Refusal::Saturated, &job, &settings);
    assert_eq!(saturated.reply, Reply::Later(180));
    assert_eq!(value(&saturated.payload)["maxInFlight"], 5);
}

#[test]
fn deliveries_are_settled_once() {
    let cancels: Table<CancelInfo> = Table::new();
    let act = |event| worker_act(event, &cancels, "s", &None);
    assert_eq!(act(WorkerEvent::Taken), WorkerAct::GoOn);
    assert_eq!(act(WorkerEvent::Poll), WorkerAct::GoOn);
    assert_eq!(act(WorkerEvent::Heartbeat), WorkerAct::TellProgress);
    assert_eq!(act(WorkerEvent::Solved), WorkerAct::GoOn);
    assert_eq!(act(WorkerEvent::Sent), WorkerAct::Complete);
    assert_eq!(reply_for(WorkerAct::GoOn), None);
    assert_eq!(reply_for(WorkerAct::TellProgress), Some(Reply::Working));
    assert_eq!(reply_for(WorkerAct::Complete), Some(Reply::Ack));
    assert_eq!(reply_for(act(WorkerEvent::Unsent)), Some(Reply::Later(LEFT_JOB_SECONDS)));
    assert_eq!(task_status(WorkerAct::Complete, "optimal").as_deref(), Some("optimal"));
    assert_eq!(task_status(WorkerAct::GoOn, "optimal"), None);
    assert_eq!(command_for(WorkerAct::Complete), Some("worker-completed"));
}

#[test]
fn cancelled_work_ends() {
    let mut cancels: Table<CancelInfo> = Table::new();
    let mut solves = one_solve(solve("s", "r", None, "running", 1));
    request_solve_cancel(&mut solves, &mut cancels, "s", String::new(), String::new(), 2).unwrap();
    for (event, expected) in [
        (WorkerEvent::Taken, WorkerAct::Skip),
        (WorkerEvent::Poll, WorkerAct::Stop),
        (WorkerEvent::Solved, WorkerAct::Discard),
    ] {
        let act = worker_act(event, &cancels, "s", &None);
        assert_eq!(act, expected);
        assert_eq!(task_status(act, "optimal").as_deref(), Some("cancelled"));
        assert_eq!(reply_for(act), Some(Reply::Ack));
    }
}

#[test]
fn worker_payloads_are_heard_by_masters() {
    let config = no_settings();
    let job = test_job("j");
    let mut workers: Table<WorkerNodeStatus> = Table::new();
    let mut solves: Table<SolveRegistryEntry> = Table::new();
    let mut hear = |command: &str, payload: Document, now: u128| {
        let document = control_document("w", NodeRole::Slave, command, payload, now);
        let heard = to_json(&value(&document));
        record_worker_control_frame(&mut workers, &mut solves, &heard, 0, &config).unwrap();
    };
    hear("worker-ready", worker_ready_payload("c", "jobs", "results"), 1);
    hear("request-work", worker_job_payload("c", &job, 2, "jobs", "results", 5), 2);
    hear("worker-completed", completed_payload("c", &test_result("j", "optimal"), "results"), 3);
    let worker = workers.get("w").unwrap();
    assert_eq!(worker.consumer.as_deref(), Some("c"));
    assert_eq!(worker.jobs_subject.as_deref(), Some("jobs"));
    assert_eq!(worker.ready_at_ms, Some(1));
    assert_eq!(worker.last_seen_ms, 3);
    assert_eq!(worker.completed_count, 1);
    assert_eq!(value(&given_up_payload("c", &job))["jobId"], "j");
    assert_eq!(value(&discarded_payload("c", &test_result("j", "optimal")))["status"], "optimal");
}

#[test]
fn cancellations_are_heard_by_workers() {
    let info = CancelInfo {
        solve_id: "s".to_string(),
        request_id: Some("r".to_string()),
        problem_id: None,
        reason: "why".to_string(),
        requested_by: "me".to_string(),
        requested_at_ms: 40,
    };
    let document = control_document("m", NodeRole::Master, "cancel-solve", cancel_payload(&info), 41);
    let mut solves: Table<SolveRegistryEntry> = Table::new();
    let mut cancels: Table<CancelInfo> = Table::new();
    assert!(record_cancel_control_frame(&mut solves, &mut cancels, &to_json(&value(&document)), 50).unwrap());
    let heard = solve_cancel_info(&cancels, "s").unwrap();
    assert_eq!(heard.reason, "why");
    assert_eq!(heard.requested_by, "me");
    assert_eq!(heard.requested_at_ms, 40);
    assert_eq!(value(&cancel_event_payload(&info))["solveId"], "s");
}

#[test]
fn events_name_their_solve() {
    let job = test_job("j");
    let result = test_result("j", "split");
    let response = answer("s", "optimal");
    assert_eq!(value(&solve_finished_payload(&response))["solveId"], "s");
    assert_eq!(value(&finish_record(&response))["status"], "optimal");
    assert_eq!(value(&frontier_built_payload("s", "r", 3))["jobs"], 3);
    let parts = value(&split_payload("s", "r", &result, &vec!["a".to_string()]));
    assert_eq!(parts["solveId"], "s");
    let again = value(&redelegated_payload("s", "r", &result, "j-retry-1", 1, 2));
    assert_eq!(again["retryJobId"], "j-retry-1");
    let requeued = value(&requeued_payload("s", "r", &stale("j"), &job, 100));
    assert_eq!(requeued["staleWorkerNode"], "lost");
    assert_eq!(value(&start_record("r", 1, 2, true))["jobsExpected"], 2);
    assert_eq!(value(&submission_record(&job))["depth"], 0);
    let noted = value(&result_record(&result, true));
    assert_eq!(noted["status"], "split");
    assert_eq!(noted["terminal"], true);
    assert_eq!(noted["childJobCount"], 0);
}
