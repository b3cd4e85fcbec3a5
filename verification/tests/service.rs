//! Replies, pages, documents and settings.

use mip_solver_node::accelerator::gpu_status;
use mip_solver_node::cancel::CancelInfo;
use mip_solver_node::config::{
    cancel_poll_interval, capped_env_usize, capped_env_usize_allow_zero, env_bool, env_f64,
    env_u64, env_usize, env_usize_allow_zero, env_value, first_configured_env,
    first_configured_env_value, is_false, max_http_body_bytes, max_stream_commands, model_limits,
    optional_env_value, runtime_task_retention_ms, worker_stale_after, NodeRole, RuntimeConfig,
    Setting,
};
use mip_solver_node::document::{table_document, Document, Documented};
use mip_solver_node::ids::{mip_solver_session_model_key, mip_solver_solve_snapshot_key};
use mip_solver_node::json::{Json, JsonNumber};
use mip_solver_node::metrics::{jobs_in_flight, metrics_text, Counts, METRICS_CONTENT_TYPE};
use mip_solver_node::model::MipProblemSpec;
use mip_solver_node::model_store::ProblemStoreStatus;
use mip_solver_node::number::Double;
use mip_solver_node::options::SolveOptions;
use mip_solver_node::pages::{
    api_docs_page, endpoints, home_page, service_page, version_page, HomeFacts,
};
use mip_solver_node::persistence::{
    persistence_contract, persistence_document, result_columns, result_event_kind,
    revision_column, solve_columns, stored_job_status, submitted_columns, TableNames,
};
use mip_solver_node::plan::{
    after_storage, lp_job, new_solve_id, plan_solve, solve_lock_ttl, solve_name, SolvePlan, Storage,
};
use mip_solver_node::registry::SolveRegistryEntry;
use mip_solver_node::replies::{
    error_reply, is_problem_model_conflict, solve_error_status, solve_failed_reply, HttpReply,
    ACCEPTED, BAD_REQUEST, CONFLICT, NOT_FOUND, OK, PAYLOAD_TOO_LARGE, SERVICE_UNAVAILABLE,
};
use mip_solver_node::requests::{
    cancel_solve_key, check_command_count, choose_session, clean_up_solve, frames_reply,
    no_model_reply, path_problem_id, problem_from_upload, require_master, resolve_solve_request,
    resolve_solve_request_with, session_reply, session_saved_reply, session_solve_input,
    stored_problem_id, stored_revision, stored_solve_input, take_body_chunk, unreadable_body_reply,
    upload_reply, uploaded_problem_id, MasterWork, SolveRequest, Upload,
};
use mip_solver_node::service::{API_DOCS_SCHEMA, SERVICE_NAME};
use mip_solver_node::startup::{
    cache_ttl_seconds, connect_attempts, connect_retry_seconds, database_pool_size, listen_address,
    node_id, node_id_with, subjects,
};
use mip_solver_node::status::{
    api_docs_document, cluster_solves, event_document, health_document, nats_status_document,
    ready_reply, root_document, task_reply, tasks_reply, version_document, workers_reply,
    BuildInfo, NodeFacts, Subjects, Tallies,
};
use mip_solver_node::stream::{LiveSession, StreamCommand, StreamFrame};
use mip_solver_node::table::Table;
use mip_solver_node::wire::model_document;
use serde_json::Value;

fn d(x: f64) -> Double {
    Double { bits: x.to_bits() }
}

fn ds(v: &[f64]) -> Vec<Double> {
    v.iter().map(|x| d(*x)).collect()
}

fn to_json(v: &Value) -> Json {
    match v {
        Value::Null => Json::Null,
        Value::Bool(b) => Json::Bool(*b),
        Value::Number(n) => Json::Number(JsonNumber {
            unsigned: n.as_u64(),
            value: d(n.as_f64().unwrap()),
        }),
        Value::String(s) => Json::Text(s.clone()),
        Value::Array(items) => Json::Array(items.iter().map(to_json).collect()),
        Value::Object(fields) => {
            Json::Object(fields.iter().map(|(k, v)| (k.clone(), to_json(v))).collect())
        }
    }
}

fn value(document: &Document) -> Value {
    match document {
        Document::Null => Value::Null,
        Document::Flag(b) => Value::Bool(*b),
        Document::Count(n) => Value::from(u64::try_from(*n).unwrap()),
        Document::Number(x) => Value::from(f64::from_bits(x.bits)),
        Document::Text(s) => Value::String(s.clone()),
        Document::List(items) => Value::Array(items.iter().map(value).collect()),
        Document::Object(fields) => {
            Value::Object(fields.iter().map(|(k, v)| (k.clone(), value(v))).collect())
        }
    }
}

fn no_settings() -> RuntimeConfig {
    RuntimeConfig { settings: vec![] }
}

fn settings(pairs: &[(&str, &str)]) -> RuntimeConfig {
    RuntimeConfig {
        settings: pairs
            .iter()
            .map(|(key, text)| Setting {
                key: key.to_string(),
                text: text.to_string(),
                unsigned: text.trim().parse().ok(),
                flag: match *text {
                    "true" => Some(true),
                    "false" => Some(false),
                    _ => None,
                },
                number: text.trim().parse().ok().map(d),
            })
            .collect(),
    }
}

fn knapsack() -> MipProblemSpec {
    MipProblemSpec {
        sense: "max".to_string(),
        c: ds(&[10.0, 40.0]),
        a: vec![ds(&[5.0, 4.0])],
        b: ds(&[10.0]),
        integer_vars: vec![true, true],
        ub: Some(ds(&[1.0, 1.0])),
        var_names: None,
        con_names: None,
    }
}

fn solve(id: &str, request: &str, problem: Option<&str>, status: &str, started: u128) -> SolveRegistryEntry {
    SolveRegistryEntry {
        solve_id: id.to_string(),
        request_id: request.to_string(),
        problem_id: problem.map(|p| p.to_string()),
        revision: 0,
        status: status.to_string(),
        jobs_expected: 2,
        jobs_published: usize::MAX,
        jobs_completed: 0,
        jobs_redelegated: 0,
        jobs_split: 0,
        timed_out: false,
        distributed: false,
        started_at_ms: started,
        updated_at_ms: started,
        finished_at_ms: None,
        cancel_requested: false,
        cancel_requested_at_ms: None,
        cancel_reason: None,
        warnings: vec![],
        jobs: Table::new(),
    }
}

fn facts(role: NodeRole, connected: bool) -> NodeFacts {
    NodeFacts {
        role,
        node_id: "test-node".to_string(),
        connected,
        subjects: Subjects {
            jobs: "jobs".to_string(),
            results: "results".to_string(),
            control: "control".to_string(),
            events: "events".to_string(),
        },
        stream: "STREAM".to_string(),
        stream_subjects: vec!["jobs".to_string()],
        queue_group: "group".to_string(),
        build: BuildInfo {
            package_version: "1.2.3".to_string(),
            git_commit: None,
            git_commit_short: Some("abc".to_string()),
            git_ref: None,
            git_dirty: None,
            built_at: None,
        },
    }
}

fn error_of(reply: &HttpReply) -> String {
    value(&reply.body)["error"].as_str().unwrap().to_string()
}

// Errors.

#[test]
fn solve_errors_map_conflicts_dependencies_and_input_failures() {
    assert_eq!(solve_error_status("problem already has running solve"), CONFLICT);
    assert_eq!(solve_error_status("coordination lock busy"), CONFLICT);
    assert_eq!(solve_error_status("live-mutex request failed"), SERVICE_UNAVAILABLE);
    assert_eq!(solve_error_status("Redis connection unavailable"), SERVICE_UNAVAILABLE);
    assert_eq!(
        solve_error_status("objective contains a non-finite coefficient"),
        BAD_REQUEST
    );
    assert_eq!(OK, 200);
    assert_eq!(ACCEPTED, 202);
    assert_eq!(BAD_REQUEST, 400);
    assert_eq!(NOT_FOUND, 404);
    assert_eq!(CONFLICT, 409);
    assert_eq!(PAYLOAD_TOO_LARGE, 413);
    assert_eq!(SERVICE_UNAVAILABLE, 503);
}

#[test]
fn error_replies_hold_the_error() {
    let reply = error_reply(BAD_REQUEST, "why", true);
    assert_eq!(reply.status, 400);
    assert!(reply.counts_error);
    assert_eq!(value(&reply.body)["ok"], false);
    assert_eq!(error_of(&reply), "why");
    let failed = solve_failed_reply("coordination lock busy: k");
    assert_eq!(failed.status, CONFLICT);
    assert_eq!(error_of(&failed), "coordination lock busy: k");
    assert!(is_problem_model_conflict("stored problem p revision 0 already exists with a different model"));
}

// Metrics.

fn counts() -> Counts {
    Counts {
        http_requests: 9,
        stream_events: 8,
        solve_requests: 6,
        solve_cancel_requests: 2,
        subproblem_jobs_published: 7,
        subproblem_jobs_completed: 3,
        subproblem_jobs_redelegated: 2,
        subproblem_jobs_split: 4,
        workers_known: 1,
        worker_control_messages: 5,
        solves_tracked: 1,
        active_solves: 1,
        slave_jobs_processed: 12,
        errors: 13,
    }
}

#[test]
fn metrics_route_and_prometheus_content_type_remain_stable() {
    assert!(endpoints().iter().any(|e| e.method == "GET" && e.path == "/metrics"));
    assert!(METRICS_CONTENT_TYPE.contains("text/plain; version=0.0.4"));

    let text = metrics_text("master", "test-node", &counts());
    for required_metric in [
        "dd_mip_solver_http_requests_total",
        "dd_mip_solver_solve_requests_total",
        "dd_mip_solver_solve_cancel_requests_total",
        "dd_mip_solver_subproblem_jobs_in_flight",
        "dd_mip_solver_workers_known",
        "dd_mip_solver_active_solves",
        "dd_mip_solver_errors_total",
    ] {
        assert!(
            text.contains(required_metric),
            "missing required bounded metric: {required_metric}"
        );
    }
}

#[test]
fn metrics_exposition_does_not_add_sensitive_or_unbounded_domain_labels() {
    let text = metrics_text("master", "test-node", &counts());
    for forbidden_label in [
        "problem_id=",
        "request_id=",
        "job_id=",
        "user_id=",
        "tenant_id=",
        "file_path=",
        "variable_name=",
        "constraint_name=",
        "variables=",
        "constraints=",
    ] {
        assert!(
            !text.contains(forbidden_label),
            "sensitive or high-cardinality label key entered /metrics: {forbidden_label}"
        );
    }
}

#[test]
fn metrics_endpoint_exposes_prometheus_node_and_inflight_metrics() {
    let body = metrics_text("master", "test-node", &counts());
    for line in [
        "# TYPE dd_mip_solver_node_info gauge",
        "dd_mip_solver_node_info{role=\"master\",node_id=\"test-node\"} 1",
        "# TYPE dd_mip_solver_subproblem_jobs_in_flight gauge",
        "dd_mip_solver_subproblem_jobs_in_flight 4",
        "# TYPE dd_mip_solver_subproblem_jobs_redelegated_total counter",
        "dd_mip_solver_subproblem_jobs_redelegated_total 2",
        "# TYPE dd_mip_solver_subproblem_jobs_split_total counter",
        "dd_mip_solver_subproblem_jobs_split_total 4",
        "# TYPE dd_mip_solver_workers_known gauge",
        "dd_mip_solver_workers_known 1",
        "# TYPE dd_mip_solver_worker_control_messages_total counter",
        "dd_mip_solver_worker_control_messages_total 5",
        "# TYPE dd_mip_solver_solves_tracked gauge",
        "dd_mip_solver_solves_tracked 1",
        "# TYPE dd_mip_solver_active_solves gauge",
        "dd_mip_solver_active_solves 1",
    ] {
        assert!(body.contains(line), "{line}");
    }
    let mut few = counts();
    few.subproblem_jobs_completed = 99;
    assert_eq!(jobs_in_flight(&few), 0);
    assert!(metrics_text("master", "a\"b", &few).contains("node_id=\"a\\\"b\""));
}

// Pages and documents.

#[test]
fn metadata_pages_and_api_docs_are_described() {
    let node = facts(NodeRole::Master, true);
    let config = no_settings();
    let home = home_page(&HomeFacts {
        role: "master".to_string(),
        node_id: "<node>".to_string(),
        version: "1.2.3".to_string(),
        connected: true,
        stream: "STREAM".to_string(),
        consumer: "group".to_string(),
        workers: 3,
        solves: 4,
    });
    assert!(home.contains("&lt;node&gt;"));
    assert!(!home.contains("<node>"));
    assert!(service_page("t", "s", "<b>").contains("<b>"));
    assert!(version_page("{\"gitCommit\":1}").contains("gitCommit"));
    let docs = api_docs_page("1.2.3", "STREAM");
    assert!(docs.contains("/mip-solver-cluster/nats"));
    let version = value(&version_document(&node, &config));
    assert_eq!(version["service"], SERVICE_NAME);
    assert_eq!(version["build"]["packageVersion"], "1.2.3");
    assert_eq!(version["build"]["gitCommit"], "unknown");
    let api = value(&api_docs_document(&node, &config, &vec![]));
    assert_eq!(api["schema"], API_DOCS_SCHEMA);
    assert!(api["endpoints"]
        .as_array()
        .unwrap()
        .iter()
        .any(|e| e["path"] == "/mip-solver-cluster/nats"));
    let nats = value(&nats_status_document(&node, &config, &vec![]));
    assert_eq!(nats["connected"], true);
    assert_eq!(nats["workerConsumer"], "group");
    assert_eq!(nats["workersKnown"], 0);
    let tallies = Tallies { workers: 1, tasks: 2, active_tasks: 1, solves: 3 };
    let root = value(&root_document(
        &node,
        tallies,
        Document::Null,
        Document::Null,
        gpu_status(&config, false).document(),
    ));
    assert_eq!(root["solvesTracked"], 3);
    assert_eq!(root["gpu"]["available"], false);
    assert_eq!(value(&health_document(&node.build))["gitCommit"], "abc");
    let event = value(&event_document("n", NodeRole::Slave, "x", Document::Null, 12));
    assert_eq!(event["schema"], "dd.mip-solver.event.v1");
    assert_eq!(event["role"], "slave");
    assert_eq!(event["timeMs"], 12);
}

#[test]
fn readyz_requires_nats_connection_for_cluster_readiness() {
    let waiting = ready_reply(&facts(NodeRole::Slave, false));
    assert_eq!(waiting.status, SERVICE_UNAVAILABLE);
    let body = value(&waiting.body);
    assert_eq!(body["ok"], false);
    assert_eq!(body["nats"], false);
    assert!(body["reason"].as_str().unwrap().contains("NATS connection is required"));
    let ready = ready_reply(&facts(NodeRole::Slave, true));
    assert_eq!(ready.status, OK);
    assert_eq!(value(&ready.body)["reason"], Value::Null);
}

#[test]
fn solves_endpoint_filters_by_problem_uuid_query() {
    let first = "99999999-9999-4999-8999-999999999999";
    let second = "abababab-abab-4bab-8bab-abababababab";
    let mut solves = Table::new();
    solves.insert("a".to_string(), solve("a", "r", Some(first), "running", 10));
    let mut ended = solve("b", "r", Some(second), "optimal", 20);
    ended.finished_at_ms = Some(30);
    solves.insert("b".to_string(), ended);
    let all = value(&cluster_solves(&solves, NodeRole::Master, &None).body);
    assert_eq!(all["count"], 2);
    assert_eq!(all["active"], 1);
    let one = cluster_solves(&solves, NodeRole::Master, &Some(first.to_uppercase()));
    assert_eq!(one.status, OK);
    let one = value(&one.body);
    assert_eq!(one["count"], 1);
    assert_eq!(one["problem"], first);
    assert_eq!(one["solves"][0]["solveId"], "a");
    let bad = cluster_solves(&solves, NodeRole::Master, &Some("x".to_string()));
    assert_eq!(bad.status, BAD_REQUEST);
    assert_eq!(error_of(&bad), "problem query parameter must be a UUID");
    assert!(table_document(&solves).document_is_object());
}

trait Shape {
    fn document_is_object(&self) -> bool;
}

impl Shape for Document {
    fn document_is_object(&self) -> bool {
        matches!(self, Document::Object(_))
    }
}

#[test]
fn workers_and_tasks_are_listed() {
    let workers = workers_reply(NodeRole::Master, &vec![]);
    assert_eq!(value(&workers.body)["count"], 0);
    let tasks = tasks_reply(NodeRole::Master, "n", &vec![]);
    assert_eq!(value(&tasks.body)["active"], 0);
    let missing = task_reply(NodeRole::Master, "n", "key", &None);
    assert_eq!(missing.status, NOT_FOUND);
    assert_eq!(error_of(&missing), "runtime task not found: key");
}

// Requests.

#[test]
fn request_bodies_have_a_size_limit() {
    let mut body = vec![];
    take_body_chunk(&mut body, &b"abc".to_vec(), 5).unwrap();
    take_body_chunk(&mut body, &b"de".to_vec(), 5).unwrap();
    assert_eq!(body, b"abcde");
    assert_eq!(
        take_body_chunk(&mut body, &b"f".to_vec(), 5).unwrap_err(),
        "request body exceeds 5 bytes"
    );
    assert_eq!(body, b"abcde");
    let refused = unreadable_body_reply("request body exceeds 5 bytes");
    assert_eq!(refused.status, PAYLOAD_TOO_LARGE);
    assert!(refused.counts_error);
}

#[test]
fn uploads_hold_a_problem_or_say_why_not() {
    let limits = model_limits(&no_settings());
    assert!(problem_from_upload(Upload::Problem(knapsack()), limits).is_ok());
    assert!(problem_from_upload(Upload::Field(knapsack()), limits).is_ok());
    assert_eq!(
        problem_from_upload(Upload::NoJson("eof".to_string()), limits).unwrap_err(),
        "parse problem JSON: eof"
    );
    assert_eq!(
        problem_from_upload(Upload::BadField("c".to_string()), limits).unwrap_err(),
        "parse problem field: c"
    );
    assert_eq!(
        problem_from_upload(Upload::NoField, limits).unwrap_err(),
        "problem upload must be a problem object or contain a problem field"
    );
    let mut empty = knapsack();
    empty.c.clear();
    assert!(problem_from_upload(Upload::Problem(empty), limits).is_err());
    assert_eq!(no_model_reply("x").status, BAD_REQUEST);
}

#[test]
fn slaves_reject_master_work() {
    assert!(require_master(NodeRole::Master, MasterWork::Solve).is_none());
    for (work, expected) in [
        (MasterWork::Solve, "this pod booted as slave and will not act as master"),
        (MasterWork::Store, "this pod booted as slave and will not store problems"),
        (MasterWork::Cancel, "this pod booted as slave and will not cancel master solves"),
    ] {
        let refused = require_master(NodeRole::Slave, work).unwrap();
        assert_eq!(refused.status, CONFLICT);
        assert_eq!(error_of(&refused), expected);
    }
}

fn request(problem: Option<MipProblemSpec>, commands: Option<Vec<StreamCommand>>) -> SolveRequest {
    SolveRequest {
        request_id: None,
        problem_id: None,
        problem,
        commands,
        options: None,
    }
}

#[test]
fn solve_requests_are_resolved() {
    let config = no_settings();
    let input = resolve_solve_request_with(
        NodeRole::Master,
        request(Some(knapsack()), None),
        &config,
        "11111111-2222-4333-8444-555555555555",
        "99999999-9999-4999-8999-999999999999",
    )
    .unwrap();
    assert_eq!(input.request_id, "mip-11111111-2222-4333-8444-555555555555");
    assert_eq!(input.problem_id, "99999999-9999-4999-8999-999999999999");
    assert_eq!(input.revision, 0);

    let init: Value =
        serde_json::from_str(r#"{"op":"init","c":[1.0],"a":[],"b":[],"integerVars":[true]}"#).unwrap();
    let commands = vec![StreamCommand { fields: to_json(&init), problem: None }];
    let streamed = resolve_solve_request(NodeRole::Master, request(None, Some(commands)), &config).unwrap();
    assert_eq!(streamed.revision, 1);
    assert_eq!(streamed.problem.c, ds(&[1.0]));

    let neither = resolve_solve_request(NodeRole::Master, request(None, None), &config).unwrap_err();
    assert_eq!(neither.status, BAD_REQUEST);
    assert_eq!(error_of(&neither), "request needs either problem or commands");
    let slave = resolve_solve_request(NodeRole::Slave, request(Some(knapsack()), None), &config).unwrap_err();
    assert_eq!(slave.status, CONFLICT);
    let mut named = request(Some(knapsack()), None);
    named.problem_id = Some("no-uuid".to_string());
    let refused = resolve_solve_request(NodeRole::Master, named, &config).unwrap_err();
    assert_eq!(error_of(&refused), "problemId must be a UUID");
}

#[test]
fn solve_requests_with_unsupported_algorithms_are_refused() {
    let options = SolveOptions {
        lp_algorithm: Some("external-highs".to_string()),
        ..SolveOptions::default()
    };
    let limits = model_limits(&no_settings());
    let error = plan_solve(knapsack(), &options, limits).unwrap_err();
    assert!(error.contains("unsupported lpAlgorithm"));
    assert_eq!(solve_failed_reply(&error).status, BAD_REQUEST);
    assert!(matches!(
        plan_solve(knapsack(), &SolveOptions::default(), limits),
        Ok(SolvePlan::Parts(_))
    ));
    let mut continuous = knapsack();
    continuous.integer_vars.clear();
    assert!(matches!(
        plan_solve(continuous, &SolveOptions::default(), limits),
        Ok(SolvePlan::Lp(_))
    ));
}

#[test]
fn stored_problems_are_solved_by_name() {
    let id = "99999999-9999-4999-8999-999999999999";
    assert_eq!(stored_problem_id(NodeRole::Master, &id.to_uppercase()).unwrap(), id);
    assert_eq!(uploaded_problem_id(NodeRole::Master, id).unwrap(), id);
    assert_eq!(path_problem_id(id).unwrap(), id);
    assert_eq!(error_of(&path_problem_id("x").unwrap_err()), "problem id must be a UUID");
    assert_eq!(stored_problem_id(NodeRole::Slave, id).unwrap_err().status, CONFLICT);
    let config = no_settings();
    let missing =
        stored_solve_input(id.to_string(), None, None, None, &config, "fresh").unwrap_err();
    assert_eq!(missing.status, NOT_FOUND);
    let found = stored_solve_input(
        id.to_string(),
        Some(knapsack()),
        Some("mine".to_string()),
        None,
        &config,
        "fresh",
    )
    .unwrap();
    assert_eq!(found.request_id, "mine");
    let created = upload_reply(id, 0, Ok(ProblemStoreStatus::Created), true, 12, &knapsack());
    let body = value(&created.body);
    assert_eq!(body["storeStatus"], "created");
    assert_eq!(body["variables"], 2);
    assert_eq!(body["constraints"], 1);
    let conflict = upload_reply(
        id,
        0,
        Err("stored problem x revision 0 already exists with a different model".to_string()),
        true,
        12,
        &knapsack(),
    );
    assert_eq!(conflict.status, CONFLICT);
    assert_eq!(stored_revision(-3), 0);
    assert_eq!(stored_revision(7), 7);
}

#[test]
fn sessions_are_saved_and_solved() {
    let session = |revision: u64| Some(LiveSession { problem: Some(knapsack()), revision });
    assert_eq!(choose_session(session(1), session(2), session(3)).unwrap().revision, 1);
    assert_eq!(choose_session(None, session(2), session(3)).unwrap().revision, 2);
    assert_eq!(choose_session(None, None, session(3)).unwrap().revision, 3);
    assert!(choose_session(None, None, None).is_none());
    assert!(check_command_count(1, &no_settings()).is_none());
    let many = check_command_count(3, &settings(&[("MIP_SOLVER_MAX_STREAM_COMMANDS", "2")])).unwrap();
    assert_eq!(error_of(&many), "too many stream commands");
    let frames = vec![StreamFrame::Initialized { revision: 1 }];
    let told = frames_reply("s", 1, &frames);
    assert_eq!(value(&told.body)["revision"], 1);
    assert_eq!(value(&told.body)["frames"].as_array().unwrap().len(), 1);
    assert_eq!(session_saved_reply(Ok(true), "s", 1, &frames).status, OK);
    let lost = session_saved_reply(Ok(false), "s", 1, &frames);
    assert_eq!(lost.status, CONFLICT);
    assert_eq!(
        error_of(&lost),
        "session revision changed before this update could be persisted"
    );
    assert_eq!(session_reply("s", &None).status, NOT_FOUND);
    assert_eq!(value(&session_reply("s", &session(4)).body)["revision"], 4);
    let config = no_settings();
    let input = session_solve_input(
        session(4), "s", None, None, None, &config, "fresh", "99999999-9999-4999-8999-999999999999",
    )
    .unwrap();
    assert_eq!(input.revision, 4);
    let none = session_solve_input(None, "s", None, None, None, &config, "f", "g").unwrap_err();
    assert_eq!(error_of(&none), "session not found");
    let empty = Some(LiveSession { problem: None, revision: 0 });
    let unready = session_solve_input(empty, "s", None, None, None, &config, "f", "g").unwrap_err();
    assert_eq!(error_of(&unready), "session has no initialized problem");
}

#[test]
fn cancel_and_delete_endpoints_follow_the_registry() {
    let problem = "99999999-9999-4999-8999-999999999999";
    let mut solves = Table::new();
    solves.insert("s".to_string(), solve("s", "r", Some(problem), "running", 10));
    let mut cancels: Table<CancelInfo> = Table::new();
    let (reply, info) =
        cancel_solve_key(&mut solves, &mut cancels, NodeRole::Master, "n", "r", None, None, 50);
    assert_eq!(reply.status, ACCEPTED);
    assert_eq!(value(&reply.body)["status"], "cancelling");
    let info = info.unwrap();
    assert_eq!(info.solve_id, "s");
    assert_eq!(info.reason, "cancel requested by client");
    assert_eq!(info.requested_by, "n");
    let (missing, none) =
        cancel_solve_key(&mut solves, &mut cancels, NodeRole::Master, "n", "x", None, None, 50);
    assert_eq!(missing.status, NOT_FOUND);
    assert!(none.is_none());
    let (slave, _) =
        cancel_solve_key(&mut solves, &mut cancels, NodeRole::Slave, "n", "r", None, None, 50);
    assert_eq!(slave.status, CONFLICT);

    assert!(clean_up_solve(&mut solves, &mut cancels, "s").is_none());
    let mut done = Table::new();
    let mut ended = solve("s", "r", Some(problem), "optimal", 10);
    ended.finished_at_ms = Some(20);
    done.insert("s".to_string(), ended);
    let cleaned = clean_up_solve(&mut done, &mut cancels, problem).unwrap();
    assert_eq!(cleaned.status, OK);
    assert_eq!(value(&cleaned.body)["previousStatus"], "optimal");
    assert_eq!(done.len(), 0);
}

#[test]
fn models_are_written_with_their_names() {
    let mut model = knapsack();
    let plain = value(&model_document(&model));
    assert_eq!(plain["c"][1], 40.0);
    assert_eq!(plain["integerVars"][0], true);
    assert_eq!(plain["sense"], "max");
    model.var_names = Some(vec!["x".to_string(), "y".to_string()]);
    assert_eq!(value(&model_document(&model))["varNames"][1], "y");
}

// Storage.

fn tables() -> TableNames {
    TableNames {
        sessions: "mip_solver_sessions".to_string(),
        solves: "mip_solver_solves".to_string(),
        jobs: "mip_solver_jobs".to_string(),
        events: "mip_solver_events".to_string(),
    }
}

fn contract_uses_tables_and_redis_namespace() {
    let contract = persistence_contract(
        &no_settings(),
        tables(),
        "dd:container-pool:affinity:mip-solver:lock".to_string(),
    );

    assert_eq!(contract.postgres.session_table, "mip_solver_sessions");
    assert_eq!(contract.postgres.solve_table, "mip_solver_solves");
    assert_eq!(contract.postgres.job_table, "mip_solver_jobs");
    assert_eq!(contract.postgres.event_table, "mip_solver_events");
    assert!(contract
        .postgres
        .journal_kinds
        .contains(&"mip-solver.subproblem-split".to_string()));
    assert_eq!(
        mip_solver_solve_snapshot_key("dd:mip-solver", "solve-a"),
        "dd:mip-solver:solve:solve-a:snapshot"
    );
    assert_eq!(
        mip_solver_session_model_key("dd:mip-solver", "session-a"),
        "dd:mip-solver:session:session-a:model"
    );
    assert!(contract
        .redis
        .generated_mutex_key
        .contains("dd:container-pool:affinity:mip-solver"));
    assert_eq!(contract.mode, "in-memory-only");
    let document = value(&persistence_document(&contract));
    assert_eq!(document["postgres"]["jobTable"], "mip_solver_jobs");
    assert_eq!(document["redis"]["keyPrefix"], "dd:mip-solver");
}

#[test]
fn main_persistence_contract_uses_generated_mip_pg_defs_and_redis_namespace() {
    contract_uses_tables_and_redis_namespace();
}

#[test]
fn tests_persistence_contract_uses_generated_mip_pg_defs_and_redis_namespace() {
    contract_uses_tables_and_redis_namespace();
}

#[test]
fn stored_rows_fit_their_columns() {
    let entry = solve("s", "r", None, "running", 1);
    let columns = solve_columns(&entry);
    assert_eq!(columns.expected, 2);
    assert_eq!(columns.published, i32::MAX);
    assert_eq!(revision_column(12), 12);
    let job = lp_job("s", "r", "p", 3, "n", &knapsack(), &SolveOptions::default(), 9);
    assert_eq!(job.job_id, "s-lp");
    let mut again = job.clone();
    again.job_id = "s-lp-retry-2".to_string();
    let columns = submitted_columns(&again);
    assert_eq!(columns.root_job_id, "s-lp");
    assert_eq!(columns.retry_index, 2);
    let result = mip_solver_node::jobs::SubproblemResult {
        solve_id: "s".to_string(),
        request_id: "r".to_string(),
        job_id: "s-0-retry-1".to_string(),
        job_uuid: "u".to_string(),
        problem_id: None,
        revision: 0,
        worker_node: "w".to_string(),
        ok: false,
        status: "error".to_string(),
        z: None,
        x: vec![],
        best_bound: None,
        gap: None,
        lp: None,
        child_jobs: vec![],
        nodes_explored: 0,
        lp_solves: 0,
        elapsed_ms: d(0.0),
        accelerator: mip_solver_node::accelerator::AcceleratorReport::default(),
        error: None,
        finished_at_ms: 1,
    };
    assert_eq!(result_columns(&result).retry_index, 1);
    assert_eq!(stored_job_status(&result, false), "retrying");
    assert_eq!(stored_job_status(&result, true), "error");
    assert_eq!(result_event_kind(&result, true), "mip-solver.subproblem-finished");
    assert_eq!(result_event_kind(&result, false), "mip-solver.subproblem-retrying");
}

#[test]
fn solves_are_named_and_locked() {
    assert_eq!(solve_name("x"), "solve-x");
    let id = new_solve_id();
    assert!(uuid::Uuid::parse_str(id.strip_prefix("solve-").unwrap()).is_ok());
    assert!(matches!(after_storage(None), Storage::Stored));
    match after_storage(Some("Redis down".to_string())) {
        Storage::Embedded(warning) => assert_eq!(
            warning,
            "problem model storage unavailable; embedding problem in jobs: Redis down"
        ),
        other => panic!("unexpected {other:?}"),
    }
    assert!(matches!(
        after_storage(Some("stored problem p revision 0 already exists with a different model".to_string())),
        Storage::Refused(_)
    ));
    let options = SolveOptions { timeout_ms: Some(1_000), ..SolveOptions::default() };
    assert!(solve_lock_ttl(&options, &no_settings()) > 1_000);
}

// Settings.

#[test]
fn settings_have_fallbacks_and_maxima() {
    let config = settings(&[
        ("TEXT", "some text"),
        ("NUMBER", "42"),
        ("ZERO", "0"),
        ("FLAG", "true"),
        ("RATIO", "0.5"),
    ]);
    assert_eq!(env_value(&config, "MISSING", "fallback"), "fallback");
    assert_eq!(env_value(&config, "TEXT", "fallback"), "some text");
    assert_eq!(optional_env_value(&config, "TEXT").as_deref(), Some("some text"));
    assert_eq!(optional_env_value(&config, "MISSING"), None);
    assert_eq!(env_u64(&config, "NUMBER", 1), 42);
    assert_eq!(env_u64(&config, "MISSING", 1), 1);
    assert_eq!(env_usize(&config, "TEXT", 7), 7);
    assert_eq!(env_usize_allow_zero(&config, "ZERO", 7), 0);
    assert_eq!(env_f64(&config, "RATIO", d(1.0)), d(0.5));
    assert!(env_bool(&config, "FLAG", false));
    assert!(env_bool(&config, "MISSING", true));
    assert_eq!(first_configured_env(&config, &["MISSING", "ABSENT", "NUMBER"]).as_deref(), Some("NUMBER"));
    assert_eq!(first_configured_env_value(&config, &["MISSING", "NUMBER"]).as_deref(), Some("42"));
    assert_eq!(capped_env_usize(&config, "NUMBER", 1, 10), 10);
    assert_eq!(capped_env_usize_allow_zero(&config, "ZERO", 1, 10), 0);
    assert_eq!(max_http_body_bytes(&config), 16_777_216);
    assert_eq!(max_stream_commands(&config), 2_000);
    assert_eq!(model_limits(&config).max_vars, 10_000);
    assert_eq!(cancel_poll_interval(&config), 10);
    assert_eq!(worker_stale_after(&config), 100);
    assert_eq!(runtime_task_retention_ms(&config), 3_600_000);
    assert!(is_false(&false));
    assert_eq!(NodeRole::from_env(&settings(&[("MIP_SOLVER_NODE_ROLE", "WORKER")])), NodeRole::Slave);
    assert_eq!(NodeRole::from_env(&config), NodeRole::Master);
    assert_eq!(NodeRole::Slave.as_str(), "slave");
}

#[test]
fn nodes_start_with_a_name_and_an_address() {
    let config = settings(&[("POD_NAME", "pod-1"), ("PORT", "8117")]);
    assert_eq!(node_id(&config), "pod-1");
    assert_eq!(node_id_with(&no_settings(), "fresh"), format!("{SERVICE_NAME}-fresh"));
    assert_ne!(node_id(&no_settings()), node_id(&no_settings()));
    assert_eq!(listen_address(&config), "0.0.0.0:8117");
    assert_eq!(listen_address(&no_settings()), "0.0.0.0:8097");
    assert_eq!(connect_attempts(&config), 60);
    assert_eq!(connect_retry_seconds(&config), 2);
    assert_eq!(database_pool_size(&config), 4);
    assert_eq!(cache_ttl_seconds(&config), 86_400);
    let named = subjects(
        &settings(&[("MIP_SOLVER_JOBS_SUBJECT", "custom")]),
        &facts(NodeRole::Master, true).subjects,
    );
    assert_eq!(named.jobs, "custom");
    assert_eq!(named.results, "results");
}

#[test]
fn role_names_read_back() {
    for role in [NodeRole::Master, NodeRole::Slave] {
        let config = settings(&[("MIP_SOLVER_NODE_ROLE", role.as_str())]);
        assert_eq!(NodeRole::from_env(&config).as_str(), role.as_str());
    }
    assert_eq!(NodeRole::from_env(&settings(&[("MIP_SOLVER_NODE_ROLE", "Worker")])).as_str(), "slave");
    assert_eq!(NodeRole::from_env(&no_settings()).as_str(), "master");
}
