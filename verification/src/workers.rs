//! The workers that a master hears of, and the control frames that they and other
//! nodes send.

use crate::cancel::{
    cancellation_for, cancelling, resolve_solve_id, resolves, CancelInfo, Cancellation,
    Cancellations,
};
use crate::config::{stale_seconds, worker_stale_after, RuntimeConfig};
use crate::ids::{canonical_uuid, parse_uuid};
use crate::job_tracking::{
    after_progress, elapsed, elapsed_ms, first_of, present_or, time_field,
    track_job_worker_progress, value_str, value_u128,
};
use crate::json::Json;
use crate::model::text_view;
use crate::listing::{lists, sorted_values};
use crate::order::{
    in_order, is_text_before, text_before, text_order_is_total, text_order_is_transitive, views,
    Ranked,
};
use crate::registry::{SolveEntry, SolveRegistryEntry, Solves};
use crate::service::SERVICE_NAME;
use crate::table::{Duplicate, Table};
use crate::text::{same, trim, trimmed};
use vstd::prelude::*;
use vstd::string::*;

verus! {

/// A job at a worker.
#[derive(Debug)]
pub struct WorkerJobStatus {
    pub job_id: String,
    pub job_uuid: Option<String>,
    pub solve_id: String,
    pub problem_id: Option<String>,
    pub status: String,
    pub started_at_ms: u128,
    pub last_seen_ms: u128,
}

/// The contents of a job at a worker.
#[verifier::ext_equal]
pub struct WorkerJob {
    pub job_id: Seq<char>,
    pub job_uuid: Option<Seq<char>>,
    pub solve_id: Seq<char>,
    pub problem_id: Option<Seq<char>>,
    pub status: Seq<char>,
    pub started_at_ms: u128,
    pub last_seen_ms: u128,
}

impl View for WorkerJobStatus {
    type V = WorkerJob;

    open spec fn view(&self) -> WorkerJob {
        WorkerJob {
            job_id: self.job_id@,
            job_uuid: text_view(self.job_uuid),
            solve_id: self.solve_id@,
            problem_id: text_view(self.problem_id),
            status: self.status@,
            started_at_ms: self.started_at_ms,
            last_seen_ms: self.last_seen_ms,
        }
    }
}

impl Clone for WorkerJobStatus {
    fn clone(&self) -> (r: Self)
        ensures
            r@ == self@,
    {
        WorkerJobStatus {
            job_id: self.job_id.clone(),
            job_uuid: self.job_uuid.clone(),
            solve_id: self.solve_id.clone(),
            problem_id: self.problem_id.clone(),
            status: self.status.clone(),
            started_at_ms: self.started_at_ms,
            last_seen_ms: self.last_seen_ms,
        }
    }
}

/// What is known of a worker.
#[derive(Debug)]
pub struct WorkerNodeStatus {
    pub node_id: String,
    pub last_command: String,
    pub consumer: Option<String>,
    pub jobs_subject: Option<String>,
    pub results_subject: Option<String>,
    pub last_job_id: Option<String>,
    pub last_solve_id: Option<String>,
    pub last_status: Option<String>,
    pub ready_at_ms: Option<u128>,
    pub last_seen_ms: u128,
    pub request_count: u64,
    pub completed_count: u64,
    pub active_jobs: Table<WorkerJobStatus>,
}

/// The contents of what is known of a worker.
#[verifier::ext_equal]
pub struct Worker {
    pub node_id: Seq<char>,
    pub last_command: Seq<char>,
    pub consumer: Option<Seq<char>>,
    pub jobs_subject: Option<Seq<char>>,
    pub results_subject: Option<Seq<char>>,
    pub last_job_id: Option<Seq<char>>,
    pub last_solve_id: Option<Seq<char>>,
    pub last_status: Option<Seq<char>>,
    pub ready_at_ms: Option<u128>,
    pub last_seen_ms: u128,
    pub request_count: u64,
    pub completed_count: u64,
    pub active_jobs: Map<Seq<char>, WorkerJob>,
}

impl View for WorkerNodeStatus {
    type V = Worker;

    open spec fn view(&self) -> Worker {
        Worker {
            node_id: self.node_id@,
            last_command: self.last_command@,
            consumer: text_view(self.consumer),
            jobs_subject: text_view(self.jobs_subject),
            results_subject: text_view(self.results_subject),
            last_job_id: text_view(self.last_job_id),
            last_solve_id: text_view(self.last_solve_id),
            last_status: text_view(self.last_status),
            ready_at_ms: self.ready_at_ms,
            last_seen_ms: self.last_seen_ms,
            request_count: self.request_count,
            completed_count: self.completed_count,
            active_jobs: self.active_jobs@,
        }
    }
}

impl Duplicate for WorkerJobStatus {
    fn duplicate(&self) -> (r: Self) {
        self.clone()
    }
}

impl Clone for WorkerNodeStatus {
    fn clone(&self) -> (r: Self)
        ensures
            r@ == self@,
    {
        WorkerNodeStatus {
            node_id: self.node_id.clone(),
            last_command: self.last_command.clone(),
            consumer: self.consumer.clone(),
            jobs_subject: self.jobs_subject.clone(),
            results_subject: self.results_subject.clone(),
            last_job_id: self.last_job_id.clone(),
            last_solve_id: self.last_solve_id.clone(),
            last_status: self.last_status.clone(),
            ready_at_ms: self.ready_at_ms,
            last_seen_ms: self.last_seen_ms,
            request_count: self.request_count,
            completed_count: self.completed_count,
            active_jobs: self.active_jobs.duplicate(),
        }
    }
}

/// A worker of which nothing has been heard.
pub open spec fn new_worker(node_id: Seq<char>) -> Worker {
    Worker {
        node_id,
        last_command: Seq::empty(),
        consumer: None,
        jobs_subject: None,
        results_subject: None,
        last_job_id: None,
        last_solve_id: None,
        last_status: None,
        ready_at_ms: None,
        last_seen_ms: 0,
        request_count: 0,
        completed_count: 0,
        active_jobs: Map::empty(),
    }
}

fn unheard_worker(node_id: String) -> (r: WorkerNodeStatus)
    ensures
        r@ == new_worker(node_id@),
{
    let r = WorkerNodeStatus {
        node_id,
        last_command: String::new(),
        consumer: None,
        jobs_subject: None,
        results_subject: None,
        last_job_id: None,
        last_solve_id: None,
        last_status: None,
        ready_at_ms: None,
        last_seen_ms: 0,
        request_count: 0,
        completed_count: 0,
        active_jobs: Table::new(),
    };
    assert(r@ =~= new_worker(node_id@));
    r
}

/// The workers of which a master knows.
pub type Workers = Map<Seq<char>, Worker>;

/// Whether a worker has been heard of lately.
pub open spec fn is_current(w: Worker, at: u128, stale_after_ms: int) -> bool {
    elapsed(at, w.last_seen_ms) <= stale_after_ms
}

/// The time after which a silent worker is stale, in milliseconds.
pub open spec fn stale_ms(config: RuntimeConfig) -> int {
    stale_seconds(config) * 1000
}

/// The workers that have been heard of lately.
pub open spec fn current_workers(workers: Workers, at: u128, stale_after_ms: int) -> Workers {
    Map::new(
        |k: Seq<char>| workers.contains_key(k) && is_current(workers[k], at, stale_after_ms),
        |k: Seq<char>| workers[k],
    )
}

/// Forgets the workers that have been silent for too long.
pub fn retain_current_workers(
    workers: &mut Table<WorkerNodeStatus>,
    observed_at_ms: u128,
    config: &RuntimeConfig,
)
    ensures
        final(workers)@ == current_workers(old(workers)@, observed_at_ms, stale_ms(*config)),
{
    let stale_after_ms: u128 = worker_stale_after(config) as u128 * 1000;
    let ghost limit = stale_ms(*config);
    proof {
        use_type_invariant(&*workers);
        workers.order_is_contents();
    }
    let ghost before = workers@;
    let ghost order = workers.order();
    let mut silent: Vec<String> = Vec::new();
    let n: usize = workers.len();
    let mut i: usize = 0;
    while i < n
        invariant
            i <= n,
            n == order.len(),
            order == workers.order(),
            workers@ == before,
            stale_after_ms == limit,
            forall|j: int|
                0 <= j < n ==> before.contains_key((#[trigger] order[j]).0)
                    && before[order[j].0] == order[j].1,
            forall|p: int|
                0 <= p < silent@.len() ==> before.contains_key(#[trigger] silent@[p]@)
                    && !is_current(before[silent@[p]@], observed_at_ms, limit),
            forall|j: int|
                0 <= j < i && !is_current((#[trigger] order[j]).1, observed_at_ms, limit)
                    ==> exists|p: int| 0 <= p < silent@.len() && #[trigger] silent@[p]@ == order[j].0,
        decreases n - i,
    {
        let ghost known = silent@;
        if elapsed_ms(observed_at_ms, workers.value_at(i).last_seen_ms) > stale_after_ms {
            silent.push(workers.key_at(i).clone());
        }
        assert forall|j: int|
            0 <= j < i + 1 && !is_current(
                (#[trigger] order[j]).1,
                observed_at_ms,
                limit,
            ) implies exists|p: int| 0 <= p < silent@.len() && #[trigger] silent@[p]@
            == order[j].0 by {
            if j < i {
                let p = choose|p: int| 0 <= p < known.len() && #[trigger] known[p]@ == order[j].0;
                assert(silent@[p]@ == order[j].0);
            } else {
                assert(silent@[silent@.len() - 1]@ == order[j].0);
            }
        }
        i = i + 1;
    }
    workers.remove_all(&silent);
    proof {
        assert forall|k: Seq<char>| #[trigger] workers@.contains_key(k) <==> before.contains_key(
            k,
        ) && is_current(before[k], observed_at_ms, limit) by {
            if before.contains_key(k) {
                let j = choose|j: int| 0 <= j < order.len() && #[trigger] order[j].0 == k;
                assert(before[k] == order[j].1);
                if !is_current(before[k], observed_at_ms, limit) {
                    let q = choose|q: int|
                        0 <= q < silent@.len() && #[trigger] silent@[q]@ == order[j].0;
                    assert(silent@[q]@ == k);
                }
            }
        }
        assert(workers@ =~= current_workers(before, observed_at_ms, limit));
    }
}

impl Ranked for WorkerNodeStatus {
    open spec fn goes_before(a: Worker, b: Worker) -> bool {
        text_before(a.node_id, b.node_id)
    }

    proof fn is_an_order(a: Worker, b: Worker, c: Worker) {
        text_order_is_total(a.node_id, b.node_id);
        text_order_is_total(a.node_id, c.node_id);
        text_order_is_total(b.node_id, c.node_id);
        if text_before(a.node_id, b.node_id) && text_before(b.node_id, c.node_id) {
            text_order_is_transitive(a.node_id, b.node_id, c.node_id);
        }
    }

    fn is_before(&self, other: &Self) -> (r: bool) {
        is_text_before(self.node_id.as_str(), other.node_id.as_str())
    }
}

impl Duplicate for WorkerNodeStatus {
    fn duplicate(&self) -> (r: Self) {
        self.clone()
    }
}

/// The workers that have been heard of lately, by identifier; the others are
/// forgotten.
pub fn current_worker_snapshot(
    workers: &mut Table<WorkerNodeStatus>,
    now: u128,
    config: &RuntimeConfig,
) -> (r: Vec<WorkerNodeStatus>)
    ensures
        final(workers)@ == current_workers(old(workers)@, now, stale_ms(*config)),
        in_order::<WorkerNodeStatus>(views(r@)),
        exists|keys: Seq<Seq<char>>| #[trigger] lists(views(r@), keys, final(workers)@),
{
    retain_current_workers(workers, now, config);
    sorted_values(workers)
}

/// The payload of a frame.
pub open spec fn payload_of(frame: Json) -> Json {
    present_or(frame.field("payload"@), Json::Null)
}

/// Whether a frame comes from this service.
pub open spec fn is_ours(frame: Json) -> bool {
    frame.text_field("service"@) == Some(SERVICE_NAME@)
}

fn has_text_field(value: &Json, key: &str, text: &str) -> (r: bool)
    ensures
        r == (value.text_field(key@) == Some(text@)),
{
    match value.get(key) {
        Some(v) => match v.as_text() {
            Some(s) => same(s, text),
            None => false,
        },
        None => false,
    }
}

/// The key under which a job stands at its worker.
pub open spec fn job_key(payload: Json) -> Option<Seq<char>> {
    first_of(payload.text_field("jobUuid"@), payload.text_field("jobId"@))
}

/// The key under which a job stands at its worker.
pub fn payload_job_key(payload: &Json) -> (r: Option<String>)
    ensures
        text_view(r) == job_key(*payload),
{
    match value_str(payload, "jobUuid") {
        Some(s) => Some(s),
        None => value_str(payload, "jobId"),
    }
}

/// The job that a payload tells of.
pub open spec fn job_of_payload(payload: Json, status: Seq<char>, seen_at: u128) -> Option<
    WorkerJob,
> {
    match (payload.text_field("jobId"@), payload.text_field("solveId"@)) {
        (Some(job_id), Some(solve_id)) => Some(
            WorkerJob {
                job_id,
                job_uuid: payload.text_field("jobUuid"@),
                solve_id,
                problem_id: payload.text_field("problemId"@),
                status,
                started_at_ms: present_or(time_field(payload, "startedAtMs"@), seen_at),
                last_seen_ms: seen_at,
            },
        ),
        _ => None,
    }
}

/// The job that a payload tells of.
pub fn worker_job_status_from_payload(payload: &Json, status: &str, seen_at: u128) -> (r: Option<
    WorkerJobStatus,
>)
    ensures
        match r {
            Some(j) => job_of_payload(*payload, status@, seen_at) == Some(j@),
            None => job_of_payload(*payload, status@, seen_at) is None,
        },
{
    let job_id = match value_str(payload, "jobId") {
        Some(s) => s,
        None => {
            return None;
        },
    };
    let solve_id = match value_str(payload, "solveId") {
        Some(s) => s,
        None => {
            return None;
        },
    };
    let started: u128 = match value_u128(payload, "startedAtMs") {
        Some(t) => t,
        None => seen_at,
    };
    let j = WorkerJobStatus {
        job_id,
        job_uuid: value_str(payload, "jobUuid"),
        solve_id,
        problem_id: value_str(payload, "problemId"),
        status: status.to_owned(),
        started_at_ms: started,
        last_seen_ms: seen_at,
    };
    assert(Some(j@) == job_of_payload(*payload, status@, seen_at));
    Some(j)
}

/// One more, as far as the number goes.
pub open spec fn one_more_u64(n: u64) -> u64 {
    if n < u64::MAX {
        (n + 1) as u64
    } else {
        n
    }
}

/// A worker that works on the job of a payload.
pub open spec fn working(w: Worker, payload: Json, seen_at: u128) -> Worker {
    match job_of_payload(payload, "running"@, seen_at) {
        Some(j) => Worker {
            last_job_id: Some(j.job_id),
            last_solve_id: Some(j.solve_id),
            last_status: Some(j.status),
            active_jobs: w.active_jobs.insert(present_or(j.job_uuid, j.job_id), j),
            ..w
        },
        None => w,
    }
}

/// A worker that is done with the job of a payload.
pub open spec fn done_with(w: Worker, payload: Json, status: Option<Seq<char>>) -> Worker {
    Worker {
        last_job_id: payload.text_field("jobId"@),
        last_solve_id: payload.text_field("solveId"@),
        last_status: status,
        active_jobs: match job_key(payload) {
            Some(k) => w.active_jobs.remove(k),
            None => w.active_jobs,
        },
        ..w
    }
}

/// Whether a command tells that a worker gave a job up for a cancellation.
pub open spec fn gives_up(command: Seq<char>) -> bool {
    command == "worker-skipped-cancelled"@ || command == "worker-stopped-cancelled"@ || command
        == "worker-discarded-cancelled-result"@
}

/// A worker after a frame, before its command is carried out.
pub open spec fn heard(w: Worker, command: Seq<char>, payload: Json, seen_at: u128) -> Worker {
    Worker {
        last_command: command,
        last_seen_ms: seen_at,
        consumer: first_of(payload.text_field("consumer"@), w.consumer),
        jobs_subject: first_of(payload.text_field("jobsSubject"@), w.jobs_subject),
        results_subject: first_of(payload.text_field("resultsSubject"@), w.results_subject),
        ..w
    }
}

/// A worker after a frame.
pub open spec fn after_frame(w: Worker, command: Seq<char>, payload: Json, seen_at: u128) -> Worker {
    let w = heard(w, command, payload, seen_at);
    if command == "worker-ready"@ {
        Worker {
            ready_at_ms: match w.ready_at_ms {
                Some(t) => Some(t),
                None => Some(seen_at),
            },
            ..w
        }
    } else if command == "request-work"@ {
        working(Worker { request_count: one_more_u64(w.request_count), ..w }, payload, seen_at)
    } else if command == "worker-progress"@ {
        working(w, payload, seen_at)
    } else if command == "worker-completed"@ {
        done_with(
            Worker { completed_count: one_more_u64(w.completed_count), ..w },
            payload,
            payload.text_field("status"@),
        )
    } else if gives_up(command) {
        done_with(w, payload, Some("cancelled"@))
    } else {
        w
    }
}

fn note_work(worker: &mut WorkerNodeStatus, payload: &Json, seen_at: u128)
    ensures
        final(worker)@ == working(old(worker)@, *payload, seen_at),
{
    let ghost before = worker@;
    if let Some(job) = worker_job_status_from_payload(payload, "running", seen_at) {
        let key = match &job.job_uuid {
            Some(u) => u.clone(),
            None => job.job_id.clone(),
        };
        worker.last_job_id = Some(job.job_id.clone());
        worker.last_solve_id = Some(job.solve_id.clone());
        worker.last_status = Some(job.status.clone());
        worker.active_jobs.insert(key, job);
        assert(worker@ =~= working(before, *payload, seen_at));
    }
}

fn note_done(worker: &mut WorkerNodeStatus, payload: &Json, status: Option<String>)
    ensures
        final(worker)@ == done_with(old(worker)@, *payload, text_view(status)),
{
    let ghost before = worker@;
    worker.last_job_id = value_str(payload, "jobId");
    worker.last_solve_id = value_str(payload, "solveId");
    worker.last_status = status;
    if let Some(key) = payload_job_key(payload) {
        worker.active_jobs.remove(key.as_str());
    }
    assert(worker@ =~= done_with(before, *payload, text_view(status)));
}

fn note_frame(worker: &mut WorkerNodeStatus, command: &str, payload: &Json, seen_at: u128)
    ensures
        final(worker)@ == after_frame(old(worker)@, command@, *payload, seen_at),
{
    let ghost before = worker@;
    worker.last_command = command.to_owned();
    worker.last_seen_ms = seen_at;
    if let Some(s) = value_str(payload, "consumer") {
        worker.consumer = Some(s);
    }
    if let Some(s) = value_str(payload, "jobsSubject") {
        worker.jobs_subject = Some(s);
    }
    if let Some(s) = value_str(payload, "resultsSubject") {
        worker.results_subject = Some(s);
    }
    assert(worker@ =~= heard(before, command@, *payload, seen_at));
    if same(command, "worker-ready") {
        if worker.ready_at_ms.is_none() {
            worker.ready_at_ms = Some(seen_at);
        }
        assert(worker@ =~= after_frame(before, command@, *payload, seen_at));
    } else if same(command, "request-work") {
        if worker.request_count < u64::MAX {
            worker.request_count = worker.request_count + 1;
        }
        note_work(worker, payload, seen_at);
    } else if same(command, "worker-progress") {
        note_work(worker, payload, seen_at);
    } else if same(command, "worker-completed") {
        if worker.completed_count < u64::MAX {
            worker.completed_count = worker.completed_count + 1;
        }
        note_done(worker, payload, value_str(payload, "status"));
    } else if same(command, "worker-skipped-cancelled") || same(
        command,
        "worker-stopped-cancelled",
    ) || same(command, "worker-discarded-cancelled-result") {
        note_done(worker, payload, Some("cancelled".to_owned()));
    }
}

/// Once a worker tells that it is done with a job, the job is no longer among those
/// it works on; and a frame about one job leaves every other job of the worker as
/// it was.
pub proof fn frames_change_one_job(w: Worker, command: Seq<char>, payload: Json, seen_at: u128)
    ensures
        (command == "worker-completed"@ || gives_up(command)) && job_key(payload) is Some
            ==> !after_frame(w, command, payload, seen_at).active_jobs.contains_key(
            job_key(payload)->0,
        ),
        forall|k: Seq<char>|
            job_key(payload) != Some(k) ==> {
                let after = after_frame(w, command, payload, seen_at).active_jobs;
                &&& after.contains_key(k) == #[trigger] w.active_jobs.contains_key(k)
                &&& after.contains_key(k) ==> after[k] == w.active_jobs[k]
            },
{
    commands_differ();
}

proof fn commands_differ()
    ensures
        "worker-completed"@ != "worker-ready"@,
        "worker-completed"@ != "request-work"@,
        "worker-completed"@ != "worker-progress"@,
        !gives_up("worker-ready"@),
        !gives_up("request-work"@),
        !gives_up("worker-progress"@),
{
    reveal_strlit("worker-completed");
    reveal_strlit("worker-ready");
    reveal_strlit("request-work");
    reveal_strlit("worker-progress");
    reveal_strlit("worker-skipped-cancelled");
    reveal_strlit("worker-stopped-cancelled");
    reveal_strlit("worker-discarded-cancelled-result");
    assert("worker-completed"@.len() == 16);
    assert("worker-ready"@.len() == 12);
    assert("request-work"@.len() == 12);
    assert("worker-progress"@.len() == 15);
    assert("worker-skipped-cancelled"@.len() == 24);
    assert("worker-stopped-cancelled"@.len() == 24);
    assert("worker-discarded-cancelled-result"@.len() == 33);
}

/// What a frame tells of a worker.
pub enum WorkerFrame {
    /// It comes from elsewhere.
    Foreign,
    /// It lacks a field.
    Broken(Seq<char>),
    /// What its sender did, and when.
    Heard { node_id: Seq<char>, command: Seq<char>, payload: Json, seen_at: u128 },
}

/// What a frame tells of a worker.
pub open spec fn worker_frame(frame: Json, now: u128) -> WorkerFrame {
    if !is_ours(frame) {
        WorkerFrame::Foreign
    } else {
        match (frame.text_field("nodeId"@), frame.text_field("commandName"@)) {
            (None, _) => WorkerFrame::Broken("control frame missing nodeId"@),
            (_, None) => WorkerFrame::Broken("control frame missing commandName"@),
            (Some(node_id), Some(command)) => WorkerFrame::Heard {
                node_id,
                command,
                payload: payload_of(frame),
                seen_at: present_or(time_field(frame, "timeMs"@), now),
            },
        }
    }
}

/// The workers after a frame.
pub open spec fn workers_after(
    workers: Workers,
    node_id: Seq<char>,
    command: Seq<char>,
    payload: Json,
    seen_at: u128,
    stale_after_ms: int,
) -> Workers {
    let current = current_workers(workers, seen_at, stale_after_ms);
    let w = if current.contains_key(node_id) {
        current[node_id]
    } else {
        new_worker(node_id)
    };
    current.insert(node_id, after_frame(w, command, payload, seen_at))
}

/// Whether a command tells of work on a job.
pub open spec fn tells_of_work(command: Seq<char>) -> bool {
    command == "request-work"@ || command == "worker-progress"@
}

/// Takes in a control frame of a worker.
pub fn record_worker_control_frame(
    workers: &mut Table<WorkerNodeStatus>,
    solves: &mut Table<SolveRegistryEntry>,
    frame: &Json,
    now: u128,
    config: &RuntimeConfig,
) -> (r: Result<(), String>)
    ensures
        match worker_frame(*frame, now) {
            WorkerFrame::Foreign => {
                &&& r is Ok
                &&& final(workers)@ == old(workers)@
                &&& final(solves)@ == old(solves)@
            },
            WorkerFrame::Broken(e) => {
                &&& r is Err
                &&& r->Err_0@ == e
                &&& final(workers)@ == old(workers)@
                &&& final(solves)@ == old(solves)@
            },
            WorkerFrame::Heard { node_id, command, payload, seen_at } => {
                &&& r is Ok
                &&& final(workers)@ == workers_after(
                    old(workers)@,
                    node_id,
                    command,
                    payload,
                    seen_at,
                    stale_ms(*config),
                )
                &&& final(solves)@ == if tells_of_work(command) {
                    after_progress(old(solves)@, node_id, payload, seen_at)
                } else {
                    old(solves)@
                }
            },
        },
{
    if !has_text_field(frame, "service", SERVICE_NAME) {
        return Ok(());
    }
    let node_id = match value_str(frame, "nodeId") {
        Some(s) => s,
        None => {
            return Err("control frame missing nodeId".to_owned());
        },
    };
    let command = match value_str(frame, "commandName") {
        Some(s) => s,
        None => {
            return Err("control frame missing commandName".to_owned());
        },
    };
    let none = Json::Null;
    let payload = match frame.get("payload") {
        Some(p) => p,
        None => &none,
    };
    let seen_at: u128 = match value_u128(frame, "timeMs") {
        Some(t) => t,
        None => now,
    };
    retain_current_workers(workers, seen_at, config);
    let ghost current = workers@;
    let mut worker = match workers.remove(node_id.as_str()) {
        Some(w) => w,
        None => unheard_worker(node_id.clone()),
    };
    note_frame(&mut worker, command.as_str(), payload, seen_at);
    workers.insert(node_id.clone(), worker);
    assert(workers@ =~= current.insert(node_id@, worker@));
    if same(command.as_str(), "request-work") || same(command.as_str(), "worker-progress") {
        track_job_worker_progress(solves, node_id.as_str(), payload, seen_at);
    }
    Ok(())
}

/// Whether a frame asks for a cancellation.
pub open spec fn is_cancel_frame(frame: Json) -> bool {
    is_ours(frame) && frame.text_field("commandName"@) == Some("cancel-solve"@)
}

/// The problem that a cancel frame names.
pub open spec fn named_problem(payload: Json) -> Result<Option<Seq<char>>, Seq<char>> {
    match payload.text_field("problemId"@) {
        None => Ok(None),
        Some(s) => match canonical_uuid(trimmed(s)) {
            Some(u) => Ok(Some(u)),
            None => Err("cancel frame problemId must be a UUID"@),
        },
    }
}

/// The solve that a cancel frame is about, given which solve the registry has
/// under the problem, or else the request, that the frame names.
pub open spec fn cancel_target(
    payload: Json,
    problem_id: Option<Seq<char>>,
    found: Option<Seq<char>>,
) -> Result<Seq<char>, Seq<char>> {
    match payload.text_field("solveId"@) {
        Some(id) => Ok(id),
        None => match first_of(problem_id, payload.text_field("requestId"@)) {
            None => Err("cancel frame missing solveId, problemId, or requestId"@),
            Some(key) => match (found, problem_id) {
                (Some(id), _) => Ok(id),
                (None, Some(p)) => Ok(p),
                (None, None) => Err("cancel frame target not found: "@ + key),
            },
        },
    }
}

/// The time at which a frame asks for a cancellation.
pub open spec fn cancel_time(frame: Json, now: u128) -> u128 {
    present_or(
        first_of(time_field(payload_of(frame), "requestedAtMs"@), time_field(frame, "timeMs"@)),
        now,
    )
}

/// The reason that a frame gives for a cancellation.
pub open spec fn cancel_reason(frame: Json) -> Seq<char> {
    present_or(payload_of(frame).text_field("reason"@), "cancel requested"@)
}

/// Who asks for a cancellation.
pub open spec fn cancel_sender(frame: Json) -> Seq<char> {
    present_or(
        first_of(payload_of(frame).text_field("requestedBy"@), frame.text_field("nodeId"@)),
        "unknown"@,
    )
}

/// The registry after a cancel frame about a solve.
pub open spec fn solves_after_cancel(solves: Solves, id: Seq<char>, frame: Json, now: u128) -> Solves {
    if solves.contains_key(id) {
        solves.insert(
            id,
            SolveEntry {
                updated_at_ms: now,
                ..cancelling(solves[id], cancel_reason(frame), cancel_time(frame, now))
            },
        )
    } else {
        solves
    }
}

/// The cancellation that a frame asks for.
pub open spec fn framed_cancellation(
    solves: Solves,
    id: Seq<char>,
    problem_id: Option<Seq<char>>,
    frame: Json,
    now: u128,
) -> Cancellation {
    let request_id = payload_of(frame).text_field("requestId"@);
    Cancellation {
        solve_id: id,
        request_id: if solves.contains_key(id) {
            first_of(request_id, Some(solves[id].request_id))
        } else {
            request_id
        },
        problem_id: if solves.contains_key(id) {
            first_of(problem_id, solves[id].problem_id)
        } else {
            problem_id
        },
        reason: cancel_reason(frame),
        requested_by: cancel_sender(frame),
        requested_at_ms: cancel_time(frame, now),
    }
}

/// Takes in a control frame that may ask for a cancellation, and tells whether it
/// does.
pub fn record_cancel_control_frame(
    solves: &mut Table<SolveRegistryEntry>,
    cancels: &mut Table<CancelInfo>,
    frame: &Json,
    now: u128,
) -> (r: Result<bool, String>)
    ensures
        if !is_cancel_frame(*frame) {
            &&& r == Ok::<bool, String>(false)
            &&& final(solves)@ == old(solves)@
            &&& final(cancels)@ == old(cancels)@
        } else {
            let payload = payload_of(*frame);
            match named_problem(payload) {
                Err(e) => {
                    &&& r is Err
                    &&& r->Err_0@ == e
                    &&& final(solves)@ == old(solves)@
                    &&& final(cancels)@ == old(cancels)@
                },
                Ok(problem_id) => exists|found: Option<Seq<char>>|
                    {
                        &&& first_of(problem_id, payload.text_field("requestId"@)) is Some
                            ==> resolves(
                            old(solves)@,
                            first_of(problem_id, payload.text_field("requestId"@))->0,
                            found,
                        )
                        &&& match #[trigger] cancel_target(payload, problem_id, found) {
                            Err(e) => {
                                &&& r is Err
                                &&& r->Err_0@ == e
                                &&& final(solves)@ == old(solves)@
                                &&& final(cancels)@ == old(cancels)@
                            },
                            Ok(id) => {
                                &&& r == Ok::<bool, String>(true)
                                &&& final(solves)@ == solves_after_cancel(
                                    old(solves)@,
                                    id,
                                    *frame,
                                    now,
                                )
                                &&& final(cancels)@ == old(cancels)@.insert(
                                    id,
                                    framed_cancellation(
                                        old(solves)@,
                                        id,
                                        problem_id,
                                        *frame,
                                        now,
                                    ),
                                )
                            },
                        }
                    },
            }
        },
{
    if !has_text_field(frame, "service", SERVICE_NAME) {
        return Ok(false);
    }
    if !has_text_field(frame, "commandName", "cancel-solve") {
        return Ok(false);
    }
    let none = Json::Null;
    let payload = match frame.get("payload") {
        Some(p) => p,
        None => &none,
    };
    let ghost before = solves@;
    let mut request_id = value_str(payload, "requestId");
    let ghost asked = text_view(request_id);
    let mut problem_id: Option<String> = match value_str(payload, "problemId") {
        Some(s) => match parse_uuid(trim(s.as_str()).as_str()) {
            Some(u) => Some(u),
            None => {
                return Err("cancel frame problemId must be a UUID".to_owned());
            },
        },
        None => None,
    };
    let ghost named = text_view(problem_id);
    let ghost mut found: Option<Seq<char>> = None;
    let key: Option<String> = match &problem_id {
        Some(p) => Some(p.clone()),
        None => request_id.clone(),
    };
    assert(text_view(key) == first_of(named, asked));
    let resolved: Option<String> = match &key {
        Some(k) => resolve_solve_id(solves, k.as_str()),
        None => None,
    };
    proof {
        found = text_view(resolved);
        assert(key is Some ==> resolves(before, key->0@, found));
    }
    let solve_id: String = match value_str(payload, "solveId") {
        Some(s) => s,
        None => {
            let k = match key {
                Some(k) => k,
                None => {
                    return Err(
                        "cancel frame missing solveId, problemId, or requestId".to_owned(),
                    );
                },
            };
            match resolved {
                Some(id) => id,
                None => match &problem_id {
                    Some(p) => p.clone(),
                    None => {
                        let mut e = "cancel frame target not found: ".to_owned();
                        e.append(k.as_str());
                        return Err(e);
                    },
                },
            }
        },
    };
    let reason = match value_str(payload, "reason") {
        Some(s) => s,
        None => "cancel requested".to_owned(),
    };
    let requested_by = match value_str(payload, "requestedBy") {
        Some(s) => s,
        None => match value_str(frame, "nodeId") {
            Some(s) => s,
            None => "unknown".to_owned(),
        },
    };
    let requested_at_ms: u128 = match value_u128(payload, "requestedAtMs") {
        Some(t) => t,
        None => match value_u128(frame, "timeMs") {
            Some(t) => t,
            None => now,
        },
    };
    if let Some(mut solve) = solves.remove(solve_id.as_str()) {
        let ghost entry = solve@;
        if request_id.is_none() {
            request_id = Some(solve.request_id.clone());
        }
        if problem_id.is_none() {
            problem_id = solve.problem_id.clone();
        }
        solve.cancel_requested = true;
        if solve.cancel_requested_at_ms.is_none() {
            solve.cancel_requested_at_ms = Some(requested_at_ms);
        }
        if solve.cancel_reason.is_none() {
            solve.cancel_reason = Some(reason.clone());
        }
        if solve.finished_at_ms.is_none() {
            solve.status = "cancelling".to_owned();
        }
        solve.updated_at_ms = now;
        assert(solve@ =~= SolveEntry {
            updated_at_ms: now,
            ..cancelling(entry, reason@, requested_at_ms)
        });
        solves.insert(solve_id.clone(), solve);
    }
    assert(solves@ =~= solves_after_cancel(before, solve_id@, *frame, now));
    let info = CancelInfo {
        solve_id: solve_id.clone(),
        request_id,
        problem_id,
        reason,
        requested_by,
        requested_at_ms,
    };
    assert(info@ =~= framed_cancellation(before, solve_id@, named, *frame, now));
    cancels.insert(solve_id, info);
    assert(cancel_target(*payload, named, found) == Ok::<Seq<char>, Seq<char>>(solve_id@));
    Ok(true)
}

/// What came of a control frame.
#[derive(Debug)]
pub enum ControlOutcome {
    /// It asked for a cancellation.
    Cancelled,
    /// It asked for a cancellation that cannot be made out; why.
    BadCancel(String),
    /// It told of a worker, or came from elsewhere.
    Noted,
    /// It told of a worker that cannot be made out; why.
    BadWorker(String),
}

/// Takes in a control frame: a cancellation, or else what a worker tells.
pub fn take_control_frame(
    workers: &mut Table<WorkerNodeStatus>,
    solves: &mut Table<SolveRegistryEntry>,
    cancels: &mut Table<CancelInfo>,
    frame: &Json,
    now: u128,
    config: &RuntimeConfig,
) -> (r: ControlOutcome)
    ensures
        (r is Cancelled || r is BadCancel) == is_cancel_frame(*frame),
        is_cancel_frame(*frame) ==> final(workers)@ == old(workers)@,
        r is BadCancel ==> final(solves)@ == old(solves)@ && final(cancels)@ == old(cancels)@,
        !is_cancel_frame(*frame) ==> {
            &&& final(cancels)@ == old(cancels)@
            &&& match worker_frame(*frame, now) {
                WorkerFrame::Foreign => {
                    &&& r is Noted
                    &&& final(workers)@ == old(workers)@
                    &&& final(solves)@ == old(solves)@
                },
                WorkerFrame::Broken(e) => {
                    &&& r is BadWorker
                    &&& r->BadWorker_0@ == e
                    &&& final(workers)@ == old(workers)@
                    &&& final(solves)@ == old(solves)@
                },
                WorkerFrame::Heard { node_id, command, payload, seen_at } => {
                    &&& r is Noted
                    &&& final(workers)@ == workers_after(
                        old(workers)@,
                        node_id,
                        command,
                        payload,
                        seen_at,
                        stale_ms(*config),
                    )
                    &&& final(solves)@ == if tells_of_work(command) {
                        after_progress(old(solves)@, node_id, payload, seen_at)
                    } else {
                        old(solves)@
                    }
                },
            }
        },
        is_cancel_frame(*frame) ==> match named_problem(payload_of(*frame)) {
            Err(e) => r is BadCancel && r->BadCancel_0@ == e,
            Ok(problem_id) => exists|found: Option<Seq<char>>|
                {
                    &&& first_of(
                        problem_id,
                        payload_of(*frame).text_field("requestId"@),
                    ) is Some ==> resolves(
                        old(solves)@,
                        first_of(problem_id, payload_of(*frame).text_field("requestId"@))->0,
                        found,
                    )
                    &&& match #[trigger] cancel_target(payload_of(*frame), problem_id, found) {
                        Err(e) => r is BadCancel && r->BadCancel_0@ == e,
                        Ok(id) => {
                            &&& r is Cancelled
                            &&& final(solves)@ == solves_after_cancel(
                                old(solves)@,
                                id,
                                *frame,
                                now,
                            )
                            &&& final(cancels)@ == old(cancels)@.insert(
                                id,
                                framed_cancellation(old(solves)@, id, problem_id, *frame, now),
                            )
                        },
                    }
                },
        },
{
    match record_cancel_control_frame(solves, cancels, frame, now) {
        Err(e) => ControlOutcome::BadCancel(e),
        Ok(true) => ControlOutcome::Cancelled,
        Ok(false) => match record_worker_control_frame(workers, solves, frame, now, config) {
            Ok(_) => ControlOutcome::Noted,
            Err(e) => ControlOutcome::BadWorker(e),
        },
    }
}

/// A cancellation for a problem of which no solve is known is kept under the
/// problem, so that a solve of it that begins later is found cancelled.
pub proof fn cancels_reach_later_solves(
    cancels: Cancellations,
    solves: Solves,
    frame: Json,
    problem_id: Seq<char>,
    solve_id: Seq<char>,
    now: u128,
)
    requires
        named_problem(payload_of(frame)) == Ok::<Option<Seq<char>>, Seq<char>>(Some(problem_id)),
        payload_of(frame).text_field("solveId"@) is None,
    ensures
        cancel_target(payload_of(frame), Some(problem_id), None) == Ok::<Seq<char>, Seq<char>>(
            problem_id,
        ),
        cancellation_for(
            cancels.insert(
                problem_id,
                framed_cancellation(solves, problem_id, Some(problem_id), frame, now),
            ),
            solve_id,
            Some(problem_id),
        ) is Some,
{
}

/// A worker is current exactly while it has been heard of within the time that is
/// allowed; the others are forgotten, and what is known of the current ones stays.
pub proof fn silent_workers_are_forgotten(
    workers: Workers,
    at: u128,
    stale_after_ms: int,
    k: Seq<char>,
)
    requires
        stale_after_ms >= 0,
    ensures
        current_workers(workers, at, stale_after_ms).contains_key(k) <==> workers.contains_key(k)
            && at <= workers[k].last_seen_ms + stale_after_ms,
        current_workers(workers, at, stale_after_ms).contains_key(k) ==> current_workers(
            workers,
            at,
            stale_after_ms,
        )[k] == workers[k],
{
}

/// What a worker tells of a job is entered under the job: that it works on it, until it
/// is done with it or gives it up. Each frame is a sign of life.
pub proof fn workers_are_heard(w: Worker, payload: Json, seen_at: u128, command: Seq<char>)
    requires
        w.request_count < u64::MAX,
        w.completed_count < u64::MAX,
    ensures
        ({
            let asked = after_frame(w, "request-work"@, payload, seen_at);
            let busy = after_frame(w, "worker-progress"@, payload, seen_at);
            let done = after_frame(w, "worker-completed"@, payload, seen_at);
            let any = after_frame(w, command, payload, seen_at);
            let named = payload.text_field("jobId"@) is Some && payload.text_field("solveId"@)
                is Some;
            &&& any.last_seen_ms == seen_at
            &&& any.last_command == command
            &&& any.node_id == w.node_id
            &&& asked.request_count == w.request_count + 1
            &&& done.completed_count == w.completed_count + 1
            &&& busy.request_count == w.request_count && busy.completed_count == w.completed_count
            &&& named && job_key(payload) is Some ==> {
                &&& asked.active_jobs.contains_key(job_key(payload)->0)
                &&& busy.active_jobs.contains_key(job_key(payload)->0)
                &&& busy.active_jobs[job_key(payload)->0].job_id == payload.text_field("jobId"@)->0
                &&& busy.active_jobs[job_key(payload)->0].solve_id == payload.text_field(
                    "solveId"@,
                )->0
                &&& busy.active_jobs[job_key(payload)->0].status == "running"@
                &&& busy.active_jobs[job_key(payload)->0].last_seen_ms == seen_at
            }
            &&& job_key(payload) is Some ==> !done.active_jobs.contains_key(job_key(payload)->0)
            &&& done.last_status == payload.text_field("status"@)
            &&& after_frame(w, "worker-ready"@, payload, seen_at).ready_at_ms is Some
        }),
{
    reveal_strlit("worker-ready");
    reveal_strlit("request-work");
    reveal_strlit("worker-progress");
    reveal_strlit("worker-completed");
    assert("worker-ready"@.len() == 12 && "worker-ready"@[0] == 'w');
    assert("request-work"@.len() == 12 && "request-work"@[0] == 'r');
    assert("worker-progress"@.len() == 15);
    assert("worker-completed"@.len() == 16);
}

/// A frame is taken exactly where it comes from this service and names its node and its
/// command.
pub proof fn frames_name_their_sender(frame: Json, now: u128)
    ensures
        worker_frame(frame, now) is Foreign <==> frame.text_field("service"@) != Some(
            SERVICE_NAME@,
        ),
        worker_frame(frame, now) is Heard <==> frame.text_field("service"@) == Some(SERVICE_NAME@)
            && frame.text_field("nodeId"@) is Some && frame.text_field("commandName"@) is Some,
        worker_frame(frame, now) matches WorkerFrame::Heard { node_id, command, seen_at, .. } ==> {
            &&& Some(node_id) == frame.text_field("nodeId"@)
            &&& Some(command) == frame.text_field("commandName"@)
            &&& time_field(frame, "timeMs"@) matches Some(t) ==> seen_at == t
            &&& time_field(frame, "timeMs"@) is None ==> seen_at == now
        },
{
}

/// A request to cancel is for the solve that it names; else for the one that was found
/// for its problem or its request; else, where it names a problem, for the problem.
pub proof fn cancel_frames_have_a_target(
    payload: Json,
    problem_id: Option<Seq<char>>,
    found: Option<Seq<char>>,
)
    ensures
        payload.text_field("solveId"@) matches Some(id) ==> cancel_target(
            payload,
            problem_id,
            found,
        ) == Ok::<Seq<char>, Seq<char>>(id),
        payload.text_field("solveId"@) is None && (problem_id is Some || payload.text_field(
            "requestId"@,
        ) is Some) && found is Some ==> cancel_target(payload, problem_id, found) == Ok::<
            Seq<char>,
            Seq<char>,
        >(found->0),
        payload.text_field("solveId"@) is None && problem_id is Some && found is None
            ==> cancel_target(payload, problem_id, found) == Ok::<Seq<char>, Seq<char>>(
            problem_id->0,
        ),
        payload.text_field("solveId"@) is None && problem_id is None && found is None
            ==> cancel_target(payload, problem_id, found) is Err,
{
}

/// A frame is entered under its sender, which is then current; the other current workers
/// stay as they were, and the silent ones are forgotten.
pub proof fn frames_are_entered_under_their_sender(
    workers: Workers,
    node_id: Seq<char>,
    command: Seq<char>,
    payload: Json,
    seen_at: u128,
    stale_after_ms: int,
    other: Seq<char>,
)
    requires
        stale_after_ms >= 0,
        other != node_id,
    ensures
        ({
            let r = workers_after(workers, node_id, command, payload, seen_at, stale_after_ms);
            &&& r.contains_key(node_id)
            &&& r[node_id].last_seen_ms == seen_at
            &&& r[node_id].last_command == command
            &&& r.contains_key(other) <==> workers.contains_key(other) && seen_at
                <= workers[other].last_seen_ms + stale_after_ms
            &&& r.contains_key(other) ==> r[other] == workers[other]
            &&& !workers.contains_key(node_id) ==> r[node_id].node_id == node_id
        }),
{
}

/// A cancellation by frame marks the solve that it is for, and no other.
pub proof fn cancel_frames_mark_one_solve(
    solves: Solves,
    id: Seq<char>,
    frame: Json,
    now: u128,
    other: Seq<char>,
)
    requires
        other != id,
    ensures
        ({
            let r = solves_after_cancel(solves, id, frame, now);
            &&& r.dom() == solves.dom()
            &&& solves.contains_key(other) ==> r[other] == solves[other]
            &&& solves.contains_key(id) ==> r[id].cancel_requested
            &&& solves.contains_key(id) && solves[id].finished_at_ms is None ==> r[id].status
                == "cancelling"@
            &&& solves.contains_key(id) ==> r[id].jobs == solves[id].jobs && r[id].finished_at_ms
                == solves[id].finished_at_ms && r[id].updated_at_ms == now
        }),
{
    assert(solves_after_cancel(solves, id, frame, now).dom() =~= solves.dom());
}

/// A cancellation by frame tells what the frame tells, and what is known of the solve
/// where the frame does not tell it.
pub proof fn framed_cancellations_tell_the_frame(
    solves: Solves,
    id: Seq<char>,
    problem_id: Option<Seq<char>>,
    frame: Json,
    now: u128,
)
    ensures
        ({
            let c = framed_cancellation(solves, id, problem_id, frame, now);
            let payload = payload_of(frame);
            &&& c.solve_id == id
            &&& problem_id is Some ==> c.problem_id == problem_id
            &&& problem_id is None && solves.contains_key(id) ==> c.problem_id
                == solves[id].problem_id
            &&& payload.text_field("requestId"@) is Some ==> c.request_id == payload.text_field(
                "requestId"@,
            )
            &&& payload.text_field("requestId"@) is None && solves.contains_key(id)
                ==> c.request_id == Some(solves[id].request_id)
            &&& payload.text_field("reason"@) matches Some(s) ==> c.reason == s
            &&& payload.text_field("requestedBy"@) matches Some(s) ==> c.requested_by == s
            &&& payload.text_field("requestedBy"@) is None && frame.text_field("nodeId"@)
                is Some ==> Some(c.requested_by) == frame.text_field("nodeId"@)
            &&& time_field(payload, "requestedAtMs"@) matches Some(t) ==> c.requested_at_ms == t
        }),
{
}

/// Words that tell of work, and words that tell that a job is given up.
pub proof fn words_of_workers()
    ensures
        tells_of_work("request-work"@) && tells_of_work("worker-progress"@),
        gives_up("worker-skipped-cancelled"@) && gives_up("worker-stopped-cancelled"@)
            && gives_up("worker-discarded-cancelled-result"@),
        !tells_of_work("worker-completed"@) && !gives_up("worker-completed"@),
        !gives_up("worker-progress"@) && !gives_up("request-work"@),
{
    reveal_strlit("request-work");
    reveal_strlit("worker-progress");
    reveal_strlit("worker-completed");
    reveal_strlit("worker-skipped-cancelled");
    reveal_strlit("worker-stopped-cancelled");
    reveal_strlit("worker-discarded-cancelled-result");
    assert("request-work"@.len() == 12 && "worker-progress"@.len() == 15);
    assert("worker-completed"@.len() == 16);
    assert("worker-skipped-cancelled"@.len() == 24 && "worker-stopped-cancelled"@.len() == 24);
    assert("worker-discarded-cancelled-result"@.len() == 33);
}

/// Workers are listed by name.
pub proof fn workers_are_listed_by_name(a: Worker, b: Worker)
    ensures
        WorkerNodeStatus::goes_before(a, b) <==> text_before(a.node_id, b.node_id),
{
}

/// A worker is silent when it has not been heard of for as many seconds as are
/// configured.
pub proof fn silence_is_configured_in_seconds(config: RuntimeConfig)
    ensures
        stale_ms(config) == stale_seconds(config) * 1000,
        config.settings@.len() == 0 ==> stale_ms(config) == 100_000,
{
}

/// What a worker tells of a job is entered as it is told; where it does not tell when the
/// job began, it began when it was told of.
pub proof fn jobs_are_entered_as_told(payload: Json, status: Seq<char>, seen_at: u128)
    ensures
        ({
            let r = job_of_payload(payload, status, seen_at);
            &&& r is Some <==> payload.text_field("jobId"@) is Some && payload.text_field(
                "solveId"@,
            ) is Some
            &&& r matches Some(j) ==> {
                &&& Some(j.job_id) == payload.text_field("jobId"@)
                &&& Some(j.solve_id) == payload.text_field("solveId"@)
                &&& j.job_uuid == payload.text_field("jobUuid"@)
                &&& j.problem_id == payload.text_field("problemId"@)
                &&& j.status == status
                &&& j.last_seen_ms == seen_at
                &&& time_field(payload, "startedAtMs"@) matches Some(t) ==> j.started_at_ms == t
                &&& time_field(payload, "startedAtMs"@) is None ==> j.started_at_ms == seen_at
            }
        }),
{
}

}
