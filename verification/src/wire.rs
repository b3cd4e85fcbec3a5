//! How the node writes what it knows: workers, solves, tasks and frames.

use crate::accelerator::{GpuStatus, GpuSummary};
use crate::config::role_name;
use crate::document::{
    count_or_null, docs, is_table_document, push_document, table_document, tells, text_docs,
    text_list, text_or_null, Doc, Document, Documented, Fields,
};
use crate::model::{names_view, rows, MipProblemSpec, Model};
use crate::number::Double;
use crate::registry::{JobEntry, JobRegistryEntry, SolveEntry, SolveRegistryEntry};
use crate::stream::{Frame, StreamFrame};
use crate::tasks::{RuntimeTaskEntry, Task};
use crate::workers::{Worker, WorkerJob, WorkerJobStatus, WorkerNodeStatus};
use vstd::prelude::*;
use vstd::string::*;

verus! {

/// The document for a job at a worker.
pub open spec fn worker_job_doc(v: WorkerJob) -> Doc {
    Doc::Object(
        seq![
            ("jobId"@, Doc::Text(v.job_id)),
            ("jobUuid"@, text_or_null(v.job_uuid)),
            ("solveId"@, Doc::Text(v.solve_id)),
            ("problemId"@, text_or_null(v.problem_id)),
            ("status"@, Doc::Text(v.status)),
            ("startedAtMs"@, Doc::Count(v.started_at_ms as u128)),
            ("lastSeenMs"@, Doc::Count(v.last_seen_ms as u128)),
        ],
    )
}

impl Documented for WorkerJobStatus {
    open spec fn is_document(d: Doc, v: WorkerJob) -> bool {
        d == worker_job_doc(v)
    }

    fn document(&self) -> (r: Document) {
        let r = Fields::new()
            .text("jobId", self.job_id.as_str())
            .maybe_text("jobUuid", &self.job_uuid)
            .text("solveId", self.solve_id.as_str())
            .maybe_text("problemId", &self.problem_id)
            .text("status", self.status.as_str())
            .count("startedAtMs", self.started_at_ms as u128)
            .count("lastSeenMs", self.last_seen_ms as u128)
            .done();
        assert(r@->Object_0 =~= worker_job_doc(self@)->Object_0);
        r
    }
}

/// The document for a worker, given the one for its table.
pub open spec fn worker_doc(v: Worker, table: Doc) -> Doc {
    Doc::Object(
        seq![
            ("nodeId"@, Doc::Text(v.node_id)),
            ("lastCommand"@, Doc::Text(v.last_command)),
            ("consumer"@, text_or_null(v.consumer)),
            ("jobsSubject"@, text_or_null(v.jobs_subject)),
            ("resultsSubject"@, text_or_null(v.results_subject)),
            ("lastJobId"@, text_or_null(v.last_job_id)),
            ("lastSolveId"@, text_or_null(v.last_solve_id)),
            ("lastStatus"@, text_or_null(v.last_status)),
            ("readyAtMs"@, count_or_null(v.ready_at_ms)),
            ("lastSeenMs"@, Doc::Count(v.last_seen_ms as u128)),
            ("requestCount"@, Doc::Count(v.request_count as u128)),
            ("completedCount"@, Doc::Count(v.completed_count as u128)),
            ("activeJobs"@, table),
        ],
    )
}

impl Documented for WorkerNodeStatus {
    open spec fn is_document(d: Doc, v: Worker) -> bool {
        exists|table: Doc| is_table_document::<WorkerJobStatus>(table, v.active_jobs) && d == #[trigger] worker_doc(v, table)
    }

    fn document(&self) -> (r: Document) {
        let table = table_document(&self.active_jobs);
        let ghost t = table@;
        let r = Fields::new()
            .text("nodeId", self.node_id.as_str())
            .text("lastCommand", self.last_command.as_str())
            .maybe_text("consumer", &self.consumer)
            .maybe_text("jobsSubject", &self.jobs_subject)
            .maybe_text("resultsSubject", &self.results_subject)
            .maybe_text("lastJobId", &self.last_job_id)
            .maybe_text("lastSolveId", &self.last_solve_id)
            .maybe_text("lastStatus", &self.last_status)
            .maybe_count("readyAtMs", self.ready_at_ms)
            .count("lastSeenMs", self.last_seen_ms as u128)
            .count("requestCount", self.request_count as u128)
            .count("completedCount", self.completed_count as u128)
            .value("activeJobs", table)
            .done();
        assert(r@->Object_0 =~= worker_doc(self@, t)->Object_0);
        r
    }
}

/// The document for what is known of a job.
pub open spec fn job_entry_doc(v: JobEntry) -> Doc {
    Doc::Object(
        seq![
            ("jobId"@, Doc::Text(v.job_id)),
            ("jobUuid"@, text_or_null(v.job_uuid)),
            ("problemId"@, text_or_null(v.problem_id)),
            ("rootJobId"@, Doc::Text(v.root_job_id)),
            ("retryIndex"@, Doc::Count(v.retry_index as u128)),
            ("depth"@, Doc::Count(v.depth as u128)),
            ("status"@, Doc::Text(v.status)),
            ("workerNode"@, text_or_null(v.worker_node)),
            ("submittedAtMs"@, Doc::Count(v.submitted_at_ms as u128)),
            ("lastHeartbeatMs"@, count_or_null(v.last_heartbeat_ms)),
            ("finishedAtMs"@, count_or_null(v.finished_at_ms)),
            ("error"@, text_or_null(v.error)),
        ],
    )
}

impl Documented for JobRegistryEntry {
    open spec fn is_document(d: Doc, v: JobEntry) -> bool {
        d == job_entry_doc(v)
    }

    fn document(&self) -> (r: Document) {
        let r = Fields::new()
            .text("jobId", self.job_id.as_str())
            .maybe_text("jobUuid", &self.job_uuid)
            .maybe_text("problemId", &self.problem_id)
            .text("rootJobId", self.root_job_id.as_str())
            .count("retryIndex", self.retry_index as u128)
            .count("depth", self.depth as u128)
            .text("status", self.status.as_str())
            .maybe_text("workerNode", &self.worker_node)
            .count("submittedAtMs", self.submitted_at_ms as u128)
            .maybe_count("lastHeartbeatMs", self.last_heartbeat_ms)
            .maybe_count("finishedAtMs", self.finished_at_ms)
            .maybe_text("error", &self.error)
            .done();
        assert(r@->Object_0 =~= job_entry_doc(self@)->Object_0);
        r
    }
}

/// The document for what is known of a solve, given the one for its table.
pub open spec fn solve_entry_doc(v: SolveEntry, table: Doc) -> Doc {
    Doc::Object(
        seq![
            ("solveId"@, Doc::Text(v.solve_id)),
            ("requestId"@, Doc::Text(v.request_id)),
            ("problemId"@, text_or_null(v.problem_id)),
            ("revision"@, Doc::Count(v.revision as u128)),
            ("status"@, Doc::Text(v.status)),
            ("jobsExpected"@, Doc::Count(v.jobs_expected as u128)),
            ("jobsPublished"@, Doc::Count(v.jobs_published as u128)),
            ("jobsCompleted"@, Doc::Count(v.jobs_completed as u128)),
            ("jobsRedelegated"@, Doc::Count(v.jobs_redelegated as u128)),
            ("jobsSplit"@, Doc::Count(v.jobs_split as u128)),
            ("timedOut"@, Doc::Flag(v.timed_out)),
            ("distributed"@, Doc::Flag(v.distributed)),
            ("startedAtMs"@, Doc::Count(v.started_at_ms as u128)),
            ("updatedAtMs"@, Doc::Count(v.updated_at_ms as u128)),
            ("finishedAtMs"@, count_or_null(v.finished_at_ms)),
            ("cancelRequested"@, Doc::Flag(v.cancel_requested)),
            ("cancelRequestedAtMs"@, count_or_null(v.cancel_requested_at_ms)),
            ("cancelReason"@, text_or_null(v.cancel_reason)),
            ("warnings"@, Doc::List(text_docs(v.warnings))),
            ("jobs"@, table),
        ],
    )
}

impl Documented for SolveRegistryEntry {
    open spec fn is_document(d: Doc, v: SolveEntry) -> bool {
        exists|table: Doc| is_table_document::<JobRegistryEntry>(table, v.jobs) && d == #[trigger] solve_entry_doc(v, table)
    }

    fn document(&self) -> (r: Document) {
        let table = table_document(&self.jobs);
        let ghost t = table@;
        let r = Fields::new()
            .text("solveId", self.solve_id.as_str())
            .text("requestId", self.request_id.as_str())
            .maybe_text("problemId", &self.problem_id)
            .count("revision", self.revision as u128)
            .text("status", self.status.as_str())
            .count("jobsExpected", self.jobs_expected as u128)
            .count("jobsPublished", self.jobs_published as u128)
            .count("jobsCompleted", self.jobs_completed as u128)
            .count("jobsRedelegated", self.jobs_redelegated as u128)
            .count("jobsSplit", self.jobs_split as u128)
            .flag("timedOut", self.timed_out)
            .flag("distributed", self.distributed)
            .count("startedAtMs", self.started_at_ms as u128)
            .count("updatedAtMs", self.updated_at_ms as u128)
            .maybe_count("finishedAtMs", self.finished_at_ms)
            .flag("cancelRequested", self.cancel_requested)
            .maybe_count("cancelRequestedAtMs", self.cancel_requested_at_ms)
            .maybe_text("cancelReason", &self.cancel_reason)
            .value("warnings", text_list(&self.warnings))
            .value("jobs", table)
            .done();
        assert(r@->Object_0 =~= solve_entry_doc(self@, t)->Object_0);
        r
    }
}

/// The document for a task.
pub open spec fn task_doc(v: Task) -> Doc {
    Doc::Object(
        seq![
            ("taskId"@, Doc::Text(v.task_id)),
            ("kind"@, Doc::Text(v.kind)),
            ("nodeId"@, Doc::Text(v.node_id)),
            ("role"@, Doc::Text(role_name(v.role))),
            ("status"@, Doc::Text(v.status)),
            ("problemId"@, text_or_null(v.problem_id)),
            ("solveId"@, text_or_null(v.solve_id)),
            ("requestId"@, text_or_null(v.request_id)),
            ("jobId"@, text_or_null(v.job_id)),
            ("jobUuid"@, text_or_null(v.job_uuid)),
            ("abortable"@, Doc::Flag(v.abortable)),
            ("startedAtMs"@, Doc::Count(v.started_at_ms as u128)),
            ("updatedAtMs"@, Doc::Count(v.updated_at_ms as u128)),
            ("finishedAtMs"@, count_or_null(v.finished_at_ms)),
        ],
    )
}

impl Documented for RuntimeTaskEntry {
    open spec fn is_document(d: Doc, v: Task) -> bool {
        d == task_doc(v)
    }

    fn document(&self) -> (r: Document) {
        let r = Fields::new()
            .text("taskId", self.task_id.as_str())
            .text("kind", self.kind.as_str())
            .text("nodeId", self.node_id.as_str())
            .text("role", self.role.as_str())
            .text("status", self.status.as_str())
            .maybe_text("problemId", &self.problem_id)
            .maybe_text("solveId", &self.solve_id)
            .maybe_text("requestId", &self.request_id)
            .maybe_text("jobId", &self.job_id)
            .maybe_text("jobUuid", &self.job_uuid)
            .flag("abortable", self.abortable)
            .count("startedAtMs", self.started_at_ms as u128)
            .count("updatedAtMs", self.updated_at_ms as u128)
            .maybe_count("finishedAtMs", self.finished_at_ms)
            .done();
        assert(r@->Object_0 =~= task_doc(self@)->Object_0);
        r
    }
}

/// The document for a summary of the accelerators.
pub open spec fn gpu_doc(v: GpuSummary) -> Doc {
    Doc::Object(
        seq![
            ("available"@, Doc::Flag(v.available)),
            ("backend"@, Doc::Text(v.backend)),
            ("used"@, Doc::Flag(v.used)),
            ("mode"@, Doc::Text(v.mode)),
            ("note"@, text_or_null(v.note)),
        ],
    )
}

impl Documented for GpuStatus {
    open spec fn is_document(d: Doc, v: GpuSummary) -> bool {
        d == gpu_doc(v)
    }

    fn document(&self) -> (r: Document) {
        let r = Fields::new()
            .flag("available", self.available)
            .text("backend", self.backend.as_str())
            .flag("used", self.used)
            .text("mode", self.mode.as_str())
            .maybe_text("note", &self.note)
            .done();
        assert(r@->Object_0 =~= gpu_doc(self@)->Object_0);
        r
    }
}

/// The document for a list of flags.
pub open spec fn flag_docs(v: Seq<bool>) -> Seq<Doc> {
    v.map_values(|b: bool| Doc::Flag(b))
}

fn flag_list(v: &Vec<bool>) -> (r: Document)
    ensures
        r@ == Doc::List(flag_docs(v@)),
{
    let mut out: Vec<Document> = Vec::new();
    let ghost all = flag_docs(v@);
    let mut i: usize = 0;
    assert(docs(out@) =~= all.take(0));
    while i < v.len()
        invariant
            i <= v@.len(),
            all == flag_docs(v@),
            docs(out@) == all.take(i as int),
        decreases v@.len() - i,
    {
        push_document(&mut out, Document::Flag(v[i]));
        assert(all.take(i + 1) =~= all.take(i as int).push(all[i as int]));
        i = i + 1;
    }
    assert(all.take(i as int) =~= all);
    Document::List(out)
}

/// The document for a frame.
pub open spec fn frame_doc(f: Frame) -> Doc {
    match f {
        Frame::Initialized { revision } => Doc::Object(
            seq![
                ("event"@, Doc::Text("initialized"@)),
                ("revision"@, Doc::Count(revision as u128)),
            ],
        ),
        Frame::Applied { op, revision } => Doc::Object(
            seq![
                ("event"@, Doc::Text("applied"@)),
                ("op"@, Doc::Text(op)),
                ("revision"@, Doc::Count(revision as u128)),
            ],
        ),
        Frame::Snapshot { revision, num_vars, num_constraints, integer_vars } => Doc::Object(
            seq![
                ("event"@, Doc::Text("model"@)),
                ("revision"@, Doc::Count(revision as u128)),
                ("numVars"@, Doc::Count(num_vars as u128)),
                ("numConstraints"@, Doc::Count(num_constraints as u128)),
                ("integerVars"@, Doc::List(flag_docs(integer_vars))),
            ],
        ),
        Frame::Rejected { message, revision } => Doc::Object(
            seq![
                ("event"@, Doc::Text("error"@)),
                ("message"@, Doc::Text(message)),
                ("revision"@, Doc::Count(revision as u128)),
            ],
        ),
    }
}

impl Documented for StreamFrame {
    open spec fn is_document(d: Doc, v: Frame) -> bool {
        d == frame_doc(v)
    }

    fn document(&self) -> (r: Document) {
        let r = match self {
            StreamFrame::Initialized { revision } => Fields::new()
                .text("event", "initialized")
                .count("revision", *revision as u128)
                .done(),
            StreamFrame::Applied { op, revision } => Fields::new()
                .text("event", "applied")
                .text("op", op.as_str())
                .count("revision", *revision as u128)
                .done(),
            StreamFrame::Snapshot { revision, num_vars, num_constraints, integer_vars } => {
                Fields::new()
                    .text("event", "model")
                    .count("revision", *revision as u128)
                    .count("numVars", *num_vars as u128)
                    .count("numConstraints", *num_constraints as u128)
                    .value("integerVars", flag_list(integer_vars))
                    .done()
            },
            StreamFrame::Rejected { message, revision } => Fields::new()
                .text("event", "error")
                .text("message", message.as_str())
                .count("revision", *revision as u128)
                .done(),
        };
        assert(r@->Object_0 =~= frame_doc(self@)->Object_0);
        r
    }
}
/// The numbers of a list.
pub open spec fn number_docs(v: Seq<Double>) -> Seq<Doc> {
    v.map_values(|x: Double| Doc::Number(x))
}

fn number_list(v: &Vec<Double>) -> (r: Document)
    ensures
        r@ == Doc::List(number_docs(v@)),
{
    let mut out: Vec<Document> = Vec::new();
    let ghost all = number_docs(v@);
    let mut i: usize = 0;
    assert(docs(out@) =~= all.take(0));
    while i < v.len()
        invariant
            i <= v@.len(),
            all == number_docs(v@),
            docs(out@) == all.take(i as int),
        decreases v@.len() - i,
    {
        push_document(&mut out, Document::Number(v[i]));
        assert(all.take(i + 1) =~= all.take(i as int).push(all[i as int]));
        i = i + 1;
    }
    assert(all.take(i as int) =~= all);
    Document::List(out)
}

/// The rows of a table of numbers.
pub open spec fn row_docs(v: Seq<Seq<Double>>) -> Seq<Doc> {
    v.map_values(|r: Seq<Double>| Doc::List(number_docs(r)))
}

fn row_list(v: &Vec<Vec<Double>>) -> (r: Document)
    ensures
        r@ == Doc::List(row_docs(rows(v@))),
{
    let mut out: Vec<Document> = Vec::new();
    let ghost all = row_docs(rows(v@));
    let mut i: usize = 0;
    assert(docs(out@) =~= all.take(0));
    while i < v.len()
        invariant
            i <= v@.len(),
            all == row_docs(rows(v@)),
            docs(out@) == all.take(i as int),
        decreases v@.len() - i,
    {
        push_document(&mut out, number_list(&v[i]));
        assert(all[i as int] == Doc::List(number_docs(v@[i as int]@)));
        assert(all.take(i + 1) =~= all.take(i as int).push(all[i as int]));
        i = i + 1;
    }
    assert(all.take(i as int) =~= all);
    Document::List(out)
}

/// The document for a model.
pub open spec fn model_doc(m: Model) -> Doc {
    Doc::Object(
        seq![
            ("sense"@, Doc::Text(m.sense)),
            ("c"@, Doc::List(number_docs(m.c))),
            ("a"@, Doc::List(row_docs(m.a))),
            ("b"@, Doc::List(number_docs(m.b))),
            ("integerVars"@, Doc::List(flag_docs(m.integer_vars))),
            (
                "ub"@,
                match m.ub {
                    Some(v) => Doc::List(number_docs(v)),
                    None => Doc::Null,
                },
            ),
            ("varNames"@, names_doc(m.var_names)),
            ("conNames"@, names_doc(m.con_names)),
        ],
    )
}

/// The document for a list of names, or null.
pub open spec fn names_doc(names: Option<Seq<Seq<char>>>) -> Doc {
    match names {
        Some(v) => Doc::List(text_docs(v)),
        None => Doc::Null,
    }
}

/// The document for a model, or null.
pub open spec fn model_or_null(m: Option<Model>) -> Doc {
    match m {
        Some(m) => model_doc(m),
        None => Doc::Null,
    }
}

fn names_document(names: &Option<Vec<String>>) -> (r: Document)
    ensures
        r@ == names_doc(names_view(*names)),
{
    match names {
        Some(v) => text_list(v),
        None => Document::Null,
    }
}

/// The document for a model.
pub fn model_document(p: &MipProblemSpec) -> (r: Document)
    ensures
        r@ == model_doc(p@),
{
    let bounds = match &p.ub {
        Some(v) => number_list(v),
        None => Document::Null,
    };
    let r = Fields::new()
        .text("sense", p.sense.as_str())
        .value("c", number_list(&p.c))
        .value("a", row_list(&p.a))
        .value("b", number_list(&p.b))
        .value("integerVars", flag_list(&p.integer_vars))
        .value("ub", bounds)
        .value("varNames", names_document(&p.var_names))
        .value("conNames", names_document(&p.con_names))
        .done();
    assert(r@->Object_0 =~= model_doc(p@)->Object_0);
    r
}

/// The document of a job at a worker tells each of its parts under its own key.
pub proof fn worker_jobs_are_told(v: WorkerJob)
    ensures
        ({
            let d = worker_job_doc(v);
            &&& tells(d, "jobId"@, Doc::Text(v.job_id))
            &&& tells(d, "jobUuid"@, text_or_null(v.job_uuid))
            &&& tells(d, "solveId"@, Doc::Text(v.solve_id))
            &&& tells(d, "problemId"@, text_or_null(v.problem_id))
            &&& tells(d, "status"@, Doc::Text(v.status))
            &&& tells(d, "startedAtMs"@, Doc::Count(v.started_at_ms as u128))
            &&& tells(d, "lastSeenMs"@, Doc::Count(v.last_seen_ms as u128))
        }),
{
    let d = worker_job_doc(v);
    assert(d->Object_0[0].0 == "jobId"@);
    assert(d->Object_0[1].0 == "jobUuid"@);
    assert(d->Object_0[2].0 == "solveId"@);
    assert(d->Object_0[3].0 == "problemId"@);
    assert(d->Object_0[4].0 == "status"@);
    assert(d->Object_0[5].0 == "startedAtMs"@);
    assert(d->Object_0[6].0 == "lastSeenMs"@);
}

/// The document of a worker tells each of its parts under its own key.
pub proof fn workers_are_told(v: Worker, table: Doc)
    ensures
        ({
            let d = worker_doc(v, table);
            &&& tells(d, "nodeId"@, Doc::Text(v.node_id))
            &&& tells(d, "lastCommand"@, Doc::Text(v.last_command))
            &&& tells(d, "consumer"@, text_or_null(v.consumer))
            &&& tells(d, "jobsSubject"@, text_or_null(v.jobs_subject))
            &&& tells(d, "resultsSubject"@, text_or_null(v.results_subject))
            &&& tells(d, "lastJobId"@, text_or_null(v.last_job_id))
            &&& tells(d, "lastSolveId"@, text_or_null(v.last_solve_id))
            &&& tells(d, "lastStatus"@, text_or_null(v.last_status))
            &&& tells(d, "readyAtMs"@, count_or_null(v.ready_at_ms))
            &&& tells(d, "lastSeenMs"@, Doc::Count(v.last_seen_ms as u128))
            &&& tells(d, "requestCount"@, Doc::Count(v.request_count as u128))
            &&& tells(d, "completedCount"@, Doc::Count(v.completed_count as u128))
            &&& tells(d, "activeJobs"@, table)
        }),
{
    let d = worker_doc(v, table);
    assert(d->Object_0[0].0 == "nodeId"@);
    assert(d->Object_0[1].0 == "lastCommand"@);
    assert(d->Object_0[2].0 == "consumer"@);
    assert(d->Object_0[3].0 == "jobsSubject"@);
    assert(d->Object_0[4].0 == "resultsSubject"@);
    assert(d->Object_0[5].0 == "lastJobId"@);
    assert(d->Object_0[6].0 == "lastSolveId"@);
    assert(d->Object_0[7].0 == "lastStatus"@);
    assert(d->Object_0[8].0 == "readyAtMs"@);
    assert(d->Object_0[9].0 == "lastSeenMs"@);
    assert(d->Object_0[10].0 == "requestCount"@);
    assert(d->Object_0[11].0 == "completedCount"@);
    assert(d->Object_0[12].0 == "activeJobs"@);
}

/// The document of a job tells each of its parts under its own key.
pub proof fn jobs_are_told(v: JobEntry)
    ensures
        ({
            let d = job_entry_doc(v);
            &&& tells(d, "jobId"@, Doc::Text(v.job_id))
            &&& tells(d, "jobUuid"@, text_or_null(v.job_uuid))
            &&& tells(d, "problemId"@, text_or_null(v.problem_id))
            &&& tells(d, "rootJobId"@, Doc::Text(v.root_job_id))
            &&& tells(d, "retryIndex"@, Doc::Count(v.retry_index as u128))
            &&& tells(d, "depth"@, Doc::Count(v.depth as u128))
            &&& tells(d, "status"@, Doc::Text(v.status))
            &&& tells(d, "workerNode"@, text_or_null(v.worker_node))
            &&& tells(d, "submittedAtMs"@, Doc::Count(v.submitted_at_ms as u128))
            &&& tells(d, "lastHeartbeatMs"@, count_or_null(v.last_heartbeat_ms))
            &&& tells(d, "finishedAtMs"@, count_or_null(v.finished_at_ms))
            &&& tells(d, "error"@, text_or_null(v.error))
        }),
{
    let d = job_entry_doc(v);
    assert(d->Object_0[0].0 == "jobId"@);
    assert(d->Object_0[1].0 == "jobUuid"@);
    assert(d->Object_0[2].0 == "problemId"@);
    assert(d->Object_0[3].0 == "rootJobId"@);
    assert(d->Object_0[4].0 == "retryIndex"@);
    assert(d->Object_0[5].0 == "depth"@);
    assert(d->Object_0[6].0 == "status"@);
    assert(d->Object_0[7].0 == "workerNode"@);
    assert(d->Object_0[8].0 == "submittedAtMs"@);
    assert(d->Object_0[9].0 == "lastHeartbeatMs"@);
    assert(d->Object_0[10].0 == "finishedAtMs"@);
    assert(d->Object_0[11].0 == "error"@);
}

/// The document of a solve tells each of its parts under its own key.
pub proof fn solves_are_told(v: SolveEntry, table: Doc)
    ensures
        ({
            let d = solve_entry_doc(v, table);
            &&& tells(d, "solveId"@, Doc::Text(v.solve_id))
            &&& tells(d, "requestId"@, Doc::Text(v.request_id))
            &&& tells(d, "problemId"@, text_or_null(v.problem_id))
            &&& tells(d, "revision"@, Doc::Count(v.revision as u128))
            &&& tells(d, "status"@, Doc::Text(v.status))
            &&& tells(d, "jobsExpected"@, Doc::Count(v.jobs_expected as u128))
            &&& tells(d, "jobsPublished"@, Doc::Count(v.jobs_published as u128))
            &&& tells(d, "jobsCompleted"@, Doc::Count(v.jobs_completed as u128))
            &&& tells(d, "jobsRedelegated"@, Doc::Count(v.jobs_redelegated as u128))
            &&& tells(d, "jobsSplit"@, Doc::Count(v.jobs_split as u128))
            &&& tells(d, "timedOut"@, Doc::Flag(v.timed_out))
            &&& tells(d, "distributed"@, Doc::Flag(v.distributed))
            &&& tells(d, "startedAtMs"@, Doc::Count(v.started_at_ms as u128))
            &&& tells(d, "updatedAtMs"@, Doc::Count(v.updated_at_ms as u128))
            &&& tells(d, "finishedAtMs"@, count_or_null(v.finished_at_ms))
            &&& tells(d, "cancelRequested"@, Doc::Flag(v.cancel_requested))
            &&& tells(d, "cancelRequestedAtMs"@, count_or_null(v.cancel_requested_at_ms))
            &&& tells(d, "cancelReason"@, text_or_null(v.cancel_reason))
            &&& tells(d, "warnings"@, Doc::List(text_docs(v.warnings)))
            &&& tells(d, "jobs"@, table)
        }),
{
    let d = solve_entry_doc(v, table);
    assert(d->Object_0[0].0 == "solveId"@);
    assert(d->Object_0[1].0 == "requestId"@);
    assert(d->Object_0[2].0 == "problemId"@);
    assert(d->Object_0[3].0 == "revision"@);
    assert(d->Object_0[4].0 == "status"@);
    assert(d->Object_0[5].0 == "jobsExpected"@);
    assert(d->Object_0[6].0 == "jobsPublished"@);
    assert(d->Object_0[7].0 == "jobsCompleted"@);
    assert(d->Object_0[8].0 == "jobsRedelegated"@);
    assert(d->Object_0[9].0 == "jobsSplit"@);
    assert(d->Object_0[10].0 == "timedOut"@);
    assert(d->Object_0[11].0 == "distributed"@);
    assert(d->Object_0[12].0 == "startedAtMs"@);
    assert(d->Object_0[13].0 == "updatedAtMs"@);
    assert(d->Object_0[14].0 == "finishedAtMs"@);
    assert(d->Object_0[15].0 == "cancelRequested"@);
    assert(d->Object_0[16].0 == "cancelRequestedAtMs"@);
    assert(d->Object_0[17].0 == "cancelReason"@);
    assert(d->Object_0[18].0 == "warnings"@);
    assert(d->Object_0[19].0 == "jobs"@);
}

/// The document of a task tells each of its parts under its own key.
pub proof fn tasks_are_told(v: Task)
    ensures
        ({
            let d = task_doc(v);
            &&& tells(d, "taskId"@, Doc::Text(v.task_id))
            &&& tells(d, "kind"@, Doc::Text(v.kind))
            &&& tells(d, "nodeId"@, Doc::Text(v.node_id))
            &&& tells(d, "role"@, Doc::Text(role_name(v.role)))
            &&& tells(d, "status"@, Doc::Text(v.status))
            &&& tells(d, "problemId"@, text_or_null(v.problem_id))
            &&& tells(d, "solveId"@, text_or_null(v.solve_id))
            &&& tells(d, "requestId"@, text_or_null(v.request_id))
            &&& tells(d, "jobId"@, text_or_null(v.job_id))
            &&& tells(d, "jobUuid"@, text_or_null(v.job_uuid))
            &&& tells(d, "abortable"@, Doc::Flag(v.abortable))
            &&& tells(d, "startedAtMs"@, Doc::Count(v.started_at_ms as u128))
            &&& tells(d, "updatedAtMs"@, Doc::Count(v.updated_at_ms as u128))
            &&& tells(d, "finishedAtMs"@, count_or_null(v.finished_at_ms))
        }),
{
    let d = task_doc(v);
    assert(d->Object_0[0].0 == "taskId"@);
    assert(d->Object_0[1].0 == "kind"@);
    assert(d->Object_0[2].0 == "nodeId"@);
    assert(d->Object_0[3].0 == "role"@);
    assert(d->Object_0[4].0 == "status"@);
    assert(d->Object_0[5].0 == "problemId"@);
    assert(d->Object_0[6].0 == "solveId"@);
    assert(d->Object_0[7].0 == "requestId"@);
    assert(d->Object_0[8].0 == "jobId"@);
    assert(d->Object_0[9].0 == "jobUuid"@);
    assert(d->Object_0[10].0 == "abortable"@);
    assert(d->Object_0[11].0 == "startedAtMs"@);
    assert(d->Object_0[12].0 == "updatedAtMs"@);
    assert(d->Object_0[13].0 == "finishedAtMs"@);
}

/// The document of an accelerator tells each of its parts under its own key.
pub proof fn accelerators_are_told(v: GpuSummary)
    ensures
        ({
            let d = gpu_doc(v);
            &&& tells(d, "available"@, Doc::Flag(v.available))
            &&& tells(d, "backend"@, Doc::Text(v.backend))
            &&& tells(d, "used"@, Doc::Flag(v.used))
            &&& tells(d, "mode"@, Doc::Text(v.mode))
            &&& tells(d, "note"@, text_or_null(v.note))
        }),
{
    let d = gpu_doc(v);
    assert(d->Object_0[0].0 == "available"@);
    assert(d->Object_0[1].0 == "backend"@);
    assert(d->Object_0[2].0 == "used"@);
    assert(d->Object_0[3].0 == "mode"@);
    assert(d->Object_0[4].0 == "note"@);
}

/// The document of a model tells each of its parts under its own key.
pub proof fn models_are_told(m: Model)
    ensures
        ({
            let d = model_doc(m);
            &&& tells(d, "sense"@, Doc::Text(m.sense))
            &&& tells(d, "c"@, Doc::List(number_docs(m.c)))
            &&& tells(d, "a"@, Doc::List(row_docs(m.a)))
            &&& tells(d, "b"@, Doc::List(number_docs(m.b)))
            &&& tells(d, "integerVars"@, Doc::List(flag_docs(m.integer_vars)))
            &&& tells(
                d,
                "ub"@,
                match m.ub { Some(v) => Doc::List(number_docs(v)), None => Doc::Null, },
            )
            &&& tells(d, "varNames"@, names_doc(m.var_names))
            &&& tells(d, "conNames"@, names_doc(m.con_names))
        }),
{
    let d = model_doc(m);
    assert(d->Object_0[0].0 == "sense"@);
    assert(d->Object_0[1].0 == "c"@);
    assert(d->Object_0[2].0 == "a"@);
    assert(d->Object_0[3].0 == "b"@);
    assert(d->Object_0[4].0 == "integerVars"@);
    assert(d->Object_0[5].0 == "ub"@);
    assert(d->Object_0[6].0 == "varNames"@);
    assert(d->Object_0[7].0 == "conNames"@);
}


/// Numbers, flags and rows are told one by one, in order.
pub proof fn lists_are_told_in_order(
    numbers: Seq<Double>,
    flags: Seq<bool>,
    matrix: Seq<Seq<Double>>,
    i: int,
)
    ensures
        number_docs(numbers).len() == numbers.len() && flag_docs(flags).len() == flags.len()
            && row_docs(matrix).len() == matrix.len(),
        0 <= i < numbers.len() ==> number_docs(numbers)[i] == Doc::Number(numbers[i]),
        0 <= i < flags.len() ==> flag_docs(flags)[i] == Doc::Flag(flags[i]),
        0 <= i < matrix.len() ==> row_docs(matrix)[i] == Doc::List(number_docs(matrix[i])),
{
}

/// A frame is told by its kind, with its revision and what belongs to it.
pub proof fn frames_are_told(
    revision: u64,
    op: Seq<char>,
    message: Seq<char>,
    num_vars: usize,
    num_constraints: usize,
    integer_vars: Seq<bool>,
)
    ensures
        ({
            let d = frame_doc(Frame::Initialized { revision });
            &&& tells(d, "event"@, Doc::Text("initialized"@))
            &&& tells(d, "revision"@, Doc::Count(revision as u128))
        }),
        ({
            let d = frame_doc(Frame::Applied { op, revision });
            &&& tells(d, "event"@, Doc::Text("applied"@))
            &&& tells(d, "op"@, Doc::Text(op))
            &&& tells(d, "revision"@, Doc::Count(revision as u128))
        }),
        ({
            let d = frame_doc(
                Frame::Snapshot { revision, num_vars, num_constraints, integer_vars },
            );
            &&& tells(d, "event"@, Doc::Text("model"@))
            &&& tells(d, "revision"@, Doc::Count(revision as u128))
            &&& tells(d, "numVars"@, Doc::Count(num_vars as u128))
            &&& tells(d, "numConstraints"@, Doc::Count(num_constraints as u128))
            &&& tells(d, "integerVars"@, Doc::List(flag_docs(integer_vars)))
        }),
        ({
            let d = frame_doc(Frame::Rejected { message, revision });
            &&& tells(d, "event"@, Doc::Text("error"@))
            &&& tells(d, "message"@, Doc::Text(message))
            &&& tells(d, "revision"@, Doc::Count(revision as u128))
        }),
{
    let d = frame_doc(Frame::Initialized { revision });
    assert(d->Object_0[0].0 == "event"@);
    assert(d->Object_0[1].0 == "revision"@);
    let d = frame_doc(Frame::Applied { op, revision });
    assert(d->Object_0[0].0 == "event"@);
    assert(d->Object_0[1].0 == "op"@);
    assert(d->Object_0[2].0 == "revision"@);
    let d = frame_doc(Frame::Snapshot { revision, num_vars, num_constraints, integer_vars });
    assert(d->Object_0[0].0 == "event"@);
    assert(d->Object_0[1].0 == "revision"@);
    assert(d->Object_0[2].0 == "numVars"@);
    assert(d->Object_0[3].0 == "numConstraints"@);
    assert(d->Object_0[4].0 == "integerVars"@);
    let d = frame_doc(Frame::Rejected { message, revision });
    assert(d->Object_0[0].0 == "event"@);
    assert(d->Object_0[1].0 == "message"@);
    assert(d->Object_0[2].0 == "revision"@);
}

}
