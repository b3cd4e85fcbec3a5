//! What is told of solves and jobs: to other nodes, and to the journal.

use crate::cancel::{CancelInfo, Cancellation};
use crate::config::NodeRole;
use crate::document::{tells, text_docs, text_list, text_or_null, Doc, Document, Fields};
use crate::ids::{job_retry_index, job_retry_root, retry_index, retry_root};
use crate::job_tracking::{StaleJob, StaleWorkerJob};
use crate::jobs::{Finding, Job, SubproblemJob, SubproblemResult};
use crate::json::Json;
use crate::response::{Answer, SolveResponse};
use crate::service::SERVICE_NAME;
use crate::status::message_doc;
use crate::text::texts;
use crate::workers::{
    cancel_reason, cancel_sender, cancel_target, cancel_time, is_cancel_frame, named_problem,
    payload_of, worker_frame, WorkerFrame,
};
use vstd::prelude::*;
use vstd::string::*;

verus! {

/// The document for a solve that has ended.
pub open spec fn solve_finished_told(response: Answer) -> Doc {
    Doc::Object(
        seq![
            ("solveId"@, Doc::Text(response.solve_id)),
            ("requestId"@, Doc::Text(response.request_id)),
            ("status"@, Doc::Text(response.status)),
            ("jobsPublished"@, Doc::Count(response.jobs_published as u128)),
            ("jobsCompleted"@, Doc::Count(response.jobs_completed as u128)),
            ("jobsRedelegated"@, Doc::Count(response.jobs_redelegated as u128)),
            ("jobsSplit"@, Doc::Count(response.jobs_split as u128)),
            ("timedOut"@, Doc::Flag(response.timed_out)),
        ],
    )
}

/// The document for a solve that has ended.
pub fn solve_finished_payload(response: &SolveResponse) -> (r: Document)
    ensures
        r@ == solve_finished_told(response@),
{
    let r = Fields::new()
        .text("solveId", response.solve_id.as_str())
        .text("requestId", response.request_id.as_str())
        .text("status", response.status.as_str())
        .count("jobsPublished", response.jobs_published as u128)
        .count("jobsCompleted", response.jobs_completed as u128)
        .count("jobsRedelegated", response.jobs_redelegated as u128)
        .count("jobsSplit", response.jobs_split as u128)
        .flag("timedOut", response.timed_out)
        .done();
    assert(r@->Object_0 =~= solve_finished_told(response@)->Object_0);
    r
}

/// The document for a solve that was cancelled.
pub open spec fn solve_cancelled_told(response: Answer) -> Doc {
    Doc::Object(
        seq![
            ("solveId"@, Doc::Text(response.solve_id)),
            ("requestId"@, Doc::Text(response.request_id)),
            ("jobsPublished"@, Doc::Count(response.jobs_published as u128)),
            ("jobsCompleted"@, Doc::Count(response.jobs_completed as u128)),
        ],
    )
}

/// The document for a solve that was cancelled.
pub fn solve_cancelled_payload(response: &SolveResponse) -> (r: Document)
    ensures
        r@ == solve_cancelled_told(response@),
{
    let r = Fields::new()
        .text("solveId", response.solve_id.as_str())
        .text("requestId", response.request_id.as_str())
        .count("jobsPublished", response.jobs_published as u128)
        .count("jobsCompleted", response.jobs_completed as u128)
        .done();
    assert(r@->Object_0 =~= solve_cancelled_told(response@)->Object_0);
    r
}

/// The document for the end of a solve, for the journal.
pub open spec fn finish_noted(response: Answer) -> Doc {
    Doc::Object(
        seq![
            ("requestId"@, Doc::Text(response.request_id)),
            ("status"@, Doc::Text(response.status)),
            ("jobsExpected"@, Doc::Count(response.jobs_expected as u128)),
            ("jobsCompleted"@, Doc::Count(response.jobs_completed as u128)),
            ("jobsRedelegated"@, Doc::Count(response.jobs_redelegated as u128)),
            ("jobsSplit"@, Doc::Count(response.jobs_split as u128)),
            ("timedOut"@, Doc::Flag(response.timed_out)),
        ],
    )
}

/// The document for the end of a solve, for the journal.
pub fn finish_record(response: &SolveResponse) -> (r: Document)
    ensures
        r@ == finish_noted(response@),
{
    let r = Fields::new()
        .text("requestId", response.request_id.as_str())
        .text("status", response.status.as_str())
        .count("jobsExpected", response.jobs_expected as u128)
        .count("jobsCompleted", response.jobs_completed as u128)
        .count("jobsRedelegated", response.jobs_redelegated as u128)
        .count("jobsSplit", response.jobs_split as u128)
        .flag("timedOut", response.timed_out)
        .done();
    assert(r@->Object_0 =~= finish_noted(response@)->Object_0);
    r
}

/// The document for a result, for the journal.
pub open spec fn result_noted(result: Finding, terminal: bool) -> Doc {
    Doc::Object(
        seq![
            ("requestId"@, Doc::Text(result.request_id)),
            ("status"@, Doc::Text(result.status)),
            ("terminal"@, Doc::Flag(terminal)),
            ("workerNode"@, Doc::Text(result.worker_node)),
            ("error"@, text_or_null(result.error)),
            ("childJobCount"@, Doc::Count(result.child_jobs.len() as u128)),
        ],
    )
}

/// The document for a result, for the journal.
pub fn result_record(result: &SubproblemResult, terminal: bool) -> (r: Document)
    ensures
        r@ == result_noted(result@, terminal),
{
    let r = Fields::new()
        .text("requestId", result.request_id.as_str())
        .text("status", result.status.as_str())
        .flag("terminal", terminal)
        .text("workerNode", result.worker_node.as_str())
        .maybe_text("error", &result.error)
        .count("childJobCount", result.child_jobs.len() as u128)
        .done();
    assert(r@->Object_0 =~= result_noted(result@, terminal)->Object_0);
    r
}

/// The document for a cancellation, as a command.
pub open spec fn cancel_told(info: Cancellation) -> Doc {
    Doc::Object(
        seq![
            ("solveId"@, Doc::Text(info.solve_id)),
            ("requestId"@, text_or_null(info.request_id)),
            ("problemId"@, text_or_null(info.problem_id)),
            ("reason"@, Doc::Text(info.reason)),
            ("requestedBy"@, Doc::Text(info.requested_by)),
            ("requestedAtMs"@, Doc::Count(info.requested_at_ms as u128)),
        ],
    )
}

/// The document for a cancellation, as a command.
pub fn cancel_payload(info: &CancelInfo) -> (r: Document)
    ensures
        r@ == cancel_told(info@),
{
    let r = Fields::new()
        .text("solveId", info.solve_id.as_str())
        .maybe_text("requestId", &info.request_id)
        .maybe_text("problemId", &info.problem_id)
        .text("reason", info.reason.as_str())
        .text("requestedBy", info.requested_by.as_str())
        .count("requestedAtMs", info.requested_at_ms as u128)
        .done();
    assert(r@->Object_0 =~= cancel_told(info@)->Object_0);
    r
}

/// The document for a cancellation, as an event.
pub open spec fn cancel_event_told(info: Cancellation) -> Doc {
    Doc::Object(
        seq![
            ("solveId"@, Doc::Text(info.solve_id)),
            ("requestId"@, text_or_null(info.request_id)),
            ("problemId"@, text_or_null(info.problem_id)),
            ("reason"@, Doc::Text(info.reason)),
            ("requestedBy"@, Doc::Text(info.requested_by)),
        ],
    )
}

/// The document for a cancellation, as an event.
pub fn cancel_event_payload(info: &CancelInfo) -> (r: Document)
    ensures
        r@ == cancel_event_told(info@),
{
    let r = Fields::new()
        .text("solveId", info.solve_id.as_str())
        .maybe_text("requestId", &info.request_id)
        .maybe_text("problemId", &info.problem_id)
        .text("reason", info.reason.as_str())
        .text("requestedBy", info.requested_by.as_str())
        .done();
    assert(r@->Object_0 =~= cancel_event_told(info@)->Object_0);
    r
}

/// The document for jobs that are about to be sent out.
pub fn frontier_built_payload(solve_id: &str, request_id: &str, jobs: usize) -> (r: Document)
    ensures
        r@ == Doc::Object(
            seq![
                ("solveId"@, Doc::Text(solve_id@)),
                ("requestId"@, Doc::Text(request_id@)),
                ("jobs"@, Doc::Count(jobs as u128)),
            ],
        ),
{
    let f = Fields::new()
        .text("solveId", solve_id)
        .text("requestId", request_id)
        .count("jobs", jobs as u128);
    assert(f@ =~= seq![
        ("solveId"@, Doc::Text(solve_id@)),
        ("requestId"@, Doc::Text(request_id@)),
        ("jobs"@, Doc::Count(jobs as u128)),
    ]);
    f.done()
}

/// The document for a job that was split.
pub open spec fn split_told(
    solve_id: Seq<char>,
    request_id: Seq<char>,
    f: Finding,
    parts: Seq<Seq<char>>,
) -> Doc {
    Doc::Object(
        seq![
            ("solveId"@, Doc::Text(solve_id)),
            ("requestId"@, Doc::Text(request_id)),
            ("parentJobId"@, Doc::Text(f.job_id)),
            ("childJobIds"@, Doc::List(text_docs(parts))),
            ("childCount"@, Doc::Count(f.child_jobs.len() as u128)),
            ("workerNode"@, Doc::Text(f.worker_node)),
            ("reason"@, text_or_null(f.error)),
        ],
    )
}

/// The document for a job that was split.
pub fn split_payload(
    solve_id: &str,
    request_id: &str,
    result: &SubproblemResult,
    parts: &Vec<String>,
) -> (r: Document)
    ensures
        r@ == split_told(solve_id@, request_id@, result@, texts(parts@)),
{
    let r = Fields::new()
        .text("solveId", solve_id)
        .text("requestId", request_id)
        .text("parentJobId", result.job_id.as_str())
        .value("childJobIds", text_list(parts))
        .count("childCount", result.child_jobs.len() as u128)
        .text("workerNode", result.worker_node.as_str())
        .maybe_text("reason", &result.error)
        .done();
    assert(r@->Object_0 =~= split_told(solve_id@, request_id@, result@, texts(parts@))->Object_0);
    r
}

/// The document for a failed job that was sent out again.
pub open spec fn redelegated_told(
    solve_id: Seq<char>,
    request_id: Seq<char>,
    f: Finding,
    retry_job_id: Seq<char>,
    retry: usize,
    max: usize,
) -> Doc {
    Doc::Object(
        seq![
            ("solveId"@, Doc::Text(solve_id)),
            ("requestId"@, Doc::Text(request_id)),
            ("failedJobId"@, Doc::Text(f.job_id)),
            ("retryJobId"@, Doc::Text(retry_job_id)),
            ("retryIndex"@, Doc::Count(retry as u128)),
            ("maxRetries"@, Doc::Count(max as u128)),
            ("workerNode"@, Doc::Text(f.worker_node)),
            ("error"@, text_or_null(f.error)),
        ],
    )
}

/// The document for a failed job that was sent out again.
pub fn redelegated_payload(
    solve_id: &str,
    request_id: &str,
    result: &SubproblemResult,
    retry_job_id: &str,
    retry: usize,
    max: usize,
) -> (r: Document)
    ensures
        r@ == redelegated_told(solve_id@, request_id@, result@, retry_job_id@, retry, max),
{
    let r = Fields::new()
        .text("solveId", solve_id)
        .text("requestId", request_id)
        .text("failedJobId", result.job_id.as_str())
        .text("retryJobId", retry_job_id)
        .count("retryIndex", retry as u128)
        .count("maxRetries", max as u128)
        .text("workerNode", result.worker_node.as_str())
        .maybe_text("error", &result.error)
        .done();
    assert(r@->Object_0 =~= redelegated_told(
        solve_id@,
        request_id@,
        result@,
        retry_job_id@,
        retry,
        max,
    )->Object_0);
    r
}

/// The document for a job that was sent out in place of one whose worker is silent.
pub open spec fn requeued_told(
    solve_id: Seq<char>,
    request_id: Seq<char>,
    stale: StaleJob,
    job: Job,
    stale_after_seconds: u64,
) -> Doc {
    Doc::Object(
        seq![
            ("solveId"@, Doc::Text(solve_id)),
            ("requestId"@, Doc::Text(request_id)),
            ("staleWorkerNode"@, Doc::Text(stale.worker_node)),
            ("staleJobId"@, Doc::Text(stale.job_id)),
            (
                "staleJobUuid"@,
                Doc::Text(
                    match stale.job_uuid {
                        Some(u) => u,
                        None => "unknown"@,
                    },
                ),
            ),
            ("retryJobId"@, Doc::Text(job.job_id)),
            ("retryJobUuid"@, Doc::Text(job.job_uuid)),
            ("lastHeartbeatMs"@, Doc::Count(stale.last_heartbeat_ms)),
            ("staleAfterSeconds"@, Doc::Count(stale_after_seconds as u128)),
        ],
    )
}

/// The document for a job that was sent out in place of one whose worker is silent.
pub fn requeued_payload(
    solve_id: &str,
    request_id: &str,
    stale: &StaleWorkerJob,
    job: &SubproblemJob,
    stale_after_seconds: u64,
) -> (r: Document)
    ensures
        r@ == requeued_told(solve_id@, request_id@, stale@, job@, stale_after_seconds),
{
    let uuid = match &stale.job_uuid {
        Some(u) => u.as_str(),
        None => "unknown",
    };
    let r = Fields::new()
        .text("solveId", solve_id)
        .text("requestId", request_id)
        .text("staleWorkerNode", stale.worker_node.as_str())
        .text("staleJobId", stale.job_id.as_str())
        .text("staleJobUuid", uuid)
        .text("retryJobId", job.job_id.as_str())
        .text("retryJobUuid", job.job_uuid.as_str())
        .count("lastHeartbeatMs", stale.last_heartbeat_ms)
        .count("staleAfterSeconds", stale_after_seconds as u128)
        .done();
    assert(r@->Object_0 =~= requeued_told(
        solve_id@,
        request_id@,
        stale@,
        job@,
        stale_after_seconds,
    )->Object_0);
    r
}

/// The document for the beginning of a solve, for the journal.
pub open spec fn start_noted(
    request_id: Seq<char>,
    revision: u64,
    jobs_expected: usize,
    distributed: bool,
) -> Doc {
    Doc::Object(
        seq![
            ("requestId"@, Doc::Text(request_id)),
            ("revision"@, Doc::Count(revision as u128)),
            ("jobsExpected"@, Doc::Count(jobs_expected as u128)),
            ("distributed"@, Doc::Flag(distributed)),
        ],
    )
}

/// The document for the beginning of a solve, for the journal.
pub fn start_record(request_id: &str, revision: u64, jobs_expected: usize, distributed: bool) -> (r:
    Document)
    ensures
        r@ == start_noted(request_id@, revision, jobs_expected, distributed),
{
    let r = Fields::new()
        .text("requestId", request_id)
        .count("revision", revision as u128)
        .count("jobsExpected", jobs_expected as u128)
        .flag("distributed", distributed)
        .done();
    assert(r@->Object_0 =~= start_noted(request_id@, revision, jobs_expected, distributed)->Object_0);
    r
}

/// The document for a job that is sent out, for the journal.
pub open spec fn submission_noted(job: Job) -> Doc {
    Doc::Object(
        seq![
            ("requestId"@, Doc::Text(job.request_id)),
            ("depth"@, Doc::Count(job.depth as u128)),
            ("retryIndex"@, Doc::Count(retry_index(job.job_id) as u128)),
            ("rootJobId"@, Doc::Text(retry_root(job.job_id))),
        ],
    )
}

/// The document for a job that is sent out, for the journal.
pub fn submission_record(job: &SubproblemJob) -> (r: Document)
    ensures
        r@ == submission_noted(job@),
{
    let root = job_retry_root(job.job_id.as_str());
    let index: usize = job_retry_index(job.job_id.as_str());
    let r = Fields::new()
        .text("requestId", job.request_id.as_str())
        .count("depth", job.depth as u128)
        .count("retryIndex", index as u128)
        .text("rootJobId", root.as_str())
        .done();
    assert(r@->Object_0 =~= submission_noted(job@)->Object_0);
    r
}

// What is told is understood.

/// Whether a JSON value is what was written as a document: texts and numbers are
/// kept, and each field of an object is there.
pub open spec fn reads_as(j: Json, d: Doc) -> bool
    decreases d,
{
    match d {
        Doc::Text(s) => j.text() == Some(s),
        Doc::Count(n) => n <= u64::MAX ==> j.unsigned() == Some(n as u64),
        Doc::Null => j is Null,
        Doc::Object(fields) => forall|i: int|
            #![trigger fields[i]]
            0 <= i < fields.len() ==> match j.field(fields[i].0) {
                Some(v) => reads_as(v, fields[i].1),
                None => false,
            },
        _ => true,
    }
}

/// What a node tells of itself, other nodes hear: the sender, the command, its
/// payload and the time.
pub proof fn commands_are_heard(
    frame: Json,
    node_id: Seq<char>,
    role: NodeRole,
    name: Seq<char>,
    payload: Doc,
    sent_at: u128,
    now: u128,
)
    requires
        sent_at <= u64::MAX,
        reads_as(
            frame,
            message_doc(
                "dd.mip-solver.control.v1"@,
                node_id,
                role,
                "commandName"@,
                name,
                payload,
                sent_at,
            ),
        ),
    ensures
        worker_frame(frame, now) == (WorkerFrame::Heard {
            node_id,
            command: name,
            payload: payload_of(frame),
            seen_at: sent_at,
        }),
        reads_as(payload_of(frame), payload),
{
    let d = message_doc(
        "dd.mip-solver.control.v1"@,
        node_id,
        role,
        "commandName"@,
        name,
        payload,
        sent_at,
    );
    let fields = d->Object_0;
    reveal_with_fuel(reads_as, 3);
    assert(fields[1] == ("service"@, Doc::Text(SERVICE_NAME@)));
    assert(fields[2] == ("nodeId"@, Doc::Text(node_id)));
    assert(fields[4] == ("commandName"@, Doc::Text(name)));
    assert(fields[5] == ("payload"@, payload));
    assert(fields[6] == ("timeMs"@, Doc::Count(sent_at)));
}

/// A cancellation that a master tells of is taken up by every node that hears of
/// it, for the same solve, with its reason, its sender and its time.
pub proof fn cancellations_are_heard(
    frame: Json,
    node_id: Seq<char>,
    role: NodeRole,
    c: Cancellation,
    problem_id: Option<Seq<char>>,
    found: Option<Seq<char>>,
    sent_at: u128,
    now: u128,
)
    requires
        sent_at <= u64::MAX,
        c.requested_at_ms <= u64::MAX,
        reads_as(
            frame,
            message_doc(
                "dd.mip-solver.control.v1"@,
                node_id,
                role,
                "commandName"@,
                "cancel-solve"@,
                cancel_told(c),
                sent_at,
            ),
        ),
    ensures
        is_cancel_frame(frame),
        cancel_target(payload_of(frame), problem_id, found) == Ok::<Seq<char>, Seq<char>>(
            c.solve_id,
        ),
        cancel_reason(frame) == c.reason,
        cancel_sender(frame) == c.requested_by,
        cancel_time(frame, now) == c.requested_at_ms,
        c.problem_id is None ==> named_problem(payload_of(frame)) == Ok::<
            Option<Seq<char>>,
            Seq<char>,
        >(None),
{
    commands_are_heard(frame, node_id, role, "cancel-solve"@, cancel_told(c), sent_at, now);
    let fields = message_doc(
        "dd.mip-solver.control.v1"@,
        node_id,
        role,
        "commandName"@,
        "cancel-solve"@,
        cancel_told(c),
        sent_at,
    )->Object_0;
    reveal_with_fuel(reads_as, 3);
    assert(fields[1] == ("service"@, Doc::Text(SERVICE_NAME@)));
    assert(fields[4] == ("commandName"@, Doc::Text("cancel-solve"@)));
    let payload = cancel_told(c)->Object_0;
    assert(payload[0] == ("solveId"@, Doc::Text(c.solve_id)));
    assert(payload[2] == ("problemId"@, text_or_null(c.problem_id)));
    assert(payload[3] == ("reason"@, Doc::Text(c.reason)));
    assert(payload[4] == ("requestedBy"@, Doc::Text(c.requested_by)));
    assert(payload[5] == ("requestedAtMs"@, Doc::Count(c.requested_at_ms)));
}

/// The event of a solve that has ended tells its answer.
pub proof fn ends_are_told(response: Answer)
    ensures
        ({
            let d = solve_finished_told(response);
            &&& tells(d, "solveId"@, Doc::Text(response.solve_id))
            &&& tells(d, "requestId"@, Doc::Text(response.request_id))
            &&& tells(d, "status"@, Doc::Text(response.status))
            &&& tells(d, "jobsPublished"@, Doc::Count(response.jobs_published as u128))
            &&& tells(d, "jobsCompleted"@, Doc::Count(response.jobs_completed as u128))
            &&& tells(d, "jobsRedelegated"@, Doc::Count(response.jobs_redelegated as u128))
            &&& tells(d, "jobsSplit"@, Doc::Count(response.jobs_split as u128))
            &&& tells(d, "timedOut"@, Doc::Flag(response.timed_out))
        }),
{
    let d = solve_finished_told(response);
    assert(d->Object_0[0].0 == "solveId"@);
    assert(d->Object_0[1].0 == "requestId"@);
    assert(d->Object_0[2].0 == "status"@);
    assert(d->Object_0[3].0 == "jobsPublished"@);
    assert(d->Object_0[4].0 == "jobsCompleted"@);
    assert(d->Object_0[5].0 == "jobsRedelegated"@);
    assert(d->Object_0[6].0 == "jobsSplit"@);
    assert(d->Object_0[7].0 == "timedOut"@);
}

/// The event of a cancelled solve tells which one it is and how far it came.
pub proof fn cancelled_ends_are_told(response: Answer)
    ensures
        ({
            let d = solve_cancelled_told(response);
            &&& tells(d, "solveId"@, Doc::Text(response.solve_id))
            &&& tells(d, "requestId"@, Doc::Text(response.request_id))
            &&& tells(d, "jobsPublished"@, Doc::Count(response.jobs_published as u128))
            &&& tells(d, "jobsCompleted"@, Doc::Count(response.jobs_completed as u128))
        }),
{
    let d = solve_cancelled_told(response);
    assert(d->Object_0[0].0 == "solveId"@);
    assert(d->Object_0[1].0 == "requestId"@);
    assert(d->Object_0[2].0 == "jobsPublished"@);
    assert(d->Object_0[3].0 == "jobsCompleted"@);
}

/// The record of a solve that has ended tells its answer.
pub proof fn ends_are_noted(response: Answer)
    ensures
        ({
            let d = finish_noted(response);
            &&& tells(d, "requestId"@, Doc::Text(response.request_id))
            &&& tells(d, "status"@, Doc::Text(response.status))
            &&& tells(d, "jobsExpected"@, Doc::Count(response.jobs_expected as u128))
            &&& tells(d, "jobsCompleted"@, Doc::Count(response.jobs_completed as u128))
            &&& tells(d, "jobsRedelegated"@, Doc::Count(response.jobs_redelegated as u128))
            &&& tells(d, "jobsSplit"@, Doc::Count(response.jobs_split as u128))
            &&& tells(d, "timedOut"@, Doc::Flag(response.timed_out))
        }),
{
    let d = finish_noted(response);
    assert(d->Object_0[0].0 == "requestId"@);
    assert(d->Object_0[1].0 == "status"@);
    assert(d->Object_0[2].0 == "jobsExpected"@);
    assert(d->Object_0[3].0 == "jobsCompleted"@);
    assert(d->Object_0[4].0 == "jobsRedelegated"@);
    assert(d->Object_0[5].0 == "jobsSplit"@);
    assert(d->Object_0[6].0 == "timedOut"@);
}

/// The record of a result tells the result, and whether it is the last word.
pub proof fn results_are_noted(result: Finding, terminal: bool)
    ensures
        ({
            let d = result_noted(result, terminal);
            &&& tells(d, "requestId"@, Doc::Text(result.request_id))
            &&& tells(d, "status"@, Doc::Text(result.status))
            &&& tells(d, "terminal"@, Doc::Flag(terminal))
            &&& tells(d, "workerNode"@, Doc::Text(result.worker_node))
            &&& tells(d, "error"@, text_or_null(result.error))
            &&& tells(d, "childJobCount"@, Doc::Count(result.child_jobs.len() as u128))
        }),
{
    let d = result_noted(result, terminal);
    assert(d->Object_0[0].0 == "requestId"@);
    assert(d->Object_0[1].0 == "status"@);
    assert(d->Object_0[2].0 == "terminal"@);
    assert(d->Object_0[3].0 == "workerNode"@);
    assert(d->Object_0[4].0 == "error"@);
    assert(d->Object_0[5].0 == "childJobCount"@);
}

/// The command to cancel tells the cancellation.
pub proof fn cancellations_are_told(info: Cancellation)
    ensures
        ({
            let d = cancel_told(info);
            &&& tells(d, "solveId"@, Doc::Text(info.solve_id))
            &&& tells(d, "requestId"@, text_or_null(info.request_id))
            &&& tells(d, "problemId"@, text_or_null(info.problem_id))
            &&& tells(d, "reason"@, Doc::Text(info.reason))
            &&& tells(d, "requestedBy"@, Doc::Text(info.requested_by))
            &&& tells(d, "requestedAtMs"@, Doc::Count(info.requested_at_ms as u128))
        }),
{
    let d = cancel_told(info);
    assert(d->Object_0[0].0 == "solveId"@);
    assert(d->Object_0[1].0 == "requestId"@);
    assert(d->Object_0[2].0 == "problemId"@);
    assert(d->Object_0[3].0 == "reason"@);
    assert(d->Object_0[4].0 == "requestedBy"@);
    assert(d->Object_0[5].0 == "requestedAtMs"@);
}

/// The event of a cancellation tells the cancellation.
pub proof fn cancel_events_are_told(info: Cancellation)
    ensures
        ({
            let d = cancel_event_told(info);
            &&& tells(d, "solveId"@, Doc::Text(info.solve_id))
            &&& tells(d, "requestId"@, text_or_null(info.request_id))
            &&& tells(d, "problemId"@, text_or_null(info.problem_id))
            &&& tells(d, "reason"@, Doc::Text(info.reason))
            &&& tells(d, "requestedBy"@, Doc::Text(info.requested_by))
        }),
{
    let d = cancel_event_told(info);
    assert(d->Object_0[0].0 == "solveId"@);
    assert(d->Object_0[1].0 == "requestId"@);
    assert(d->Object_0[2].0 == "problemId"@);
    assert(d->Object_0[3].0 == "reason"@);
    assert(d->Object_0[4].0 == "requestedBy"@);
}

/// The event of a split tells the job and its parts.
pub proof fn splits_are_told(
    solve_id: Seq<char>,
    request_id: Seq<char>,
    f: Finding,
    parts: Seq<Seq<char>>,
)
    ensures
        ({
            let d = split_told(solve_id, request_id, f, parts);
            &&& tells(d, "solveId"@, Doc::Text(solve_id))
            &&& tells(d, "requestId"@, Doc::Text(request_id))
            &&& tells(d, "parentJobId"@, Doc::Text(f.job_id))
            &&& tells(d, "childJobIds"@, Doc::List(text_docs(parts)))
            &&& tells(d, "childCount"@, Doc::Count(f.child_jobs.len() as u128))
            &&& tells(d, "workerNode"@, Doc::Text(f.worker_node))
            &&& tells(d, "reason"@, text_or_null(f.error))
        }),
{
    let d = split_told(solve_id, request_id, f, parts);
    assert(d->Object_0[0].0 == "solveId"@);
    assert(d->Object_0[1].0 == "requestId"@);
    assert(d->Object_0[2].0 == "parentJobId"@);
    assert(d->Object_0[3].0 == "childJobIds"@);
    assert(d->Object_0[4].0 == "childCount"@);
    assert(d->Object_0[5].0 == "workerNode"@);
    assert(d->Object_0[6].0 == "reason"@);
}

/// The event of a retry tells the failed job and the new one.
pub proof fn retries_are_told(
    solve_id: Seq<char>,
    request_id: Seq<char>,
    f: Finding,
    retry_job_id: Seq<char>,
    retry: usize,
    max: usize,
)
    ensures
        ({
            let d = redelegated_told(solve_id, request_id, f, retry_job_id, retry, max);
            &&& tells(d, "solveId"@, Doc::Text(solve_id))
            &&& tells(d, "requestId"@, Doc::Text(request_id))
            &&& tells(d, "failedJobId"@, Doc::Text(f.job_id))
            &&& tells(d, "retryJobId"@, Doc::Text(retry_job_id))
            &&& tells(d, "retryIndex"@, Doc::Count(retry as u128))
            &&& tells(d, "maxRetries"@, Doc::Count(max as u128))
            &&& tells(d, "workerNode"@, Doc::Text(f.worker_node))
            &&& tells(d, "error"@, text_or_null(f.error))
        }),
{
    let d = redelegated_told(solve_id, request_id, f, retry_job_id, retry, max);
    assert(d->Object_0[0].0 == "solveId"@);
    assert(d->Object_0[1].0 == "requestId"@);
    assert(d->Object_0[2].0 == "failedJobId"@);
    assert(d->Object_0[3].0 == "retryJobId"@);
    assert(d->Object_0[4].0 == "retryIndex"@);
    assert(d->Object_0[5].0 == "maxRetries"@);
    assert(d->Object_0[6].0 == "workerNode"@);
    assert(d->Object_0[7].0 == "error"@);
}

/// The event of a requeue tells the silent worker, its job and the new one.
pub proof fn requeues_are_told(
    solve_id: Seq<char>,
    request_id: Seq<char>,
    stale: StaleJob,
    job: Job,
    stale_after_seconds: u64,
)
    ensures
        ({
            let d = requeued_told(solve_id, request_id, stale, job, stale_after_seconds);
            &&& tells(d, "solveId"@, Doc::Text(solve_id))
            &&& tells(d, "requestId"@, Doc::Text(request_id))
            &&& tells(d, "staleWorkerNode"@, Doc::Text(stale.worker_node))
            &&& tells(d, "staleJobId"@, Doc::Text(stale.job_id))
            &&& tells(
                d,
                "staleJobUuid"@,
                Doc::Text(
                    match stale.job_uuid {
                        Some(u) => u,
                        None => "unknown"@,
                    },
                ),
            )
            &&& tells(d, "retryJobId"@, Doc::Text(job.job_id))
            &&& tells(d, "retryJobUuid"@, Doc::Text(job.job_uuid))
            &&& tells(d, "lastHeartbeatMs"@, Doc::Count(stale.last_heartbeat_ms))
            &&& tells(d, "staleAfterSeconds"@, Doc::Count(stale_after_seconds as u128))
        }),
{
    let d = requeued_told(solve_id, request_id, stale, job, stale_after_seconds);
    assert(d->Object_0[0].0 == "solveId"@);
    assert(d->Object_0[1].0 == "requestId"@);
    assert(d->Object_0[2].0 == "staleWorkerNode"@);
    assert(d->Object_0[3].0 == "staleJobId"@);
    assert(d->Object_0[4].0 == "staleJobUuid"@);
    assert(d->Object_0[5].0 == "retryJobId"@);
    assert(d->Object_0[6].0 == "retryJobUuid"@);
    assert(d->Object_0[7].0 == "lastHeartbeatMs"@);
    assert(d->Object_0[8].0 == "staleAfterSeconds"@);
}

/// The record of a solve that begins tells what is expected of it.
pub proof fn starts_are_noted(
    request_id: Seq<char>,
    revision: u64,
    jobs_expected: usize,
    distributed: bool,
)
    ensures
        ({
            let d = start_noted(request_id, revision, jobs_expected, distributed);
            &&& tells(d, "requestId"@, Doc::Text(request_id))
            &&& tells(d, "revision"@, Doc::Count(revision as u128))
            &&& tells(d, "jobsExpected"@, Doc::Count(jobs_expected as u128))
            &&& tells(d, "distributed"@, Doc::Flag(distributed))
        }),
{
    let d = start_noted(request_id, revision, jobs_expected, distributed);
    assert(d->Object_0[0].0 == "requestId"@);
    assert(d->Object_0[1].0 == "revision"@);
    assert(d->Object_0[2].0 == "jobsExpected"@);
    assert(d->Object_0[3].0 == "distributed"@);
}

/// The record of a job that is sent out tells which attempt it is.
pub proof fn submissions_are_noted(job: Job)
    ensures
        ({
            let d = submission_noted(job);
            &&& tells(d, "requestId"@, Doc::Text(job.request_id))
            &&& tells(d, "depth"@, Doc::Count(job.depth as u128))
            &&& tells(d, "retryIndex"@, Doc::Count(retry_index(job.job_id) as u128))
            &&& tells(d, "rootJobId"@, Doc::Text(retry_root(job.job_id)))
        }),
{
    let d = submission_noted(job);
    assert(d->Object_0[0].0 == "requestId"@);
    assert(d->Object_0[1].0 == "depth"@);
    assert(d->Object_0[2].0 == "retryIndex"@);
    assert(d->Object_0[3].0 == "rootJobId"@);
}

}
