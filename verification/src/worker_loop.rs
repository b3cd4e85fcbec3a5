//! What a worker does about the jobs that are handed to it, and what it tells of
//! them.

use crate::cancel::{cancellation_for, solve_cancel_requested_for, CancelInfo, Cancellations};
use crate::config::{env_u64, env_usize, env_value, RuntimeConfig};
use crate::document::{text_or_null, Doc, Document, Fields};
use crate::jobs::{Finding, Job, SubproblemJob, SubproblemResult};
use crate::model::text_view;
use crate::table::Table;
use crate::text::is_listed;
use crate::workers::gives_up;
use vstd::prelude::*;
use vstd::string::*;

verus! {

/// How a worker takes jobs.
#[derive(Debug)]
pub struct WorkerSettings {
    pub consumer: String,
    pub heartbeat_seconds: u64,
    pub max_in_flight: usize,
    pub saturation_retry_seconds: u64,
    pub ack_wait_seconds: u64,
    pub max_ack_pending: u64,
    pub max_deliver: u64,
}

/// A number that is at least one.
pub open spec fn positive(n: u64) -> u64 {
    if n < 1 {
        1
    } else {
        n
    }
}

/// A number between one and 128.
pub open spec fn slots(n: usize) -> usize {
    if n < 1 {
        1
    } else if n > 128 {
        128
    } else {
        n
    }
}

/// The configured settings; the consumer is `queue_group` where none is configured.
pub fn worker_settings(config: &RuntimeConfig, queue_group: &str) -> (r: WorkerSettings)
    ensures
        r.consumer@ == config.text_or("MIP_SOLVER_NATS_CONSUMER"@, queue_group@),
        r.heartbeat_seconds == positive(
            config.unsigned_or("MIP_SOLVER_WORKER_HEARTBEAT_SECONDS"@, 25),
        ),
        r.max_in_flight == slots(config.count_or("MIP_SOLVER_WORKER_MAX_IN_FLIGHT"@, 5)),
        r.saturation_retry_seconds == positive(
            config.unsigned_or("MIP_SOLVER_WORKER_SATURATION_RETRY_SECONDS"@, 180),
        ),
        r.ack_wait_seconds == config.unsigned_or("MIP_SOLVER_ACK_WAIT_SECONDS"@, 600),
        r.max_ack_pending == config.unsigned_or("MIP_SOLVER_MAX_ACK_PENDING"@, 32),
        r.max_deliver == config.unsigned_or("MIP_SOLVER_MAX_DELIVER"@, 5),
{
    let heartbeat: u64 = env_u64(config, "MIP_SOLVER_WORKER_HEARTBEAT_SECONDS", 25);
    let in_flight: usize = env_usize(config, "MIP_SOLVER_WORKER_MAX_IN_FLIGHT", 5);
    let retry: u64 = env_u64(config, "MIP_SOLVER_WORKER_SATURATION_RETRY_SECONDS", 180);
    WorkerSettings {
        consumer: env_value(config, "MIP_SOLVER_NATS_CONSUMER", queue_group),
        heartbeat_seconds: if heartbeat < 1 {
            1
        } else {
            heartbeat
        },
        max_in_flight: if in_flight < 1 {
            1
        } else if in_flight > 128 {
            128
        } else {
            in_flight
        },
        saturation_retry_seconds: if retry < 1 {
            1
        } else {
            retry
        },
        ack_wait_seconds: env_u64(config, "MIP_SOLVER_ACK_WAIT_SECONDS", 600),
        max_ack_pending: env_u64(config, "MIP_SOLVER_MAX_ACK_PENDING", 32),
        max_deliver: env_u64(config, "MIP_SOLVER_MAX_DELIVER", 5),
    }
}

/// What is told about a delivery.
#[derive(Clone, Copy, Debug, PartialEq, Eq, Structural)]
pub enum Reply {
    /// It is settled.
    Ack,
    /// It is to be delivered again after some seconds.
    Later(u64),
    /// It is being worked on.
    Working,
}

/// The fields that name a job.
pub open spec fn job_fields(consumer: Seq<char>, job: Job) -> Seq<(Seq<char>, Doc)> {
    seq![
        ("consumer"@, Doc::Text(consumer)),
        ("jobId"@, Doc::Text(job.job_id)),
        ("jobUuid"@, Doc::Text(job.job_uuid)),
        ("solveId"@, Doc::Text(job.solve_id)),
        ("problemId"@, text_or_null(job.problem_id)),
    ]
}

fn fields_of_job(consumer: &str, job: &SubproblemJob) -> (r: Fields)
    ensures
        r@ == job_fields(consumer@, job@),
{
    let r = Fields::new()
        .text("consumer", consumer)
        .text("jobId", job.job_id.as_str())
        .text("jobUuid", job.job_uuid.as_str())
        .text("solveId", job.solve_id.as_str())
        .maybe_text("problemId", &job.problem_id);
    assert(r@ =~= job_fields(consumer@, job@));
    r
}

/// What a worker tells when it is ready.
pub fn worker_ready_payload(consumer: &str, jobs_subject: &str, results_subject: &str) -> (r:
    Document)
    ensures
        r@ == Doc::Object(
            seq![
                ("consumer"@, Doc::Text(consumer@)),
                ("jobsSubject"@, Doc::Text(jobs_subject@)),
                ("resultsSubject"@, Doc::Text(results_subject@)),
            ],
        ),
{
    let f = Fields::new()
        .text("consumer", consumer)
        .text("jobsSubject", jobs_subject)
        .text("resultsSubject", results_subject);
    assert(f@ =~= seq![
        ("consumer"@, Doc::Text(consumer@)),
        ("jobsSubject"@, Doc::Text(jobs_subject@)),
        ("resultsSubject"@, Doc::Text(results_subject@)),
    ]);
    f.done()
}

/// What a worker tells of a job that it works on.
pub open spec fn job_payload(
    consumer: Seq<char>,
    job: Job,
    started_at_ms: u128,
    jobs_subject: Seq<char>,
    results_subject: Seq<char>,
    max_in_flight: usize,
) -> Doc {
    Doc::Object(
        job_fields(consumer, job) + seq![
            ("startedAtMs"@, Doc::Count(started_at_ms)),
            ("jobsSubject"@, Doc::Text(jobs_subject)),
            ("resultsSubject"@, Doc::Text(results_subject)),
            ("maxInFlight"@, Doc::Count(max_in_flight as u128)),
        ],
    )
}

/// What a worker tells of a job that it works on.
pub fn worker_job_payload(
    consumer: &str,
    job: &SubproblemJob,
    started_at_ms: u128,
    jobs_subject: &str,
    results_subject: &str,
    max_in_flight: usize,
) -> (r: Document)
    ensures
        r@ == job_payload(
            consumer@,
            job@,
            started_at_ms,
            jobs_subject@,
            results_subject@,
            max_in_flight,
        ),
{
    let r = fields_of_job(consumer, job)
        .count("startedAtMs", started_at_ms)
        .text("jobsSubject", jobs_subject)
        .text("resultsSubject", results_subject)
        .count("maxInFlight", max_in_flight as u128)
        .done();
    assert(r@->Object_0 =~= job_payload(
        consumer@,
        job@,
        started_at_ms,
        jobs_subject@,
        results_subject@,
        max_in_flight,
    )->Object_0);
    r
}

/// Why a worker turns a job away.
#[derive(Clone, Copy, Debug, PartialEq, Eq, Structural)]
pub enum Refusal {
    /// The job is sent out again because this worker was silent.
    Avoided,
    /// The solve is cancelled.
    Cancelled,
    /// The worker has no room.
    Saturated,
}

/// A job that is turned away: what is told of it, and what about its delivery.
#[derive(Debug)]
pub struct Refused {
    pub command: &'static str,
    pub payload: Document,
    pub reply: Reply,
}

/// Whether a solve, or its problem, is cancelled.
pub open spec fn is_cancelled(
    cancels: Cancellations,
    solve_id: Seq<char>,
    problem_id: Option<Seq<char>>,
) -> bool {
    cancellation_for(cancels, solve_id, problem_id) is Some
}

/// Why a worker turns a job away, apart from want of room.
pub open spec fn refusal(
    job: Job,
    node_id: Seq<char>,
    cancels: Cancellations,
) -> Option<Refusal> {
    if job.avoid_worker_nodes.contains(node_id) {
        Some(Refusal::Avoided)
    } else if is_cancelled(cancels, job.solve_id, job.problem_id) {
        Some(Refusal::Cancelled)
    } else {
        None
    }
}

/// The command that tells of a refusal.
pub open spec fn refusal_command(why: Refusal) -> Seq<char> {
    match why {
        Refusal::Avoided => "worker-avoided-stale-retry"@,
        Refusal::Cancelled => "worker-skipped-cancelled"@,
        Refusal::Saturated => "worker-saturated"@,
    }
}

/// What is told of a refusal.
pub open spec fn refusal_payload(why: Refusal, job: Job, s: WorkerSettings) -> Doc {
    let base = job_fields(s.consumer@, job);
    let retry = ("retryAfterSeconds"@, Doc::Count(s.saturation_retry_seconds as u128));
    match why {
        Refusal::Avoided => Doc::Object(base.push(retry)),
        Refusal::Cancelled => Doc::Object(base),
        Refusal::Saturated => Doc::Object(
            base.push(("maxInFlight"@, Doc::Count(s.max_in_flight as u128))).push(retry),
        ),
    }
}

/// What becomes of the delivery of a job that is turned away: one for a cancelled
/// solve is settled, another one comes again.
pub open spec fn refusal_reply(why: Refusal, s: WorkerSettings) -> Reply {
    match why {
        Refusal::Cancelled => Reply::Ack,
        _ => Reply::Later(s.saturation_retry_seconds),
    }
}

fn is_job_cancelled(cancels: &Table<CancelInfo>, solve_id: &str, problem_id: &Option<String>) -> (r:
    bool)
    ensures
        r == is_cancelled(cancels@, solve_id@, text_view(*problem_id)),
{
    match problem_id {
        Some(p) => solve_cancel_requested_for(cancels, solve_id, Some(p.as_str())),
        None => solve_cancel_requested_for(cancels, solve_id, None),
    }
}

/// Why a worker turns a job away, apart from want of room.
pub fn delivery_refusal(job: &SubproblemJob, node_id: &str, cancels: &Table<CancelInfo>) -> (r: Option<
    Refusal,
>)
    ensures
        r == refusal(job@, node_id@, cancels@),
{
    if is_listed(&job.avoid_worker_nodes, node_id) {
        return Some(Refusal::Avoided);
    }
    if is_job_cancelled(cancels, job.solve_id.as_str(), &job.problem_id) {
        return Some(Refusal::Cancelled);
    }
    None
}

/// Turns a job away.
pub fn refuse(why: Refusal, job: &SubproblemJob, settings: &WorkerSettings) -> (r: Refused)
    ensures
        r.command@ == refusal_command(why),
        r.payload@ == refusal_payload(why, job@, *settings),
        r.reply == refusal_reply(why, *settings),
{
    let base = fields_of_job(settings.consumer.as_str(), job);
    let retry: u64 = settings.saturation_retry_seconds;
    match why {
        Refusal::Avoided => Refused {
            command: "worker-avoided-stale-retry",
            payload: base.count("retryAfterSeconds", retry as u128).done(),
            reply: Reply::Later(retry),
        },
        Refusal::Cancelled => Refused {
            command: "worker-skipped-cancelled",
            payload: base.done(),
            reply: Reply::Ack,
        },
        Refusal::Saturated => Refused {
            command: "worker-saturated",
            payload: base.count("maxInFlight", settings.max_in_flight as u128).count(
                "retryAfterSeconds",
                retry as u128,
            ).done(),
            reply: Reply::Later(retry),
        },
    }
}

// A job that a worker has taken.

/// What happens while a worker has a job.
#[derive(Clone, Copy, Debug, PartialEq, Eq, Structural)]
pub enum WorkerEvent {
    /// It has taken the job.
    Taken,
    /// It looks for cancellations.
    Poll,
    /// It tells that it is at work.
    Heartbeat,
    /// The work broke down.
    Broken,
    /// It has a result.
    Solved,
    /// It cannot write the result.
    Unwritable,
    /// It could not send the result.
    Unsent,
    /// It has sent the result.
    Sent,
}

/// What a worker does about an event.
#[derive(Clone, Copy, Debug, PartialEq, Eq, Structural)]
pub enum WorkerAct {
    /// It goes on.
    GoOn,
    /// It tells that it is at work, and goes on.
    TellProgress,
    /// It gives the job up because the solve is cancelled.
    Skip,
    /// It stops working because the solve is cancelled.
    Stop,
    /// It throws the result away because the solve is cancelled.
    Discard,
    /// It leaves the job for another attempt.
    LeaveForLater,
    /// It leaves the job for another attempt, and counts an error.
    LeaveWithError,
    /// It is done.
    Complete,
}

/// What a worker does about an event.
pub open spec fn act_on(event: WorkerEvent, cancelled: bool) -> WorkerAct {
    match event {
        WorkerEvent::Taken => if cancelled {
            WorkerAct::Skip
        } else {
            WorkerAct::GoOn
        },
        WorkerEvent::Poll => if cancelled {
            WorkerAct::Stop
        } else {
            WorkerAct::GoOn
        },
        WorkerEvent::Heartbeat => WorkerAct::TellProgress,
        WorkerEvent::Broken => WorkerAct::LeaveForLater,
        WorkerEvent::Solved => if cancelled {
            WorkerAct::Discard
        } else {
            WorkerAct::GoOn
        },
        WorkerEvent::Unwritable => WorkerAct::LeaveWithError,
        WorkerEvent::Unsent => WorkerAct::LeaveWithError,
        WorkerEvent::Sent => WorkerAct::Complete,
    }
}

/// What a worker does about an event in the work on a job.
pub fn worker_act(
    event: WorkerEvent,
    cancels: &Table<CancelInfo>,
    solve_id: &str,
    problem_id: &Option<String>,
) -> (r: WorkerAct)
    ensures
        r == act_on(event, is_cancelled(cancels@, solve_id@, text_view(*problem_id))),
{
    let cancelled = is_job_cancelled(cancels, solve_id, problem_id);
    match event {
        WorkerEvent::Taken => if cancelled {
            WorkerAct::Skip
        } else {
            WorkerAct::GoOn
        },
        WorkerEvent::Poll => if cancelled {
            WorkerAct::Stop
        } else {
            WorkerAct::GoOn
        },
        WorkerEvent::Heartbeat => WorkerAct::TellProgress,
        WorkerEvent::Broken => WorkerAct::LeaveForLater,
        WorkerEvent::Solved => if cancelled {
            WorkerAct::Discard
        } else {
            WorkerAct::GoOn
        },
        WorkerEvent::Unwritable => WorkerAct::LeaveWithError,
        WorkerEvent::Unsent => WorkerAct::LeaveWithError,
        WorkerEvent::Sent => WorkerAct::Complete,
    }
}

/// The seconds after which a job that is left comes again.
pub const LEFT_JOB_SECONDS: u64 = 5;

/// What is told about the delivery.
pub open spec fn act_reply(act: WorkerAct) -> Option<Reply> {
    match act {
        WorkerAct::GoOn => None,
        WorkerAct::TellProgress => Some(Reply::Working),
        WorkerAct::Skip => Some(Reply::Ack),
        WorkerAct::Stop => Some(Reply::Ack),
        WorkerAct::Discard => Some(Reply::Ack),
        WorkerAct::LeaveForLater => Some(Reply::Later(LEFT_JOB_SECONDS)),
        WorkerAct::LeaveWithError => Some(Reply::Later(LEFT_JOB_SECONDS)),
        WorkerAct::Complete => Some(Reply::Ack),
    }
}

/// What is told about the delivery.
pub fn reply_for(act: WorkerAct) -> (r: Option<Reply>)
    ensures
        r == act_reply(act),
{
    match act {
        WorkerAct::GoOn => None,
        WorkerAct::TellProgress => Some(Reply::Working),
        WorkerAct::Skip => Some(Reply::Ack),
        WorkerAct::Stop => Some(Reply::Ack),
        WorkerAct::Discard => Some(Reply::Ack),
        WorkerAct::LeaveForLater => Some(Reply::Later(LEFT_JOB_SECONDS)),
        WorkerAct::LeaveWithError => Some(Reply::Later(LEFT_JOB_SECONDS)),
        WorkerAct::Complete => Some(Reply::Ack),
    }
}

/// How the task of the job ends, where it ends; a job that is done ends as its
/// result says.
pub open spec fn act_status(act: WorkerAct, result_status: Seq<char>) -> Option<Seq<char>> {
    match act {
        WorkerAct::GoOn => None,
        WorkerAct::TellProgress => None,
        WorkerAct::Skip => Some("cancelled"@),
        WorkerAct::Stop => Some("cancelled"@),
        WorkerAct::Discard => Some("cancelled"@),
        WorkerAct::LeaveForLater => Some("error"@),
        WorkerAct::LeaveWithError => Some("error"@),
        WorkerAct::Complete => Some(result_status),
    }
}

/// How the task of the job ends, where it ends.
pub fn task_status(act: WorkerAct, result_status: &str) -> (r: Option<String>)
    ensures
        text_view(r) == act_status(act, result_status@),
{
    match act {
        WorkerAct::GoOn => None,
        WorkerAct::TellProgress => None,
        WorkerAct::Skip => Some("cancelled".to_owned()),
        WorkerAct::Stop => Some("cancelled".to_owned()),
        WorkerAct::Discard => Some("cancelled".to_owned()),
        WorkerAct::LeaveForLater => Some("error".to_owned()),
        WorkerAct::LeaveWithError => Some("error".to_owned()),
        WorkerAct::Complete => Some(result_status.to_owned()),
    }
}

/// The command that tells of what a worker does, where something is told.
pub open spec fn act_command(act: WorkerAct) -> Option<Seq<char>> {
    match act {
        WorkerAct::TellProgress => Some("worker-progress"@),
        WorkerAct::Skip => Some("worker-skipped-cancelled"@),
        WorkerAct::Stop => Some("worker-stopped-cancelled"@),
        WorkerAct::Discard => Some("worker-discarded-cancelled-result"@),
        WorkerAct::Complete => Some("worker-completed"@),
        _ => None,
    }
}

/// The command that tells of what a worker does, where something is told.
pub fn command_for(act: WorkerAct) -> (r: Option<&'static str>)
    ensures
        match r {
            Some(s) => act_command(act) == Some(s@),
            None => act_command(act) is None,
        },
{
    match act {
        WorkerAct::TellProgress => Some("worker-progress"),
        WorkerAct::Skip => Some("worker-skipped-cancelled"),
        WorkerAct::Stop => Some("worker-stopped-cancelled"),
        WorkerAct::Discard => Some("worker-discarded-cancelled-result"),
        WorkerAct::Complete => Some("worker-completed"),
        _ => None,
    }
}

/// What a worker tells of a job that it gives up.
pub fn given_up_payload(consumer: &str, job: &SubproblemJob) -> (r: Document)
    ensures
        r@ == Doc::Object(job_fields(consumer@, job@)),
{
    fields_of_job(consumer, job).done()
}

/// The fields that name the job of a result.
pub open spec fn result_fields(consumer: Seq<char>, f: Finding) -> Seq<(Seq<char>, Doc)> {
    seq![
        ("consumer"@, Doc::Text(consumer)),
        ("jobId"@, Doc::Text(f.job_id)),
        ("jobUuid"@, Doc::Text(f.job_uuid)),
        ("solveId"@, Doc::Text(f.solve_id)),
        ("problemId"@, text_or_null(f.problem_id)),
        ("status"@, Doc::Text(f.status)),
    ]
}

fn fields_of_result(consumer: &str, result: &SubproblemResult) -> (r: Fields)
    ensures
        r@ == result_fields(consumer@, result@),
{
    let r = Fields::new()
        .text("consumer", consumer)
        .text("jobId", result.job_id.as_str())
        .text("jobUuid", result.job_uuid.as_str())
        .text("solveId", result.solve_id.as_str())
        .maybe_text("problemId", &result.problem_id)
        .text("status", result.status.as_str());
    assert(r@ =~= result_fields(consumer@, result@));
    r
}

/// What a worker tells of a result that it throws away.
pub fn discarded_payload(consumer: &str, result: &SubproblemResult) -> (r: Document)
    ensures
        r@ == Doc::Object(result_fields(consumer@, result@)),
{
    fields_of_result(consumer, result).done()
}

/// What a worker tells of a result that it has sent.
pub fn completed_payload(consumer: &str, result: &SubproblemResult, results_subject: &str) -> (r:
    Document)
    ensures
        r@ == Doc::Object(
            result_fields(consumer@, result@).push(
                ("resultsSubject"@, Doc::Text(results_subject@)),
            ),
        ),
{
    fields_of_result(consumer, result).text("resultsSubject", results_subject).done()
}

/// A delivery is settled, or asked for again, exactly when the work on its job
/// ends; until then it is at most told that the work goes on.
pub proof fn deliveries_are_settled_once(event: WorkerEvent, cancelled: bool, status: Seq<char>)
    ensures
        ({
            let act = act_on(event, cancelled);
            let over = act_status(act, status) is Some;
            &&& over <==> act_reply(act) == Some(Reply::Ack) || act_reply(act) == Some(
                Reply::Later(LEFT_JOB_SECONDS),
            )
            &&& !over ==> act_reply(act) is None || act_reply(act) == Some(Reply::Working)
        }),
{
}

/// No result of a cancelled solve is sent: a worker that looks at the
/// cancellations before it sends one ends the work instead, and settles the
/// delivery.
pub proof fn cancelled_work_ends(event: WorkerEvent, status: Seq<char>)
    requires
        event is Taken || event is Poll || event is Solved,
    ensures
        act_status(act_on(event, true), status) == Some("cancelled"@),
        act_reply(act_on(event, true)) == Some(Reply::Ack),
        act_status(act_on(event, false), status) is None,
{
}

/// A job that goes to a worker which was silent over it is asked for again, so that
/// another worker gets it.
pub proof fn silent_workers_pass_jobs_on(
    job: Job,
    node_id: Seq<char>,
    cancels: Cancellations,
    s: WorkerSettings,
)
    requires
        job.avoid_worker_nodes.contains(node_id),
    ensures
        refusal(job, node_id, cancels) == Some(Refusal::Avoided),
        refusal_reply(Refusal::Avoided, s) == Reply::Later(s.saturation_retry_seconds),
{
}

/// A job is refused exactly where it avoids the node, or its solve or its problem is
/// cancelled.
pub proof fn other_jobs_are_taken(job: Job, node_id: Seq<char>, cancels: Cancellations)
    ensures
        refusal(job, node_id, cancels) is None <==> !job.avoid_worker_nodes.contains(node_id)
            && !cancels.contains_key(job.solve_id) && (job.problem_id matches Some(p)
            ==> !cancels.contains_key(p)),
        refusal(job, node_id, cancels) == Some(Refusal::Cancelled) <==>
            !job.avoid_worker_nodes.contains(node_id) && (cancels.contains_key(job.solve_id) || (
        job.problem_id is Some && cancels.contains_key(job.problem_id->0))),
{
}

/// A worker has at least one slot and at most 128, and as many as are configured in
/// between.
pub proof fn slots_are_kept(n: usize)
    ensures
        1 <= slots(n) <= 128,
        1 <= n <= 128 ==> slots(n) == n,
        n > 128 ==> slots(n) == 128,
        positive(0) == 1,
{
}

/// Work that is not cancelled goes on until its result is sent, which completes it with
/// the status of the result; work that breaks down, or cannot be sent, is left for
/// another attempt and told as an error.
pub proof fn work_ends_as_its_result(status: Seq<char>)
    ensures
        act_on(WorkerEvent::Taken, false) == WorkerAct::GoOn,
        act_on(WorkerEvent::Solved, false) == WorkerAct::GoOn,
        act_status(act_on(WorkerEvent::Sent, false), status) == Some(status),
        act_reply(act_on(WorkerEvent::Sent, false)) == Some(Reply::Ack),
        act_command(act_on(WorkerEvent::Sent, false)) == Some("worker-completed"@),
        act_status(act_on(WorkerEvent::Broken, false), status) == Some("error"@),
        act_status(act_on(WorkerEvent::Unsent, false), status) == Some("error"@),
        act_status(act_on(WorkerEvent::Unwritable, false), status) == Some("error"@),
        act_reply(act_on(WorkerEvent::Broken, false)) == Some(Reply::Later(5)),
        act_reply(act_on(WorkerEvent::Unsent, false)) == Some(Reply::Later(5)),
        act_reply(act_on(WorkerEvent::Heartbeat, false)) == Some(Reply::Working),
        act_command(act_on(WorkerEvent::Heartbeat, false)) == Some("worker-progress"@),
{
}

/// What a worker tells of giving a job up is what a master takes so.
pub proof fn given_up_jobs_are_told(event: WorkerEvent)
    requires
        event is Taken || event is Poll || event is Solved,
    ensures
        act_command(act_on(event, true)) is Some && gives_up(act_command(act_on(event, true))->0),
        gives_up(refusal_command(Refusal::Cancelled)),
{
}

}
