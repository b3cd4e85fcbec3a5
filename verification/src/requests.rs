//! What requests ask for, and the answers that need no solver.

use crate::cancel::{
    cancel_error, cancel_view, cancellation, cancelling, cleanup_finished_solve,
    request_solve_cancel, resolves, CancelInfo, Cancellation,
};
use crate::config::{
    configured_limits, max_stream_commands, model_limits, stream_limit, NodeRole, RuntimeConfig,
};
use crate::coordination::lock_busy;
use crate::document::{is_list_document, list_document, tells, text_or_null, Doc, Document, Fields};
use crate::ids::{
    canonical_uuid, is_random_uuid, new_uuid_string, parse_uuid, problem_id_with, problem_name,
    request_id_with, request_name,
};
use crate::model::{
    model_result, model_view, normalized_problem, normalized_result, text_view, valid, Limits,
    MipProblemSpec, Model,
};
use crate::model_store::{conflict, ProblemStoreStatus};
use crate::options::{configured_choices, merged_choices, SolveOptions};
use crate::order::views;
use crate::registry::{already_running, is_active, SolveEntry, SolveRegistryEntry};
use crate::replies::{
    error_reply, fine, refused, reply, solve_error_status, status_for, tells_model_conflict,
    Answered, HttpReply, ACCEPTED, BAD_REQUEST, CONFLICT, NOT_FOUND, OK, PAYLOAD_TOO_LARGE,
    SERVICE_UNAVAILABLE,
};
use crate::stream::{
    built_model, frames_view, parse_problem_from_commands, Frame, LiveSession, StreamCommand,
    StreamFrame,
};
use crate::table::Table;
use crate::text::{dec, decimal, has_text, occurs_at, trim, trimmed};
use crate::wire::{model_document, model_or_null};
use vstd::prelude::*;
use vstd::string::*;

verus! {

// Bodies.

/// The text about a body that is too long.
pub open spec fn too_long(max: nat) -> Seq<char> {
    "request body exceeds "@ + dec(max) + " bytes"@
}

/// Adds a piece to the body of a request, as long as the body is not too long.
pub fn take_body_chunk(body: &mut Vec<u8>, chunk: &Vec<u8>, max_bytes: usize) -> (r: Result<
    (),
    String,
>)
    ensures
        if old(body)@.len() + chunk@.len() > usize::MAX {
            r is Err && r->Err_0@ == "request body is too large"@ && final(body)@ == old(body)@
        } else if old(body)@.len() + chunk@.len() > max_bytes {
            r is Err && r->Err_0@ == too_long(max_bytes as nat) && final(body)@ == old(body)@
        } else {
            r is Ok && final(body)@ == old(body)@ + chunk@
        },
{
    let have: usize = body.len();
    let more: usize = chunk.len();
    if more > usize::MAX - have {
        return Err("request body is too large".to_owned());
    }
    if have + more > max_bytes {
        let mut e = "request body exceeds ".to_owned();
        e.append(decimal(max_bytes).as_str());
        e.append(" bytes");
        return Err(e);
    }
    let ghost first = body@;
    let mut i: usize = 0;
    assert(first + chunk@.take(0) =~= first);
    while i < chunk.len()
        invariant
            i <= chunk@.len(),
            body@ == first + chunk@.take(i as int),
        decreases chunk@.len() - i,
    {
        body.push(chunk[i]);
        assert(chunk@.take(i + 1) =~= chunk@.take(i as int).push(chunk@[i as int]));
        assert(first + chunk@.take(i + 1) =~= (first + chunk@.take(i as int)).push(
            chunk@[i as int],
        ));
        i = i + 1;
    }
    assert(chunk@.take(i as int) =~= chunk@);
    Ok(())
}

/// What was read of an uploaded body.
#[derive(Debug)]
pub enum Upload {
    /// It is a model.
    Problem(MipProblemSpec),
    /// It is no JSON; why.
    NoJson(String),
    /// It is no model and has no field for one.
    NoField,
    /// It has a field for a model that holds none; why.
    BadField(String),
    /// It has a field that holds a model.
    Field(MipProblemSpec),
}

/// The model that an uploaded body holds.
pub open spec fn uploaded(upload: Upload, limits: Limits) -> Result<Model, Seq<char>> {
    match upload {
        Upload::Problem(p) => normalized_result(p@, limits),
        Upload::NoJson(e) => Err("parse problem JSON: "@ + e@),
        Upload::NoField => Err(
            "problem upload must be a problem object or contain a problem field"@,
        ),
        Upload::BadField(e) => Err("parse problem field: "@ + e@),
        Upload::Field(p) => normalized_result(p@, limits),
    }
}

/// The model that an uploaded body holds.
pub fn problem_from_upload(upload: Upload, limits: Limits) -> (r: Result<MipProblemSpec, String>)
    ensures
        model_result(r) == uploaded(upload, limits),
{
    match upload {
        Upload::Problem(p) => normalized_problem(p, limits),
        Upload::NoJson(e) => {
            let mut m = "parse problem JSON: ".to_owned();
            m.append(e.as_str());
            Err(m)
        },
        Upload::NoField => Err(
            "problem upload must be a problem object or contain a problem field".to_owned(),
        ),
        Upload::BadField(e) => {
            let mut m = "parse problem field: ".to_owned();
            m.append(e.as_str());
            Err(m)
        },
        Upload::Field(p) => normalized_problem(p, limits),
    }
}

// Who may be asked for what.

/// What only a master does.
#[derive(Clone, Copy, Debug, PartialEq, Eq, Structural)]
pub enum MasterWork {
    Store,
    Solve,
    Cancel,
}

/// Why another node does not do it.
pub open spec fn not_master(work: MasterWork) -> Seq<char> {
    match work {
        MasterWork::Store => "this pod booted as slave and will not store problems"@,
        MasterWork::Solve => "this pod booted as slave and will not act as master"@,
        MasterWork::Cancel => "this pod booted as slave and will not cancel master solves"@,
    }
}

/// The answer of a node that is no master.
pub fn require_master(role: NodeRole, work: MasterWork) -> (r: Option<HttpReply>)
    ensures
        match r {
            None => role is Master,
            Some(a) => role is Slave && a@ == refused(CONFLICT, not_master(work), false),
        },
{
    match role {
        NodeRole::Master => None,
        NodeRole::Slave => {
            let text = match work {
                MasterWork::Store => "this pod booted as slave and will not store problems",
                MasterWork::Solve => "this pod booted as slave and will not act as master",
                MasterWork::Cancel => {
                    "this pod booted as slave and will not cancel master solves"
                },
            };
            Some(error_reply(CONFLICT, text, false))
        },
    }
}

/// The problem that a path names.
pub fn path_problem_id(text: &str) -> (r: Result<String, HttpReply>)
    ensures
        match r {
            Ok(id) => canonical_uuid(trimmed(text@)) == Some(id@),
            Err(a) => canonical_uuid(trimmed(text@)) is None && a@ == refused(
                BAD_REQUEST,
                "problem id must be a UUID"@,
                false,
            ),
        },
{
    match parse_uuid(trim(text).as_str()) {
        Some(id) => Ok(id),
        None => Err(error_reply(BAD_REQUEST, "problem id must be a UUID", false)),
    }
}

/// The answer to an upload whose body could not be read.
pub fn unreadable_body_reply(error: &str) -> (r: HttpReply)
    ensures
        r@ == refused(PAYLOAD_TOO_LARGE, error@, true),
{
    error_reply(PAYLOAD_TOO_LARGE, error, true)
}

/// The answer to an upload whose body holds no model.
pub fn no_model_reply(error: &str) -> (r: HttpReply)
    ensures
        r@ == refused(BAD_REQUEST, error@, true),
{
    error_reply(BAD_REQUEST, error, true)
}

/// The document for a model that was stored.
pub open spec fn stored_doc(
    problem_id: Seq<char>,
    revision: u64,
    status: ProblemStoreStatus,
    shared: bool,
    bytes: usize,
    m: Model,
) -> Doc {
    Doc::Object(
        seq![
            ("ok"@, Doc::Flag(true)),
            ("problemId"@, Doc::Text(problem_id)),
            ("revision"@, Doc::Count(revision as u128)),
            ("stored"@, Doc::Flag(true)),
            (
                "storeStatus"@,
                Doc::Text(
                    match status {
                        ProblemStoreStatus::Created => "created"@,
                        ProblemStoreStatus::Existing => "existing"@,
                    },
                ),
            ),
            ("redisStored"@, Doc::Flag(shared)),
            ("distributedReady"@, Doc::Flag(shared)),
            ("bytes"@, Doc::Count(bytes as u128)),
            ("variables"@, Doc::Count(m.c.len() as u128)),
            ("constraints"@, Doc::Count(m.a.len() as u128)),
        ],
    )
}

/// The answer to an upload, given what came of storing its model.
pub fn upload_reply(
    problem_id: &str,
    revision: u64,
    stored: Result<ProblemStoreStatus, String>,
    shared: bool,
    bytes: usize,
    problem: &MipProblemSpec,
) -> (r: HttpReply)
    ensures
        match stored {
            Ok(status) => r@ == fine(
                OK,
                stored_doc(problem_id@, revision, status, shared, bytes, problem@),
            ),
            Err(e) => r@ == refused(status_for(e@), e@, true),
        },
{
    match stored {
        Err(e) => error_reply(solve_error_status(e.as_str()), e.as_str(), true),
        Ok(status) => {
            let body = Fields::new()
                .flag("ok", true)
                .text("problemId", problem_id)
                .count("revision", revision as u128)
                .flag("stored", true)
                .text("storeStatus", status.as_str())
                .flag("redisStored", shared)
                .flag("distributedReady", shared)
                .count("bytes", bytes as u128)
                .count("variables", problem.c.len() as u128)
                .count("constraints", problem.a.len() as u128)
                .done();
            assert(problem@.a.len() == problem.a@.len());
            assert(body@->Object_0 =~= stored_doc(
                problem_id@,
                revision,
                status,
                shared,
                bytes,
                problem@,
            )->Object_0);
            reply(OK, body)
        },
    }
}

// What is to be solved.

/// A request for a solve.
#[derive(Debug)]
pub struct SolveRequest {
    pub request_id: Option<String>,
    pub problem_id: Option<String>,
    pub problem: Option<MipProblemSpec>,
    pub commands: Option<Vec<StreamCommand>>,
    pub options: Option<SolveOptions>,
}

/// What is to be solved.
#[derive(Debug)]
pub struct SolveInput {
    pub request_id: String,
    pub problem_id: String,
    pub problem: MipProblemSpec,
    pub revision: u64,
    pub options: SolveOptions,
}

/// The model that a request holds, or the commands that build it.
pub open spec fn requested_model(input: SolveRequest, config: RuntimeConfig) -> Result<
    (Model, int),
    Answered,
> {
    match input.problem {
        Some(p) => Ok((p@, 0)),
        None => match input.commands {
            Some(commands) => match built_model(
                commands@,
                stream_limit(config),
                configured_limits(config),
            ) {
                Ok((m, revision, _)) => Ok((m, revision)),
                Err(e) => Err(refused(BAD_REQUEST, e, true)),
            },
            None => Err(refused(BAD_REQUEST, "request needs either problem or commands"@, false)),
        },
    }
}

/// What a request asks a master to solve, given fresh identifiers for what it
/// leaves open.
pub open spec fn resolved_request(
    role: NodeRole,
    input: SolveRequest,
    config: RuntimeConfig,
    fresh_request: Seq<char>,
    fresh_problem: Seq<char>,
) -> Result<(Seq<char>, Seq<char>, Model, int), Answered> {
    let name = request_name(text_view(input.request_id), fresh_request);
    if role is Slave {
        Err(refused(CONFLICT, not_master(MasterWork::Solve), false))
    } else {
        match problem_name(text_view(input.problem_id), name, fresh_problem) {
            Err(e) => Err(refused(BAD_REQUEST, e, true)),
            Ok(id) => match requested_model(input, config) {
                Err(a) => Err(a),
                Ok((m, revision)) => Ok((name, id, m, revision)),
            },
        }
    }
}

/// What a request asks a master to solve, by contents.
pub open spec fn input_view(r: Result<SolveInput, HttpReply>) -> Result<
    (Seq<char>, Seq<char>, Model, int),
    Answered,
> {
    match r {
        Ok(s) => Ok((s.request_id@, s.problem_id@, s.problem@, s.revision as int)),
        Err(e) => Err(e@),
    }
}

/// Finds out what a request asks a master to solve, given fresh identifiers.
pub fn resolve_solve_request_with(
    role: NodeRole,
    input: SolveRequest,
    config: &RuntimeConfig,
    fresh_request: &str,
    fresh_problem: &str,
) -> (r: Result<SolveInput, HttpReply>)
    ensures
        input_view(r) == resolved_request(role, input, *config, fresh_request@, fresh_problem@),
        r is Ok ==> r->Ok_0.options@ == merged_choices(
            input.options,
            configured_choices(*config),
        ),
{
    if let Some(answer) = require_master(role, MasterWork::Solve) {
        return Err(answer);
    }
    let name = request_id_with(input.request_id, fresh_request);
    let id = match problem_id_with(input.problem_id, name.as_str(), fresh_problem) {
        Ok(id) => id,
        Err(e) => {
            return Err(error_reply(BAD_REQUEST, e.as_str(), true));
        },
    };
    let options = SolveOptions::merged(input.options, config);
    if let Some(problem) = input.problem {
        return Ok(
            SolveInput { request_id: name, problem_id: id, problem, revision: 0, options },
        );
    }
    match input.commands {
        Some(commands) => match parse_problem_from_commands(
            &commands,
            max_stream_commands(config),
            model_limits(config),
        ) {
            Ok((problem, revision, _frames)) => Ok(
                SolveInput { request_id: name, problem_id: id, problem, revision, options },
            ),
            Err(e) => Err(error_reply(BAD_REQUEST, e.as_str(), true)),
        },
        None => Err(
            error_reply(BAD_REQUEST, "request needs either problem or commands", false),
        ),
    }
}

/// Finds out what a request asks a master to solve.
pub fn resolve_solve_request(role: NodeRole, input: SolveRequest, config: &RuntimeConfig) -> (r:
    Result<SolveInput, HttpReply>)
    ensures
        exists|a: Seq<char>, b: Seq<char>|
            is_random_uuid(a) && is_random_uuid(b) && input_view(r)
                == #[trigger] resolved_request(role, input, *config, a, b),
        r is Ok ==> r->Ok_0.options@ == merged_choices(
            input.options,
            configured_choices(*config),
        ),
{
    let a = new_uuid_string();
    let b = new_uuid_string();
    resolve_solve_request_with(role, input, config, a.as_str(), b.as_str())
}

/// The problem that a request for a solve of a stored model names.
pub fn stored_problem_id(role: NodeRole, path: &str) -> (r: Result<String, HttpReply>)
    ensures
        match r {
            Ok(id) => role is Master && canonical_uuid(trimmed(path@)) == Some(id@),
            Err(a) => a@ == if role is Slave {
                refused(CONFLICT, not_master(MasterWork::Solve), false)
            } else {
                refused(BAD_REQUEST, "problem id must be a UUID"@, false)
            } && (role is Slave || canonical_uuid(trimmed(path@)) is None),
        },
{
    if let Some(answer) = require_master(role, MasterWork::Solve) {
        return Err(answer);
    }
    path_problem_id(path)
}

/// The problem that an upload names.
pub fn uploaded_problem_id(role: NodeRole, path: &str) -> (r: Result<String, HttpReply>)
    ensures
        match r {
            Ok(id) => role is Master && canonical_uuid(trimmed(path@)) == Some(id@),
            Err(a) => a@ == if role is Slave {
                refused(CONFLICT, not_master(MasterWork::Store), false)
            } else {
                refused(BAD_REQUEST, "problem id must be a UUID"@, false)
            } && (role is Slave || canonical_uuid(trimmed(path@)) is None),
        },
{
    if let Some(answer) = require_master(role, MasterWork::Store) {
        return Err(answer);
    }
    path_problem_id(path)
}

/// What a request for a solve of a stored model asks for, given what was found
/// under its identifier.
pub fn stored_solve_input(
    problem_id: String,
    loaded: Option<MipProblemSpec>,
    request: Option<String>,
    options: Option<SolveOptions>,
    config: &RuntimeConfig,
    fresh_request: &str,
) -> (r: Result<SolveInput, HttpReply>)
    ensures
        match loaded {
            None => input_view(r) == Err::<(Seq<char>, Seq<char>, Model, int), Answered>(
                refused(NOT_FOUND, "stored problem not found"@, false),
            ),
            Some(p) => {
                &&& input_view(r) == Ok::<(Seq<char>, Seq<char>, Model, int), Answered>(
                    (request_name(text_view(request), fresh_request@), problem_id@, p@, 0),
                )
                &&& r->Ok_0.options@ == merged_choices(options, configured_choices(*config))
            },
        },
{
    match loaded {
        None => Err(error_reply(NOT_FOUND, "stored problem not found", false)),
        Some(problem) => Ok(
            SolveInput {
                request_id: request_id_with(request, fresh_request),
                problem_id,
                problem,
                revision: 0,
                options: SolveOptions::merged(options, config),
            },
        ),
    }
}

// Sessions.

/// A session by its contents.
pub open spec fn session_view(s: Option<LiveSession>) -> Option<(Option<Model>, u64)> {
    match s {
        Some(s) => Some((model_view(s.problem), s.revision)),
        None => None,
    }
}

/// The revision of a session, as a database holds it: none that is below zero.
pub fn stored_revision(revision: i64) -> (r: u64)
    ensures
        r == if revision < 0 {
            0
        } else {
            revision as int
        },
{
    if revision < 0 {
        0
    } else {
        revision as u64
    }
}

/// The session that counts: the one in the database, else the one in the shared
/// cache, else the one in memory.
pub open spec fn current_session(
    database: Option<(Option<Model>, u64)>,
    cache: Option<(Option<Model>, u64)>,
    memory: Option<(Option<Model>, u64)>,
) -> Option<(Option<Model>, u64)> {
    if database is Some {
        database
    } else if cache is Some {
        cache
    } else {
        memory
    }
}

/// The session that counts.
pub fn choose_session(
    database: Option<LiveSession>,
    cache: Option<LiveSession>,
    memory: Option<LiveSession>,
) -> (r: Option<LiveSession>)
    ensures
        session_view(r) == current_session(
            session_view(database),
            session_view(cache),
            session_view(memory),
        ),
{
    if database.is_some() {
        database
    } else if cache.is_some() {
        cache
    } else {
        memory
    }
}

/// The answer to a stream of too many commands.
pub fn check_command_count(count: usize, config: &RuntimeConfig) -> (r: Option<HttpReply>)
    ensures
        match r {
            None => count <= stream_limit(*config),
            Some(a) => count > stream_limit(*config) && a@ == refused(
                BAD_REQUEST,
                "too many stream commands"@,
                false,
            ),
        },
{
    if count > max_stream_commands(config) {
        Some(error_reply(BAD_REQUEST, "too many stream commands", false))
    } else {
        None
    }
}

/// Whether an answer tells of the frames that a stream of commands gave.
pub open spec fn tells_frames(
    a: Answered,
    session_id: Seq<char>,
    revision: u64,
    frames: Seq<Frame>,
) -> bool {
    exists|list: Doc|
        {
            &&& #[trigger] is_list_document::<StreamFrame>(list, frames)
            &&& a == fine(
                OK,
                Doc::Object(
                    seq![
                        ("ok"@, Doc::Flag(true)),
                        ("sessionId"@, Doc::Text(session_id)),
                        ("revision"@, Doc::Count(revision as u128)),
                        ("frames"@, list),
                    ],
                ),
            )
        }
}

/// The answer to a stream of commands.
pub fn frames_reply(session_id: &str, revision: u64, frames: &Vec<StreamFrame>) -> (r: HttpReply)
    ensures
        tells_frames(r@, session_id@, revision, frames_view(frames@)),
{
    let list = list_document(frames);
    let ghost l = list@;
    assert(views(frames@) =~= frames_view(frames@));
    let f = Fields::new()
        .flag("ok", true)
        .text("sessionId", session_id)
        .count("revision", revision as u128)
        .value("frames", list);
    assert(f@ =~= seq![
        ("ok"@, Doc::Flag(true)),
        ("sessionId"@, Doc::Text(session_id@)),
        ("revision"@, Doc::Count(revision as u128)),
        ("frames"@, l),
    ]);
    reply(OK, f.done())
}

/// The answer to a stream of commands, given what came of saving the session: it
/// is saved only where its revision has not changed.
pub fn session_saved_reply(
    saved: Result<bool, String>,
    session_id: &str,
    revision: u64,
    frames: &Vec<StreamFrame>,
) -> (r: HttpReply)
    ensures
        match saved {
            Ok(true) => tells_frames(r@, session_id@, revision, frames_view(frames@)),
            Ok(false) => r@ == refused(
                CONFLICT,
                "session revision changed before this update could be persisted"@,
                false,
            ),
            Err(e) => r@ == refused(SERVICE_UNAVAILABLE, e@, true),
        },
{
    match saved {
        Err(e) => error_reply(SERVICE_UNAVAILABLE, e.as_str(), true),
        Ok(done) => {
            if done {
                frames_reply(session_id, revision, frames)
            } else {
                error_reply(
                    CONFLICT,
                    "session revision changed before this update could be persisted",
                    false,
                )
            }
        },
    }
}

/// The answer to a request for a session.
pub fn session_reply(session_id: &str, session: &Option<LiveSession>) -> (r: HttpReply)
    ensures
        match *session {
            None => r@ == refused(NOT_FOUND, "session not found"@, false),
            Some(s) => r@ == fine(
                OK,
                Doc::Object(
                    seq![
                        ("ok"@, Doc::Flag(true)),
                        ("sessionId"@, Doc::Text(session_id@)),
                        ("revision"@, Doc::Count(s.revision as u128)),
                        ("problem"@, model_or_null(model_view(s.problem))),
                    ],
                ),
            ),
        },
{
    match session {
        None => error_reply(NOT_FOUND, "session not found", false),
        Some(s) => {
            let problem = match &s.problem {
                Some(p) => model_document(p),
                None => Document::Null,
            };
            let ghost d = problem@;
            assert(d == model_or_null(model_view(s.problem)));
            let f = Fields::new()
                .flag("ok", true)
                .text("sessionId", session_id)
                .count("revision", s.revision as u128)
                .value("problem", problem);
            assert(f@ =~= seq![
                ("ok"@, Doc::Flag(true)),
                ("sessionId"@, Doc::Text(session_id@)),
                ("revision"@, Doc::Count(s.revision as u128)),
                ("problem"@, d),
            ]);
            reply(OK, f.done())
        },
    }
}

/// What a request for a solve of a session asks for: its model, under the
/// session's name where the request has none.
pub open spec fn session_request(
    session: Option<(Option<Model>, u64)>,
    session_id: Seq<char>,
    request: Option<Seq<char>>,
    problem: Option<Seq<char>>,
    fresh_request: Seq<char>,
    fresh_problem: Seq<char>,
) -> Result<(Seq<char>, Seq<char>, Model, int), Answered> {
    match session {
        None => Err(refused(NOT_FOUND, "session not found"@, false)),
        Some((None, _)) => Err(
            refused(BAD_REQUEST, "session has no initialized problem"@, false),
        ),
        Some((Some(m), revision)) => {
            let name = request_name(
                match request {
                    Some(s) => Some(s),
                    None => Some(session_id),
                },
                fresh_request,
            );
            match problem_name(problem, name, fresh_problem) {
                Err(e) => Err(refused(BAD_REQUEST, e, true)),
                Ok(id) => Ok((name, id, m, revision as int)),
            }
        },
    }
}

/// What a request for a solve of a session asks for, given fresh identifiers.
pub fn session_solve_input(
    session: Option<LiveSession>,
    session_id: &str,
    request: Option<String>,
    problem: Option<String>,
    options: Option<SolveOptions>,
    config: &RuntimeConfig,
    fresh_request: &str,
    fresh_problem: &str,
) -> (r: Result<SolveInput, HttpReply>)
    ensures
        input_view(r) == session_request(
            session_view(session),
            session_id@,
            text_view(request),
            text_view(problem),
            fresh_request@,
            fresh_problem@,
        ),
        r is Ok ==> r->Ok_0.options@ == merged_choices(options, configured_choices(*config)),
{
    let s = match session {
        None => {
            return Err(error_reply(NOT_FOUND, "session not found", false));
        },
        Some(s) => s,
    };
    let model = match s.problem {
        None => {
            return Err(
                error_reply(BAD_REQUEST, "session has no initialized problem", false),
            );
        },
        Some(p) => p,
    };
    let wanted = match request {
        Some(t) => Some(t),
        None => Some(session_id.to_owned()),
    };
    let name = request_id_with(wanted, fresh_request);
    match problem_id_with(problem, name.as_str(), fresh_problem) {
        Err(e) => Err(error_reply(BAD_REQUEST, e.as_str(), true)),
        Ok(id) => Ok(
            SolveInput {
                request_id: name,
                problem_id: id,
                problem: model,
                revision: s.revision,
                options: SolveOptions::merged(options, config),
            },
        ),
    }
}

// Cancellations.

/// The document for a cancellation that was asked for.
pub open spec fn cancelling_doc(c: Cancellation) -> Doc {
    Doc::Object(
        seq![
            ("ok"@, Doc::Flag(true)),
            ("status"@, Doc::Text("cancelling"@)),
            ("solveId"@, Doc::Text(c.solve_id)),
            ("requestId"@, text_or_null(c.request_id)),
            ("problemId"@, text_or_null(c.problem_id)),
            ("reason"@, Doc::Text(c.reason)),
            ("requestedBy"@, Doc::Text(c.requested_by)),
            ("requestedAtMs"@, Doc::Count(c.requested_at_ms)),
        ],
    )
}

/// The reason of a cancellation, where the request gives none.
pub open spec fn reason_or_default(reason: Option<Seq<char>>) -> Seq<char> {
    match reason {
        Some(s) => s,
        None => "cancel requested by client"@,
    }
}

/// Who asks for a cancellation; the node where the request does not say.
pub open spec fn sender_or_node(sender: Option<Seq<char>>, node_id: Seq<char>) -> Seq<char> {
    match sender {
        Some(s) => s,
        None => node_id,
    }
}

/// Cancels the solve that a key names, and answers.
pub fn cancel_solve_key(
    solves: &mut Table<SolveRegistryEntry>,
    cancels: &mut Table<CancelInfo>,
    role: NodeRole,
    node_id: &str,
    key: &str,
    reason: Option<String>,
    requested_by: Option<String>,
    now: u128,
) -> (r: (HttpReply, Option<CancelInfo>))
    ensures
        if role is Slave {
            &&& r.0@ == refused(CONFLICT, not_master(MasterWork::Cancel), false)
            &&& r.1 is None
            &&& final(solves)@ == old(solves)@
            &&& final(cancels)@ == old(cancels)@
        } else {
            exists|id: Option<Seq<char>>| #[trigger]
                resolves(old(solves)@, key@, id) && match cancel_error(old(solves)@, key@, id) {
                    Some(e) => {
                        &&& r.0@ == refused(NOT_FOUND, e, false)
                        &&& r.1 is None
                        &&& final(solves)@ == old(solves)@
                        &&& final(cancels)@ == old(cancels)@
                    },
                    None => {
                        let e = old(solves)@[id->0];
                        let why = reason_or_default(text_view(reason));
                        let c = cancellation(
                            e,
                            why,
                            sender_or_node(text_view(requested_by), node_id@),
                            now,
                        );
                        &&& r.0@ == fine(ACCEPTED, cancelling_doc(c))
                        &&& cancel_view(r.1) == Some(c)
                        &&& final(solves)@ == old(solves)@.insert(id->0, cancelling(e, why, now))
                        &&& final(cancels)@ == old(cancels)@.insert(id->0, c)
                    },
                }
        },
{
    if let Some(answer) = require_master(role, MasterWork::Cancel) {
        return (answer, None);
    }
    let why = match reason {
        Some(s) => s,
        None => "cancel requested by client".to_owned(),
    };
    let who = match requested_by {
        Some(s) => s,
        None => node_id.to_owned(),
    };
    match request_solve_cancel(solves, cancels, key, why, who, now) {
        Err(e) => (error_reply(NOT_FOUND, e.as_str(), false), None),
        Ok(info) => {
            let body = Fields::new()
                .flag("ok", true)
                .text("status", "cancelling")
                .text("solveId", info.solve_id.as_str())
                .maybe_text("requestId", &info.request_id)
                .maybe_text("problemId", &info.problem_id)
                .text("reason", info.reason.as_str())
                .text("requestedBy", info.requested_by.as_str())
                .count("requestedAtMs", info.requested_at_ms)
                .done();
            assert(body@->Object_0 =~= cancelling_doc(info@)->Object_0);
            (reply(ACCEPTED, body), Some(info))
        },
    }
}

/// The document for a solve that was cleared away.
pub open spec fn cleaned_doc(e: SolveEntry) -> Doc {
    Doc::Object(
        seq![
            ("ok"@, Doc::Flag(true)),
            ("status"@, Doc::Text("cleaned"@)),
            ("solveId"@, Doc::Text(e.solve_id)),
            ("requestId"@, Doc::Text(e.request_id)),
            ("previousStatus"@, Doc::Text(e.status)),
            ("jobsRemoved"@, Doc::Count(e.jobs.dom().len() as u128)),
        ],
    )
}

/// Clears away the solve that a key names if it has ended; none where it has not,
/// and is to be cancelled instead.
pub fn clean_up_solve(
    solves: &mut Table<SolveRegistryEntry>,
    cancels: &mut Table<CancelInfo>,
    key: &str,
) -> (r: Option<HttpReply>)
    ensures
        exists|id: Option<Seq<char>>| #[trigger]
            resolves(old(solves)@, key@, id) && if id is Some && old(solves)@.contains_key(id->0)
                && !is_active(old(solves)@[id->0]) {
                &&& r is Some
                &&& r->0@ == fine(OK, cleaned_doc(old(solves)@[id->0]))
                &&& final(solves)@ == old(solves)@.remove(id->0)
                &&& final(cancels)@ == old(cancels)@.remove(id->0)
            } else {
                &&& r is None
                &&& final(solves)@ == old(solves)@
                &&& final(cancels)@ == old(cancels)@
            },
{
    match cleanup_finished_solve(solves, cancels, key) {
        Ok(Some(e)) => {
            let n: usize = e.jobs.len();
            let body = Fields::new()
                .flag("ok", true)
                .text("status", "cleaned")
                .text("solveId", e.solve_id.as_str())
                .text("requestId", e.request_id.as_str())
                .text("previousStatus", e.status.as_str())
                .count("jobsRemoved", n as u128)
                .done();
            assert(body@->Object_0 =~= cleaned_doc(e@)->Object_0);
            Some(reply(OK, body))
        },
        _ => None,
    }
}

// Laws about the answers.

proof fn part_of_a_whole(before: Seq<char>, part: Seq<char>, after: Seq<char>)
    ensures
        has_text(before + part + after, part),
{
    let s = before + part + after;
    assert(s.subrange(before.len() as int, (before.len() + part.len()) as int) =~= part);
    assert(occurs_at(s, part, before.len() as int));
}

proof fn end_of_a_whole(front: Seq<char>, first: char, part: Seq<char>, whole: Seq<char>)
    requires
        whole == front + seq![first] + part,
    ensures
        has_text(whole, part),
{
    part_of_a_whole(front + seq![first], part, Seq::empty());
    assert(whole =~= (front + seq![first]) + part + Seq::empty());
}

proof fn running_solves_are_named(problem_id: Seq<char>, solve_id: Seq<char>)
    ensures
        has_text(already_running(problem_id, solve_id), "already has running solve"@),
{
    let mark = " already has running solve "@;
    let inner = "already has running solve"@;
    reveal_strlit(" already has running solve ");
    reveal_strlit("already has running solve");
    let head = "problemId "@ + problem_id;
    assert(mark =~= seq![' '] + inner + seq![' ']);
    part_of_a_whole(head + seq![' '], inner, seq![' '] + solve_id);
    assert(already_running(problem_id, solve_id) =~= (head + seq![' ']) + inner + (seq![' ']
        + solve_id));
}

proof fn other_models_are_named(problem_id: Seq<char>, revision: u64)
    ensures
        has_text(conflict(problem_id, revision), "already exists with a different model"@),
{
    let front = "stored problem "@ + problem_id + " revision "@ + dec(revision as nat);
    let part = "already exists with a different model"@;
    assert(" already exists with a different model"@ =~= seq![' '] + part) by {
        reveal_strlit(" already exists with a different model");
        reveal_strlit("already exists with a different model");
    }
    assert(front + (seq![' '] + part) =~= front + seq![' '] + part);
    end_of_a_whole(front, ' ', part, conflict(problem_id, revision));
}

proof fn busy_locks_are_named(key: Seq<char>)
    ensures
        has_text(lock_busy(key), "coordination lock busy"@),
{
    let busy = "coordination lock busy: "@;
    let short = "coordination lock busy"@;
    reveal_strlit("coordination lock busy: ");
    reveal_strlit("coordination lock busy");
    assert(busy =~= short + seq![':', ' ']);
    part_of_a_whole(Seq::empty(), short, seq![':', ' '] + key);
    assert(lock_busy(key) =~= Seq::empty() + short + (seq![':', ' '] + key));
}

/// A request that meets a running solve of its problem, another model under its
/// identifier, or a lock that someone holds, is answered as a conflict.
pub proof fn conflicts_are_told_as_conflicts(
    problem_id: Seq<char>,
    solve_id: Seq<char>,
    revision: u64,
    key: Seq<char>,
)
    ensures
        status_for(already_running(problem_id, solve_id)) == CONFLICT,
        status_for(conflict(problem_id, revision)) == CONFLICT,
        tells_model_conflict(conflict(problem_id, revision)),
        status_for(lock_busy(key)) == CONFLICT,
{
    running_solves_are_named(problem_id, solve_id);
    other_models_are_named(problem_id, revision);
    busy_locks_are_named(key);
}

/// A node that is no master refuses every solve; a master solves the model that is given,
/// at revision zero, or else the one that the commands build.
pub proof fn masters_solve_what_is_given(
    role: NodeRole,
    input: SolveRequest,
    config: RuntimeConfig,
    fresh_request: Seq<char>,
    fresh_problem: Seq<char>,
)
    ensures
        ({
            let r = resolved_request(role, input, config, fresh_request, fresh_problem);
            &&& role is Slave ==> r is Err && r->Err_0.status == CONFLICT
            &&& r matches Ok((name, id, m, revision)) ==> {
                &&& role is Master
                &&& name == request_name(text_view(input.request_id), fresh_request)
                &&& input.problem matches Some(p) ==> m == p@ && revision == 0
                &&& input.problem is None ==> input.commands is Some && (built_model(
                    input.commands->0@,
                    stream_limit(config),
                    configured_limits(config),
                ) matches Ok((built, n, _)) && built == m && n == revision)
            }
            &&& input.problem is None && input.commands is None ==> r is Err
        }),
{
}

/// A session is that of the database where it is there, else that of the cache, else the
/// one in memory.
pub proof fn sessions_are_found_in_order(
    database: Option<(Option<Model>, u64)>,
    cache: Option<(Option<Model>, u64)>,
    memory: Option<(Option<Model>, u64)>,
)
    ensures
        database is Some ==> current_session(database, cache, memory) == database,
        database is None && cache is Some ==> current_session(database, cache, memory) == cache,
        database is None && cache is None ==> current_session(database, cache, memory) == memory,
{
}

/// A session is solved at its own revision and with its own model; one that is not there,
/// or holds no model, is refused.
pub proof fn sessions_are_solved_as_they_stand(
    session: Option<(Option<Model>, u64)>,
    session_id: Seq<char>,
    request: Option<Seq<char>>,
    problem: Option<Seq<char>>,
    fresh_request: Seq<char>,
    fresh_problem: Seq<char>,
)
    ensures
        ({
            let r = session_request(
                session,
                session_id,
                request,
                problem,
                fresh_request,
                fresh_problem,
            );
            &&& session is None ==> r is Err && r->Err_0.status == NOT_FOUND
            &&& session matches Some((None, _)) ==> r is Err && r->Err_0.status == BAD_REQUEST
            &&& r matches Ok((name, id, m, revision)) ==> (session matches Some((held, at)) && held
                == Some(m) && revision == at)
            &&& r matches Ok((name, _, _, _)) ==> request is None ==> name == request_name(
                Some(session_id),
                fresh_request,
            )
            &&& r matches Ok((name, _, _, _)) ==> request is Some ==> name == request_name(
                request,
                fresh_request,
            )
        }),
{
}

/// An upload is taken where it is a model that passes the checks, or holds one.
pub proof fn uploads_hold_valid_models(upload: Upload, limits: Limits)
    ensures
        uploaded(upload, limits) is Ok <==> (upload matches Upload::Problem(p) && valid(p@, limits))
            || (upload matches Upload::Field(p) && valid(p@, limits)),
        uploaded(upload, limits) matches Ok(m) ==> (upload matches Upload::Problem(p) ==> m.c
            == p@.c && m.a == p@.a && m.b == p@.b && m.sense == p@.sense),
        uploaded(upload, limits) matches Ok(m) ==> (upload matches Upload::Field(p) ==> m.c == p@.c
            && m.a == p@.a && m.b == p@.b && m.sense == p@.sense),
{
}

/// A cancellation has the reason and the sender that are told, and else stands for the
/// client and the node.
pub proof fn cancellations_have_a_sender(
    reason: Option<Seq<char>>,
    sender: Option<Seq<char>>,
    node_id: Seq<char>,
)
    ensures
        reason matches Some(s) ==> reason_or_default(reason) == s,
        reason is None ==> reason_or_default(reason) == "cancel requested by client"@,
        sender matches Some(s) ==> sender_or_node(sender, node_id) == s,
        sender is None ==> sender_or_node(sender, node_id) == node_id,
{
}

/// The answer to an upload tells what was stored, and where.
pub proof fn stored_models_are_told(
    problem_id: Seq<char>,
    revision: u64,
    status: ProblemStoreStatus,
    shared: bool,
    bytes: usize,
    m: Model,
)
    ensures
        ({
            let d = stored_doc(problem_id, revision, status, shared, bytes, m);
            &&& tells(d, "ok"@, Doc::Flag(true))
            &&& tells(d, "problemId"@, Doc::Text(problem_id))
            &&& tells(d, "revision"@, Doc::Count(revision as u128))
            &&& tells(d, "stored"@, Doc::Flag(true))
            &&& tells(
                d,
                "storeStatus"@,
                Doc::Text(
                    match status {
                        ProblemStoreStatus::Created => "created"@,
                        ProblemStoreStatus::Existing => "existing"@,
                    },
                ),
            )
            &&& tells(d, "redisStored"@, Doc::Flag(shared))
            &&& tells(d, "distributedReady"@, Doc::Flag(shared))
            &&& tells(d, "bytes"@, Doc::Count(bytes as u128))
            &&& tells(d, "variables"@, Doc::Count(m.c.len() as u128))
            &&& tells(d, "constraints"@, Doc::Count(m.a.len() as u128))
        }),
{
    let d = stored_doc(problem_id, revision, status, shared, bytes, m);
    assert(d->Object_0[0].0 == "ok"@);
    assert(d->Object_0[1].0 == "problemId"@);
    assert(d->Object_0[2].0 == "revision"@);
    assert(d->Object_0[3].0 == "stored"@);
    assert(d->Object_0[4].0 == "storeStatus"@);
    assert(d->Object_0[5].0 == "redisStored"@);
    assert(d->Object_0[6].0 == "distributedReady"@);
    assert(d->Object_0[7].0 == "bytes"@);
    assert(d->Object_0[8].0 == "variables"@);
    assert(d->Object_0[9].0 == "constraints"@);
}

/// The answer to a cancellation tells the cancellation.
pub proof fn cancellations_are_answered(c: Cancellation)
    ensures
        ({
            let d = cancelling_doc(c);
            &&& tells(d, "ok"@, Doc::Flag(true))
            &&& tells(d, "status"@, Doc::Text("cancelling"@))
            &&& tells(d, "solveId"@, Doc::Text(c.solve_id))
            &&& tells(d, "requestId"@, text_or_null(c.request_id))
            &&& tells(d, "problemId"@, text_or_null(c.problem_id))
            &&& tells(d, "reason"@, Doc::Text(c.reason))
            &&& tells(d, "requestedBy"@, Doc::Text(c.requested_by))
            &&& tells(d, "requestedAtMs"@, Doc::Count(c.requested_at_ms))
        }),
{
    let d = cancelling_doc(c);
    assert(d->Object_0[0].0 == "ok"@);
    assert(d->Object_0[1].0 == "status"@);
    assert(d->Object_0[2].0 == "solveId"@);
    assert(d->Object_0[3].0 == "requestId"@);
    assert(d->Object_0[4].0 == "problemId"@);
    assert(d->Object_0[5].0 == "reason"@);
    assert(d->Object_0[6].0 == "requestedBy"@);
    assert(d->Object_0[7].0 == "requestedAtMs"@);
}

/// The answer to a cleanup tells the solve that was removed.
pub proof fn cleanups_are_answered(e: SolveEntry)
    ensures
        ({
            let d = cleaned_doc(e);
            &&& tells(d, "ok"@, Doc::Flag(true))
            &&& tells(d, "status"@, Doc::Text("cleaned"@))
            &&& tells(d, "solveId"@, Doc::Text(e.solve_id))
            &&& tells(d, "requestId"@, Doc::Text(e.request_id))
            &&& tells(d, "previousStatus"@, Doc::Text(e.status))
            &&& tells(d, "jobsRemoved"@, Doc::Count(e.jobs.dom().len() as u128))
        }),
{
    let d = cleaned_doc(e);
    assert(d->Object_0[0].0 == "ok"@);
    assert(d->Object_0[1].0 == "status"@);
    assert(d->Object_0[2].0 == "solveId"@);
    assert(d->Object_0[3].0 == "requestId"@);
    assert(d->Object_0[4].0 == "previousStatus"@);
    assert(d->Object_0[5].0 == "jobsRemoved"@);
}

}
