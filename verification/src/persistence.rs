//! What the node keeps outside its own memory, and how.

use crate::config::{first_configured_env, first_keys_count, keys_view, RuntimeConfig};
use crate::coordination::{
    backend_name, key_prefix, live_mutex_url_keys, redis_key_prefix, requested_backends,
    CoordinationBackend, CoordinationConfig,
};
use crate::document::{text_docs, text_list, text_or_null, Doc, Document, Fields};
use crate::ids::{
    i32_count, job_retry_index, job_retry_root, mip_solver_problem_model_key,
    mip_solver_session_model_key, mip_solver_session_revision_lock_key,
    mip_solver_solve_frontier_key, mip_solver_solve_request_lock_key, mip_solver_solve_snapshot_key,
    retry_index, retry_root,
};
use crate::jobs::{SubproblemJob, SubproblemResult};
use crate::model::text_view;
use crate::registry::SolveRegistryEntry;
use crate::response::SolveResponse;
use crate::text::{dec, same, texts};
use vstd::prelude::*;
use vstd::string::*;

verus! {

/// The names of the tables in the database.
#[derive(Debug)]
pub struct TableNames {
    pub sessions: String,
    pub solves: String,
    pub jobs: String,
    pub events: String,
}

/// What is kept in the database.
#[derive(Debug)]
pub struct PostgresPersistenceContract {
    pub enabled: bool,
    pub url_env: Option<String>,
    pub session_table: String,
    pub solve_table: String,
    pub job_table: String,
    pub event_table: String,
    pub journal_kinds: Vec<String>,
}

/// What is kept in the shared cache.
#[derive(Debug)]
pub struct RedisPersistenceContract {
    pub enabled: bool,
    pub url_env: Option<String>,
    pub key_prefix: String,
    pub problem_model_key: String,
    pub solve_snapshot_key: String,
    pub solve_frontier_key: String,
    pub session_model_key: String,
    pub session_revision_lock_key: String,
    pub generated_mutex_key: String,
}

/// How nodes keep out of each other's way.
#[derive(Debug)]
pub struct CoordinationPersistenceContract {
    pub enabled: bool,
    pub backends: Vec<String>,
    pub redis_lock_prefix: String,
    pub live_mutex_url_env: Option<String>,
    pub lock_ttl_ms: u64,
    pub lock_wait_ms: u64,
    pub session_revision_lock_key: String,
    pub solve_request_lock_key: String,
}

/// What the node keeps, and where.
#[derive(Debug)]
pub struct PersistenceContract {
    pub mode: String,
    pub postgres: PostgresPersistenceContract,
    pub redis: RedisPersistenceContract,
    pub coordination: CoordinationPersistenceContract,
    pub in_memory: Vec<String>,
}

/// The keys under which the URL of the database can be set.
pub open spec fn database_url_keys() -> Seq<Seq<char>> {
    seq![
        "MIP_SOLVER_DATABASE_URL"@,
        "AGENT_TASKS_RDS_DATABASE_URL"@,
        "RDS_DATABASE_URL"@,
        "DATABASE_URL"@,
        "PG_DATABASE_URL"@,
    ]
}

/// The keys under which the URL of the shared cache can be set.
pub open spec fn cache_url_keys() -> Seq<Seq<char>> {
    seq!["MIP_SOLVER_REDIS_URL"@, "REDIS_URL"@]
}

/// The key that sets the URL of the database.
pub fn database_url_key(config: &RuntimeConfig) -> (r: Option<String>)
    ensures
        text_view(r) == config.first_set(database_url_keys()),
{
    let keys: [&str; 5] = [
        "MIP_SOLVER_DATABASE_URL",
        "AGENT_TASKS_RDS_DATABASE_URL",
        "RDS_DATABASE_URL",
        "DATABASE_URL",
        "PG_DATABASE_URL",
    ];
    assert(keys_view(keys@) =~= database_url_keys());
    first_configured_env(config, &keys)
}

/// The key that sets the URL of the shared cache.
pub fn cache_url_key(config: &RuntimeConfig) -> (r: Option<String>)
    ensures
        text_view(r) == config.first_set(cache_url_keys()),
{
    let keys: [&str; 2] = ["MIP_SOLVER_REDIS_URL", "REDIS_URL"];
    assert(keys_view(keys@) =~= cache_url_keys());
    first_configured_env(config, &keys)
}

fn live_mutex_url_key(config: &RuntimeConfig) -> (r: Option<String>)
    ensures
        text_view(r) == config.first_set(live_mutex_url_keys()),
{
    let keys: [&str; 3] = ["MIP_SOLVER_LIVE_MUTEX_URL", "LIVE_MUTEX_URL", "LMX_HTTP_URL"];
    assert(keys_view(keys@) =~= live_mutex_url_keys());
    first_configured_env(config, &keys)
}

/// The kinds of events in the journal.
pub open spec fn journal_kinds() -> Seq<Seq<char>> {
    seq![
        "mip-solver.solve-started"@,
        "mip-solver.model-revision"@,
        "mip-solver.subproblem-submitted"@,
        "mip-solver.subproblem-finished"@,
        "mip-solver.subproblem-split"@,
        "mip-solver.solve-finished"@,
    ]
}

/// What is kept in memory alone.
pub open spec fn kept_in_memory() -> Seq<Seq<char>> {
    seq![
        "active solve registry"@,
        "recent problem model cache"@,
        "live session problem snapshot"@,
        "current master-owned frontier"@,
        "observed worker registry"@,
    ]
}

/// The names of lock services.
pub open spec fn backend_names(list: Seq<CoordinationBackend>) -> Seq<Seq<char>> {
    list.map_values(|b: CoordinationBackend| backend_name(b))
}

/// The lock services that a configuration sets.
pub open spec fn configured_backends(config: RuntimeConfig) -> Seq<CoordinationBackend> {
    requested_backends(
        config.text_or("MIP_SOLVER_COORDINATION_BACKENDS"@, "auto"@),
        config.first_set(cache_url_keys()) is Some,
        config.first_text(live_mutex_url_keys()) is Some,
    )
}

/// The prefix of the locks that a configuration sets.
pub open spec fn lock_prefix(config: RuntimeConfig) -> Seq<char> {
    config.text_or("MIP_SOLVER_REDIS_LOCK_PREFIX"@, key_prefix(config))
}

/// Whether a contract is the one for the database.
pub open spec fn is_database_contract(
    c: PostgresPersistenceContract,
    config: RuntimeConfig,
    tables: TableNames,
) -> bool {
    &&& c.enabled == (config.first_set(database_url_keys()) is Some)
    &&& text_view(c.url_env) == config.first_set(database_url_keys())
    &&& c.session_table@ == tables.sessions@
    &&& c.solve_table@ == tables.solves@
    &&& c.job_table@ == tables.jobs@
    &&& c.event_table@ == tables.events@
    &&& texts(c.journal_kinds@) == journal_kinds()
}

/// Whether a contract is the one for the shared cache.
pub open spec fn is_cache_contract(
    c: RedisPersistenceContract,
    config: RuntimeConfig,
    generated_mutex_key: Seq<char>,
) -> bool {
    let prefix = key_prefix(config);
    &&& c.enabled == (config.first_set(cache_url_keys()) is Some)
    &&& text_view(c.url_env) == config.first_set(cache_url_keys())
    &&& c.key_prefix@ == prefix
    &&& c.problem_model_key@ == prefix + ":problem:"@ + "{problemId}"@ + ":revision:"@ + dec(0)
    &&& c.solve_snapshot_key@ == prefix + ":solve:"@ + "{solveId}"@ + ":snapshot"@
    &&& c.solve_frontier_key@ == prefix + ":solve:"@ + "{solveId}"@ + ":frontier"@
    &&& c.session_model_key@ == prefix + ":session:"@ + "{sessionId}"@ + ":model"@
    &&& c.session_revision_lock_key@ == prefix + ":session:"@ + "{sessionId}"@
        + ":revision-lock"@
    &&& c.generated_mutex_key@ == generated_mutex_key
}

/// Whether a contract is the one for coordination.
pub open spec fn is_coordination_contract(
    c: CoordinationPersistenceContract,
    config: RuntimeConfig,
) -> bool {
    &&& c.enabled == (configured_backends(config).len() > 0)
    &&& texts(c.backends@) == backend_names(configured_backends(config))
    &&& c.redis_lock_prefix@ == lock_prefix(config)
    &&& text_view(c.live_mutex_url_env) == config.first_set(live_mutex_url_keys())
    &&& c.lock_ttl_ms == config.unsigned_or("MIP_SOLVER_COORDINATION_LOCK_TTL_MS"@, 30_000)
    &&& c.lock_wait_ms == config.unsigned_or("MIP_SOLVER_COORDINATION_WAIT_MS"@, 5_000)
    &&& c.session_revision_lock_key@ == lock_prefix(config) + ":session:"@ + "{sessionId}"@
        + ":revision-lock"@
    &&& c.solve_request_lock_key@ == lock_prefix(config) + ":solve-request:"@ + "{problemId}"@
        + ":lock"@
}

fn owned(v: &Vec<&'static str>) -> (r: Vec<String>)
    ensures
        texts(r@) == keys_view(v@),
{
    let mut out: Vec<String> = Vec::new();
    let mut i: usize = 0;
    let ghost all = keys_view(v@);
    assert(texts(out@) =~= all.take(0));
    while i < v.len()
        invariant
            i <= v@.len(),
            all == keys_view(v@),
            texts(out@) == all.take(i as int),
        decreases v@.len() - i,
    {
        let ghost before = texts(out@);
        out.push(v[i].to_owned());
        assert(texts(out@) =~= before.push(v@[i as int]@));
        assert(all.take(i + 1) =~= before.push(all[i as int]));
        i = i + 1;
    }
    assert(all.take(i as int) =~= all);
    out
}

/// What the node keeps, and where.
pub fn persistence_contract(
    config: &RuntimeConfig,
    tables: TableNames,
    generated_mutex_key: String,
) -> (r: PersistenceContract)
    ensures
        r.mode@ == if config.first_set(database_url_keys()) is Some || config.first_set(
            cache_url_keys(),
        ) is Some {
            "durable-plus-hot-cache"@
        } else {
            "in-memory-only"@
        },
        is_database_contract(r.postgres, *config, tables),
        is_cache_contract(r.redis, *config, generated_mutex_key@),
        is_coordination_contract(r.coordination, *config),
        texts(r.in_memory@) == kept_in_memory(),
{
    let pg_key = database_url_key(config);
    let redis_key = cache_url_key(config);
    let mutex_key = live_mutex_url_key(config);
    let prefix = redis_key_prefix(config);
    let coordination = CoordinationConfig::from_env(config, redis_key.is_some());
    let mode = if pg_key.is_some() || redis_key.is_some() {
        "durable-plus-hot-cache".to_owned()
    } else {
        "in-memory-only".to_owned()
    };
    let mut kinds: Vec<&'static str> = Vec::new();
    kinds.push("mip-solver.solve-started");
    kinds.push("mip-solver.model-revision");
    kinds.push("mip-solver.subproblem-submitted");
    kinds.push("mip-solver.subproblem-finished");
    kinds.push("mip-solver.subproblem-split");
    kinds.push("mip-solver.solve-finished");
    assert(keys_view(kinds@) =~= journal_kinds());
    let mut memory: Vec<&'static str> = Vec::new();
    memory.push("active solve registry");
    memory.push("recent problem model cache");
    memory.push("live session problem snapshot");
    memory.push("current master-owned frontier");
    memory.push("observed worker registry");
    assert(keys_view(memory@) =~= kept_in_memory());
    let names = coordination.backend_names();
    PersistenceContract {
        mode,
        postgres: PostgresPersistenceContract {
            enabled: pg_key.is_some(),
            url_env: pg_key,
            session_table: tables.sessions,
            solve_table: tables.solves,
            job_table: tables.jobs,
            event_table: tables.events,
            journal_kinds: owned(&kinds),
        },
        redis: RedisPersistenceContract {
            enabled: redis_key.is_some(),
            url_env: redis_key,
            problem_model_key: mip_solver_problem_model_key(prefix.as_str(), "{problemId}", 0),
            solve_snapshot_key: mip_solver_solve_snapshot_key(prefix.as_str(), "{solveId}"),
            solve_frontier_key: mip_solver_solve_frontier_key(prefix.as_str(), "{solveId}"),
            session_model_key: mip_solver_session_model_key(prefix.as_str(), "{sessionId}"),
            session_revision_lock_key: mip_solver_session_revision_lock_key(
                prefix.as_str(),
                "{sessionId}",
            ),
            key_prefix: prefix,
            generated_mutex_key,
        },
        coordination: CoordinationPersistenceContract {
            enabled: coordination.enabled(),
            backends: owned(&names),
            live_mutex_url_env: mutex_key,
            lock_ttl_ms: coordination.ttl_ms,
            lock_wait_ms: coordination.wait_ms,
            session_revision_lock_key: mip_solver_session_revision_lock_key(
                coordination.redis_lock_prefix.as_str(),
                "{sessionId}",
            ),
            solve_request_lock_key: mip_solver_solve_request_lock_key(
                coordination.redis_lock_prefix.as_str(),
                "{problemId}",
            ),
            redis_lock_prefix: coordination.redis_lock_prefix,
        },
        in_memory: owned(&memory),
    }
}

/// The document for what is kept in the database.
pub open spec fn database_doc(c: PostgresPersistenceContract) -> Doc {
    Doc::Object(
        seq![
            ("enabled"@, Doc::Flag(c.enabled)),
            ("urlEnv"@, text_or_null(text_view(c.url_env))),
            ("sessionTable"@, Doc::Text(c.session_table@)),
            ("solveTable"@, Doc::Text(c.solve_table@)),
            ("jobTable"@, Doc::Text(c.job_table@)),
            ("eventTable"@, Doc::Text(c.event_table@)),
            ("journalKinds"@, Doc::List(text_docs(texts(c.journal_kinds@)))),
        ],
    )
}

/// The document for what is kept in the shared cache.
pub open spec fn cache_doc(c: RedisPersistenceContract) -> Doc {
    Doc::Object(
        seq![
            ("enabled"@, Doc::Flag(c.enabled)),
            ("urlEnv"@, text_or_null(text_view(c.url_env))),
            ("keyPrefix"@, Doc::Text(c.key_prefix@)),
            ("problemModelKey"@, Doc::Text(c.problem_model_key@)),
            ("solveSnapshotKey"@, Doc::Text(c.solve_snapshot_key@)),
            ("solveFrontierKey"@, Doc::Text(c.solve_frontier_key@)),
            ("sessionModelKey"@, Doc::Text(c.session_model_key@)),
            ("sessionRevisionLockKey"@, Doc::Text(c.session_revision_lock_key@)),
            ("generatedMutexKey"@, Doc::Text(c.generated_mutex_key@)),
        ],
    )
}

/// The document for coordination.
pub open spec fn coordination_doc(c: CoordinationPersistenceContract) -> Doc {
    Doc::Object(
        seq![
            ("enabled"@, Doc::Flag(c.enabled)),
            ("backends"@, Doc::List(text_docs(texts(c.backends@)))),
            ("redisLockPrefix"@, Doc::Text(c.redis_lock_prefix@)),
            ("liveMutexUrlEnv"@, text_or_null(text_view(c.live_mutex_url_env))),
            ("lockTtlMs"@, Doc::Count(c.lock_ttl_ms as u128)),
            ("lockWaitMs"@, Doc::Count(c.lock_wait_ms as u128)),
            ("sessionRevisionLockKey"@, Doc::Text(c.session_revision_lock_key@)),
            ("solveRequestLockKey"@, Doc::Text(c.solve_request_lock_key@)),
        ],
    )
}

/// The document for what the node keeps.
pub open spec fn persistence_doc(c: PersistenceContract) -> Doc {
    Doc::Object(
        seq![
            ("mode"@, Doc::Text(c.mode@)),
            ("postgres"@, database_doc(c.postgres)),
            ("redis"@, cache_doc(c.redis)),
            ("coordination"@, coordination_doc(c.coordination)),
            ("inMemory"@, Doc::List(text_docs(texts(c.in_memory@)))),
        ],
    )
}

/// The document for what the node keeps.
pub fn persistence_document(c: &PersistenceContract) -> (r: Document)
    ensures
        r@ == persistence_doc(*c),
{
    let p = &c.postgres;
    let database = Fields::new()
        .flag("enabled", p.enabled)
        .maybe_text("urlEnv", &p.url_env)
        .text("sessionTable", p.session_table.as_str())
        .text("solveTable", p.solve_table.as_str())
        .text("jobTable", p.job_table.as_str())
        .text("eventTable", p.event_table.as_str())
        .value("journalKinds", text_list(&p.journal_kinds))
        .done();
    assert(database@->Object_0 =~= database_doc(*p)->Object_0);
    let q = &c.redis;
    let cache = Fields::new()
        .flag("enabled", q.enabled)
        .maybe_text("urlEnv", &q.url_env)
        .text("keyPrefix", q.key_prefix.as_str())
        .text("problemModelKey", q.problem_model_key.as_str())
        .text("solveSnapshotKey", q.solve_snapshot_key.as_str())
        .text("solveFrontierKey", q.solve_frontier_key.as_str())
        .text("sessionModelKey", q.session_model_key.as_str())
        .text("sessionRevisionLockKey", q.session_revision_lock_key.as_str())
        .text("generatedMutexKey", q.generated_mutex_key.as_str())
        .done();
    assert(cache@->Object_0 =~= cache_doc(*q)->Object_0);
    let k = &c.coordination;
    let locks = Fields::new()
        .flag("enabled", k.enabled)
        .value("backends", text_list(&k.backends))
        .text("redisLockPrefix", k.redis_lock_prefix.as_str())
        .maybe_text("liveMutexUrlEnv", &k.live_mutex_url_env)
        .count("lockTtlMs", k.lock_ttl_ms as u128)
        .count("lockWaitMs", k.lock_wait_ms as u128)
        .text("sessionRevisionLockKey", k.session_revision_lock_key.as_str())
        .text("solveRequestLockKey", k.solve_request_lock_key.as_str())
        .done();
    assert(locks@->Object_0 =~= coordination_doc(*k)->Object_0);
    let r = Fields::new()
        .text("mode", c.mode.as_str())
        .value("postgres", database)
        .value("redis", cache)
        .value("coordination", locks)
        .value("inMemory", text_list(&c.in_memory))
        .done();
    assert(r@->Object_0 =~= persistence_doc(*c)->Object_0);
    r
}

// Rows of the tables.

/// The numbers of jobs in a row: expected, published, completed, delegated again
/// and split.
#[derive(Clone, Copy, Debug)]
pub struct JobColumns {
    pub expected: i32,
    pub published: i32,
    pub completed: i32,
    pub redelegated: i32,
    pub split: i32,
}

/// A count as a column holds it.
pub open spec fn column(n: usize) -> int {
    if n <= i32::MAX {
        n as int
    } else {
        i32::MAX as int
    }
}

/// The numbers of jobs of a solve, as its row holds them.
pub fn solve_columns(e: &SolveRegistryEntry) -> (r: JobColumns)
    ensures
        r.expected == column(e.jobs_expected),
        r.published == column(e.jobs_published),
        r.completed == column(e.jobs_completed),
        r.redelegated == column(e.jobs_redelegated),
        r.split == column(e.jobs_split),
{
    JobColumns {
        expected: i32_count(e.jobs_expected),
        published: i32_count(e.jobs_published),
        completed: i32_count(e.jobs_completed),
        redelegated: i32_count(e.jobs_redelegated),
        split: i32_count(e.jobs_split),
    }
}

/// The numbers of jobs of an answered solve, as its row holds them.
pub fn response_columns(a: &SolveResponse) -> (r: JobColumns)
    ensures
        r.expected == column(a.jobs_expected),
        r.published == column(a.jobs_published),
        r.completed == column(a.jobs_completed),
        r.redelegated == column(a.jobs_redelegated),
        r.split == column(a.jobs_split),
{
    JobColumns {
        expected: i32_count(a.jobs_expected),
        published: i32_count(a.jobs_published),
        completed: i32_count(a.jobs_completed),
        redelegated: i32_count(a.jobs_redelegated),
        split: i32_count(a.jobs_split),
    }
}

/// What the row of a job holds of its attempts.
#[derive(Debug)]
pub struct AttemptColumns {
    pub root_job_id: String,
    pub retry_index: i32,
    pub depth: i32,
}

/// What the row of a job that is sent out holds of its attempts.
pub fn submitted_columns(job: &SubproblemJob) -> (r: AttemptColumns)
    ensures
        r.root_job_id@ == retry_root(job.job_id@),
        r.retry_index == column(retry_index(job.job_id@) as usize),
        r.depth == column(job.depth),
{
    AttemptColumns {
        root_job_id: job_retry_root(job.job_id.as_str()),
        retry_index: i32_count(job_retry_index(job.job_id.as_str())),
        depth: i32_count(job.depth),
    }
}

/// What the row of a job with a result holds of its attempts.
pub fn result_columns(result: &SubproblemResult) -> (r: AttemptColumns)
    ensures
        r.root_job_id@ == retry_root(result.job_id@),
        r.retry_index == column(retry_index(result.job_id@) as usize),
        r.depth == 0,
{
    AttemptColumns {
        root_job_id: job_retry_root(result.job_id.as_str()),
        retry_index: i32_count(job_retry_index(result.job_id.as_str())),
        depth: 0,
    }
}

/// The status of a job as its row holds it: a job that is to be tried again is
/// marked as such.
pub fn stored_job_status(result: &SubproblemResult, terminal: bool) -> (r: String)
    ensures
        r@ == if terminal || result.status@ == "split"@ {
            result.status@
        } else {
            "retrying"@
        },
{
    if terminal || same(result.status.as_str(), "split") {
        result.status.clone()
    } else {
        "retrying".to_owned()
    }
}

/// The kind of the event that tells of a result.
pub fn result_event_kind(result: &SubproblemResult, terminal: bool) -> (r: &'static str)
    ensures
        r@ == if result.status@ == "split"@ {
            "mip-solver.subproblem-split"@
        } else if terminal {
            "mip-solver.subproblem-finished"@
        } else {
            "mip-solver.subproblem-retrying"@
        },
{
    if same(result.status.as_str(), "split") {
        "mip-solver.subproblem-split"
    } else if terminal {
        "mip-solver.subproblem-finished"
    } else {
        "mip-solver.subproblem-retrying"
    }
}

/// A 64-bit number as a signed column holds it.
pub open spec fn signed(n: u64) -> int {
    if n <= i64::MAX {
        n as int
    } else {
        n - 0x1_0000_0000_0000_0000
    }
}

/// A revision as its column holds it.
pub fn revision_column(revision: u64) -> (r: i64)
    ensures
        r == signed(revision),
{
    if revision <= 0x7fff_ffff_ffff_ffff {
        revision as i64
    } else {
        let below: u64 = 0xffff_ffff_ffff_ffff - revision;
        -(below as i64) - 1
    }
}

/// Numbers fit their columns: a count is kept up to the largest that fits, and a revision
/// is kept bit by bit, so that it can be read back.
pub proof fn numbers_fit_their_columns(n: usize, revision: u64)
    ensures
        0 <= column(n) <= i32::MAX,
        n <= i32::MAX ==> column(n) == n,
        n > i32::MAX ==> column(n) == i32::MAX,
        i64::MIN <= signed(revision) <= i64::MAX,
        revision <= i64::MAX ==> signed(revision) == revision,
        signed(revision) >= 0 ==> signed(revision) == revision,
        signed(revision) < 0 ==> signed(revision) + 0x1_0000_0000_0000_0000 == revision,
{
}

/// A database is used exactly where one of its settings is there, and the first of them
/// counts; and so for the cache.
pub proof fn stores_follow_the_settings(
    database: PostgresPersistenceContract,
    cache: RedisPersistenceContract,
    config: RuntimeConfig,
    tables: TableNames,
    generated_mutex_key: Seq<char>,
)
    requires
        is_database_contract(database, config, tables),
        is_cache_contract(cache, config, generated_mutex_key),
    ensures
        database.enabled <==> config.text_of("MIP_SOLVER_DATABASE_URL"@) is Some || config.text_of(
            "AGENT_TASKS_RDS_DATABASE_URL"@,
        ) is Some || config.text_of("RDS_DATABASE_URL"@) is Some || config.text_of(
            "DATABASE_URL"@,
        ) is Some || config.text_of("PG_DATABASE_URL"@) is Some,
        config.text_of("MIP_SOLVER_DATABASE_URL"@) is Some ==> text_view(database.url_env) == Some(
            "MIP_SOLVER_DATABASE_URL"@,
        ),
        cache.enabled <==> config.text_of("MIP_SOLVER_REDIS_URL"@) is Some || config.text_of(
            "REDIS_URL"@,
        ) is Some,
        config.text_of("MIP_SOLVER_REDIS_URL"@) is Some ==> text_view(cache.url_env) == Some(
            "MIP_SOLVER_REDIS_URL"@,
        ),
        config.text_of("MIP_SOLVER_REDIS_URL"@) is None && config.text_of("REDIS_URL"@) is Some
            ==> text_view(cache.url_env) == Some("REDIS_URL"@),
        config.text_of("MIP_SOLVER_REDIS_KEY_PREFIX"@) is None ==> cache.key_prefix@
            == "dd:mip-solver"@,
        config.text_of("MIP_SOLVER_REDIS_KEY_PREFIX"@) matches Some(p) ==> cache.key_prefix@ == p,
        database.session_table@ == tables.sessions@ && database.solve_table@ == tables.solves@
            && database.job_table@ == tables.jobs@ && database.event_table@ == tables.events@,
{
    let d = database_url_keys();
    let c = cache_url_keys();
    first_keys_count(config, d);
    first_keys_count(config, c);
    assert(d[0] == "MIP_SOLVER_DATABASE_URL"@ && d[1] == "AGENT_TASKS_RDS_DATABASE_URL"@ && d[2]
        == "RDS_DATABASE_URL"@ && d[3] == "DATABASE_URL"@ && d[4] == "PG_DATABASE_URL"@);
    assert(c[0] == "MIP_SOLVER_REDIS_URL"@ && c[1] == "REDIS_URL"@);
}

}
