//! What the node tells of itself.

use crate::config::{env_value, optional_env_value, role_name, NodeRole, RuntimeConfig};
use crate::document::{
    docs, is_list_document, list_document, tells, text_docs, text_list, text_or_null, Doc, Document,
    Documented, Fields,
};
use crate::ids::{canonical_uuid, parse_uuid};
use crate::listing::{lists, sorted_values};
use crate::model::text_view;
use crate::order::{
    in_order, is_text_before, text_before, text_order_is_total, text_order_is_transitive, views,
    Ranked,
};
use crate::pages::{all_endpoints, endpoint_texts, endpoints, Endpoint, EndpointTexts};
use crate::persistence::{cache_url_key, cache_url_keys, database_url_key, database_url_keys};
use crate::registry::{is_active, SolveEntry, SolveRegistryEntry, Solves};
use crate::replies::{
    error_reply, fine, refused, reply, Answered, HttpReply, BAD_REQUEST, NOT_FOUND, OK,
    SERVICE_UNAVAILABLE,
};
use crate::service::{API_DOCS_SCHEMA, SERVICE_DESCRIPTION, SERVICE_NAME};
use crate::table::{Duplicate, Table};
use crate::tasks::{RuntimeTaskEntry, Task};
use crate::text::{same, texts, trim, trimmed};
use crate::wire::task_doc;
use crate::workers::{Worker, WorkerNodeStatus};
use vstd::prelude::*;
use vstd::string::*;

verus! {

/// What is known of how the node was built.
#[derive(Debug)]
pub struct BuildInfo {
    pub package_version: String,
    pub git_commit: Option<String>,
    pub git_commit_short: Option<String>,
    pub git_ref: Option<String>,
    pub git_dirty: Option<String>,
    pub built_at: Option<String>,
}

/// A text, or that it is not known.
pub open spec fn known(s: Option<String>) -> Seq<char> {
    match s {
        Some(t) => t@,
        None => "unknown"@,
    }
}

fn known_text(s: &Option<String>) -> (r: &str)
    ensures
        r@ == known(*s),
{
    match s {
        Some(t) => t.as_str(),
        None => "unknown",
    }
}

/// The document for how the node was built.
pub open spec fn build_doc(b: BuildInfo) -> Doc {
    Doc::Object(
        seq![
            ("packageVersion"@, Doc::Text(b.package_version@)),
            ("gitCommit"@, Doc::Text(known(b.git_commit))),
            ("gitCommitShort"@, Doc::Text(known(b.git_commit_short))),
            ("gitRef"@, Doc::Text(known(b.git_ref))),
            ("gitDirty"@, Doc::Text(known(b.git_dirty))),
            ("builtAt"@, Doc::Text(known(b.built_at))),
        ],
    )
}

/// The document for how the node was built.
pub fn build_info_document(b: &BuildInfo) -> (r: Document)
    ensures
        r@ == build_doc(*b),
{
    let r = Fields::new()
        .text("packageVersion", b.package_version.as_str())
        .text("gitCommit", known_text(&b.git_commit))
        .text("gitCommitShort", known_text(&b.git_commit_short))
        .text("gitRef", known_text(&b.git_ref))
        .text("gitDirty", known_text(&b.git_dirty))
        .text("builtAt", known_text(&b.built_at))
        .done();
    assert(r@->Object_0 =~= build_doc(*b)->Object_0);
    r
}

/// The document for where the node comes from; it tells which settings are there,
/// not what the addresses are.
pub open spec fn source_doc(config: RuntimeConfig) -> Doc {
    Doc::Object(
        seq![
            ("clusterGitUrl"@, text_or_null(config.text_of("MIP_SOLVER_CLUSTER_GIT_URL"@))),
            ("clusterGitRef"@, text_or_null(config.text_of("MIP_SOLVER_CLUSTER_GIT_REF"@))),
            ("natsUrlConfigured"@, Doc::Flag(config.text_of("NATS_URL"@) is Some)),
            ("postgresEnv"@, text_or_null(config.first_set(database_url_keys()))),
            ("redisEnv"@, text_or_null(config.first_set(cache_url_keys()))),
        ],
    )
}

/// The document for where the node comes from.
pub fn runtime_source_document(config: &RuntimeConfig) -> (r: Document)
    ensures
        r@ == source_doc(*config),
{
    let url = optional_env_value(config, "MIP_SOLVER_CLUSTER_GIT_URL");
    let git_ref = optional_env_value(config, "MIP_SOLVER_CLUSTER_GIT_REF");
    let nats = optional_env_value(config, "NATS_URL");
    let r = Fields::new()
        .maybe_text("clusterGitUrl", &url)
        .maybe_text("clusterGitRef", &git_ref)
        .flag("natsUrlConfigured", nats.is_some())
        .maybe_text("postgresEnv", &database_url_key(config))
        .maybe_text("redisEnv", &cache_url_key(config))
        .done();
    assert(r@->Object_0 =~= source_doc(*config)->Object_0);
    r
}

/// The subjects on which nodes talk.
#[derive(Debug)]
pub struct Subjects {
    pub jobs: String,
    pub results: String,
    pub control: String,
    pub events: String,
}

/// The document for the subjects.
pub open spec fn subjects_doc(s: Subjects) -> Doc {
    Doc::Object(
        seq![
            ("jobs"@, Doc::Text(s.jobs@)),
            ("results"@, Doc::Text(s.results@)),
            ("control"@, Doc::Text(s.control@)),
            ("events"@, Doc::Text(s.events@)),
        ],
    )
}

/// The document for the subjects.
pub fn subjects_document(s: &Subjects) -> (r: Document)
    ensures
        r@ == subjects_doc(*s),
{
    let r = Fields::new()
        .text("jobs", s.jobs.as_str())
        .text("results", s.results.as_str())
        .text("control", s.control.as_str())
        .text("events", s.events.as_str())
        .done();
    assert(r@->Object_0 =~= subjects_doc(*s)->Object_0);
    r
}

/// The document for the links.
pub open spec fn links_doc() -> Doc {
    Doc::Object(
        seq![
            ("home"@, Doc::Text("/home"@)),
            ("healthz"@, Doc::Text("/healthz"@)),
            ("readyz"@, Doc::Text("/readyz"@)),
            ("version"@, Doc::Text("/version"@)),
            ("versionJson"@, Doc::Text("/version.json"@)),
            ("apiDocs"@, Doc::Text("/docs/api"@)),
            ("apiDocsJson"@, Doc::Text("/api/docs.json"@)),
            ("natsStatus"@, Doc::Text("/mip-solver-cluster/nats"@)),
            ("workers"@, Doc::Text("/mip-solver-cluster/workers"@)),
            ("solves"@, Doc::Text("/mip-solver-cluster/solves"@)),
            ("metrics"@, Doc::Text("/metrics"@)),
            ("exampleModel"@, Doc::Text("/model/example"@)),
            ("soccerFormationMipModel"@, Doc::Text("/model/soccer-formation"@)),
            ("soccerFormationLpModel"@, Doc::Text("/model/soccer-formation-lp"@)),
            ("uploadProblem"@, Doc::Text("/problems/{problemId}"@)),
            ("solveProblem"@, Doc::Text("/problems/{problemId}/solve"@)),
            ("solve"@, Doc::Text("/solve"@)),
        ],
    )
}

/// The document for the links.
pub fn links_document() -> (r: Document)
    ensures
        r@ == links_doc(),
{
    let r = Fields::new()
        .text("home", "/home")
        .text("healthz", "/healthz")
        .text("readyz", "/readyz")
        .text("version", "/version")
        .text("versionJson", "/version.json")
        .text("apiDocs", "/docs/api")
        .text("apiDocsJson", "/api/docs.json")
        .text("natsStatus", "/mip-solver-cluster/nats")
        .text("workers", "/mip-solver-cluster/workers")
        .text("solves", "/mip-solver-cluster/solves")
        .text("metrics", "/metrics")
        .text("exampleModel", "/model/example")
        .text("soccerFormationMipModel", "/model/soccer-formation")
        .text("soccerFormationLpModel", "/model/soccer-formation-lp")
        .text("uploadProblem", "/problems/{problemId}")
        .text("solveProblem", "/problems/{problemId}/solve")
        .text("solve", "/solve")
        .done();
    assert(r@->Object_0 =~= links_doc()->Object_0);
    r
}

/// What a node is, as far as its documents tell.
#[derive(Debug)]
pub struct NodeFacts {
    pub role: NodeRole,
    pub node_id: String,
    pub connected: bool,
    pub subjects: Subjects,
    pub stream: String,
    pub stream_subjects: Vec<String>,
    pub queue_group: String,
    pub build: BuildInfo,
}

/// The document for the version of a node.
pub open spec fn version_doc(n: NodeFacts, config: RuntimeConfig) -> Doc {
    Doc::Object(
        seq![
            ("ok"@, Doc::Flag(true)),
            ("service"@, Doc::Text(SERVICE_NAME@)),
            ("description"@, Doc::Text(SERVICE_DESCRIPTION@)),
            ("version"@, Doc::Text(n.build.package_version@)),
            ("role"@, Doc::Text(role_name(n.role))),
            ("nodeId"@, Doc::Text(n.node_id@)),
            ("build"@, build_doc(n.build)),
            ("runtime"@, source_doc(config)),
        ],
    )
}

/// The document for the version of a node.
pub fn version_document(n: &NodeFacts, config: &RuntimeConfig) -> (r: Document)
    ensures
        r@ == version_doc(*n, *config),
{
    let r = Fields::new()
        .flag("ok", true)
        .text("service", SERVICE_NAME)
        .text("description", SERVICE_DESCRIPTION)
        .text("version", n.build.package_version.as_str())
        .text("role", n.role.as_str())
        .text("nodeId", n.node_id.as_str())
        .value("build", build_info_document(&n.build))
        .value("runtime", runtime_source_document(config))
        .done();
    assert(r@->Object_0 =~= version_doc(*n, *config)->Object_0);
    r
}

/// What is said about how jobs and results travel.
pub open spec fn nats_notes() -> Seq<Seq<char>> {
    seq![
        "masters publish subproblem jobs to the jobs subject using JetStream publish acks"@,
        "slaves pull from the shared durable worker consumer and publish results to the results subject"@,
        "slaves also publish worker-ready/request-work/worker-completed control frames that masters observe"@,
    ]
}

fn notes() -> (r: Vec<String>)
    ensures
        texts(r@) == nats_notes(),
{
    let mut v: Vec<String> = Vec::new();
    v.push(
        "masters publish subproblem jobs to the jobs subject using JetStream publish acks".to_owned(),
    );
    v.push(
        "slaves pull from the shared durable worker consumer and publish results to the results subject".to_owned(),
    );
    v.push(
        "slaves also publish worker-ready/request-work/worker-completed control frames that masters observe".to_owned(),
    );
    assert(texts(v@) =~= nats_notes());
    v
}

/// The document for the stream.
pub open spec fn stream_doc(n: NodeFacts) -> Doc {
    Doc::Object(
        seq![
            ("name"@, Doc::Text(n.stream@)),
            ("subjects"@, Doc::List(text_docs(texts(n.stream_subjects@)))),
        ],
    )
}

/// The document for the connection of a node, given the one for its workers.
pub open spec fn nats_doc(n: NodeFacts, config: RuntimeConfig, count: nat, workers: Doc) -> Doc {
    Doc::Object(
        seq![
            ("ok"@, Doc::Flag(n.connected)),
            ("service"@, Doc::Text(SERVICE_NAME@)),
            ("role"@, Doc::Text(role_name(n.role))),
            ("nodeId"@, Doc::Text(n.node_id@)),
            ("connected"@, Doc::Flag(n.connected)),
            ("readyForDistributedWork"@, Doc::Flag(n.connected)),
            ("stream"@, stream_doc(n)),
            ("subjects"@, subjects_doc(n.subjects)),
            (
                "workerConsumer"@,
                Doc::Text(config.text_or("MIP_SOLVER_NATS_CONSUMER"@, n.queue_group@)),
            ),
            ("workerQueueGroup"@, Doc::Text(n.queue_group@)),
            ("workersKnown"@, Doc::Count(count as u128)),
            ("workers"@, workers),
            ("notes"@, Doc::List(text_docs(nats_notes()))),
        ],
    )
}

/// Whether a document tells of the connection of a node and of its workers.
pub open spec fn is_nats_document(
    d: Doc,
    n: NodeFacts,
    config: RuntimeConfig,
    workers: Seq<Worker>,
) -> bool {
    exists|list: Doc| #[trigger]
        is_list_document::<WorkerNodeStatus>(list, workers) && d == nats_doc(
            n,
            config,
            workers.len(),
            list,
        )
}

/// The document for the connection of a node and its workers.
pub fn nats_status_document(
    n: &NodeFacts,
    config: &RuntimeConfig,
    workers: &Vec<WorkerNodeStatus>,
) -> (r: Document)
    ensures
        is_nats_document(r@, *n, *config, views(workers@)),
{
    let stream = Fields::new()
        .text("name", n.stream.as_str())
        .value("subjects", text_list(&n.stream_subjects))
        .done();
    assert(stream@->Object_0 =~= stream_doc(*n)->Object_0);
    let consumer = env_value(config, "MIP_SOLVER_NATS_CONSUMER", n.queue_group.as_str());
    let list = list_document(workers);
    let ghost l = list@;
    let r = Fields::new()
        .flag("ok", n.connected)
        .text("service", SERVICE_NAME)
        .text("role", n.role.as_str())
        .text("nodeId", n.node_id.as_str())
        .flag("connected", n.connected)
        .flag("readyForDistributedWork", n.connected)
        .value("stream", stream)
        .value("subjects", subjects_document(&n.subjects))
        .text("workerConsumer", consumer.as_str())
        .text("workerQueueGroup", n.queue_group.as_str())
        .count("workersKnown", workers.len() as u128)
        .value("workers", list)
        .value("notes", text_list(&notes()))
        .done();
    assert(views(workers@).len() == workers@.len());
    assert(r@->Object_0 =~= nats_doc(*n, *config, workers@.len(), l)->Object_0);
    assert(is_list_document::<WorkerNodeStatus>(l, views(workers@)));
    r
}

/// The document for an endpoint.
pub open spec fn endpoint_doc(e: EndpointTexts) -> Doc {
    Doc::Object(
        seq![
            ("method"@, Doc::Text(e.0)),
            ("path"@, Doc::Text(e.1)),
            ("kind"@, Doc::Text(e.2)),
            ("description"@, Doc::Text(e.3)),
        ],
    )
}

impl Documented for Endpoint {
    open spec fn is_document(d: Doc, v: EndpointTexts) -> bool {
        d == endpoint_doc(v)
    }

    fn document(&self) -> (r: Document) {
        let r = Fields::new()
            .text("method", self.method)
            .text("path", self.path)
            .text("kind", self.kind)
            .text("description", self.description)
            .done();
        assert(r@->Object_0 =~= endpoint_doc(self@)->Object_0);
        r
    }
}

/// The document that describes the service, given those for its connection and
/// its endpoints.
pub open spec fn docs_doc(n: NodeFacts, nats: Doc, endpoint_list: Doc) -> Doc {
    Doc::Object(
        seq![
            ("schema"@, Doc::Text(API_DOCS_SCHEMA@)),
            (
                "service"@,
                Doc::Object(
                    seq![
                        ("name"@, Doc::Text(SERVICE_NAME@)),
                        ("version"@, Doc::Text(n.build.package_version@)),
                        ("description"@, Doc::Text(SERVICE_DESCRIPTION@)),
                    ],
                ),
            ),
            ("build"@, build_doc(n.build)),
            ("nats"@, nats),
            ("links"@, links_doc()),
            ("endpoints"@, endpoint_list),
        ],
    )
}

/// The document that describes the service.
pub fn api_docs_document(
    n: &NodeFacts,
    config: &RuntimeConfig,
    workers: &Vec<WorkerNodeStatus>,
) -> (r: Document)
    ensures
        exists|nats: Doc, list: Doc|
            {
                &&& is_nats_document(nats, *n, *config, views(workers@))
                &&& is_list_document::<Endpoint>(list, all_endpoints())
                &&& r@ == #[trigger] docs_doc(*n, nats, list)
            },
{
    let f = Fields::new()
        .text("name", SERVICE_NAME)
        .text("version", n.build.package_version.as_str())
        .text("description", SERVICE_DESCRIPTION);
    assert(f@ =~= seq![
        ("name"@, Doc::Text(SERVICE_NAME@)),
        ("version"@, Doc::Text(n.build.package_version@)),
        ("description"@, Doc::Text(SERVICE_DESCRIPTION@)),
    ]);
    let service = f.done();
    let nats = nats_status_document(n, config, workers);
    let ghost a = nats@;
    let all = endpoints();
    assert(views(all@) =~= endpoint_texts(all@));
    let list = list_document(&all);
    let ghost b = list@;
    let r = Fields::new()
        .text("schema", API_DOCS_SCHEMA)
        .value("service", service)
        .value("build", build_info_document(&n.build))
        .value("nats", nats)
        .value("links", links_document())
        .value("endpoints", list)
        .done();
    assert(r@->Object_0 =~= docs_doc(*n, a, b)->Object_0);
    assert(is_list_document::<Endpoint>(b, all_endpoints()));
    r
}

/// What a node counts for its descriptor.
#[derive(Clone, Copy, Debug)]
pub struct Tallies {
    pub workers: usize,
    pub tasks: usize,
    pub active_tasks: usize,
    pub solves: usize,
}

/// The descriptor of a node, given the documents in it.
pub open spec fn root_doc(
    n: NodeFacts,
    t: Tallies,
    nats: Doc,
    persistence: Doc,
    gpu: Doc,
) -> Doc {
    Doc::Object(
        seq![
            ("ok"@, Doc::Flag(true)),
            ("service"@, Doc::Text(SERVICE_NAME@)),
            ("description"@, Doc::Text(SERVICE_DESCRIPTION@)),
            ("version"@, Doc::Text(n.build.package_version@)),
            ("role"@, Doc::Text(role_name(n.role))),
            ("nodeId"@, Doc::Text(n.node_id@)),
            ("subjects"@, subjects_doc(n.subjects)),
            ("stream"@, Doc::Text(n.stream@)),
            ("queueGroup"@, Doc::Text(n.queue_group@)),
            ("workersKnown"@, Doc::Count(t.workers as u128)),
            ("tasksTracked"@, Doc::Count(t.tasks as u128)),
            ("activeTasks"@, Doc::Count(t.active_tasks as u128)),
            ("solvesTracked"@, Doc::Count(t.solves as u128)),
            ("nats"@, nats),
            ("build"@, build_doc(n.build)),
            ("links"@, links_doc()),
            ("persistence"@, persistence),
            ("gpu"@, gpu),
        ],
    )
}

/// The descriptor of a node.
pub fn root_document(
    n: &NodeFacts,
    t: Tallies,
    nats: Document,
    persistence: Document,
    gpu: Document,
) -> (r: Document)
    ensures
        r@ == root_doc(*n, t, nats@, persistence@, gpu@),
{
    let ghost a = nats@;
    let ghost b = persistence@;
    let ghost c = gpu@;
    let r = Fields::new()
        .flag("ok", true)
        .text("service", SERVICE_NAME)
        .text("description", SERVICE_DESCRIPTION)
        .text("version", n.build.package_version.as_str())
        .text("role", n.role.as_str())
        .text("nodeId", n.node_id.as_str())
        .value("subjects", subjects_document(&n.subjects))
        .text("stream", n.stream.as_str())
        .text("queueGroup", n.queue_group.as_str())
        .count("workersKnown", t.workers as u128)
        .count("tasksTracked", t.tasks as u128)
        .count("activeTasks", t.active_tasks as u128)
        .count("solvesTracked", t.solves as u128)
        .value("nats", nats)
        .value("build", build_info_document(&n.build))
        .value("links", links_document())
        .value("persistence", persistence)
        .value("gpu", gpu)
        .done();
    assert(r@->Object_0 =~= root_doc(*n, t, a, b, c)->Object_0);
    r
}

/// The document that tells that the node is alive.
pub open spec fn health_doc(b: BuildInfo) -> Doc {
    Doc::Object(
        seq![
            ("ok"@, Doc::Flag(true)),
            ("service"@, Doc::Text(SERVICE_NAME@)),
            ("version"@, Doc::Text(b.package_version@)),
            ("gitCommit"@, Doc::Text(known(b.git_commit_short))),
        ],
    )
}

/// The document that tells that the node is alive.
pub fn health_document(b: &BuildInfo) -> (r: Document)
    ensures
        r@ == health_doc(*b),
{
    let r = Fields::new()
        .flag("ok", true)
        .text("service", SERVICE_NAME)
        .text("version", b.package_version.as_str())
        .text("gitCommit", known_text(&b.git_commit_short))
        .done();
    assert(r@->Object_0 =~= health_doc(*b)->Object_0);
    r
}

/// The document that tells whether the node is ready.
pub open spec fn ready_doc(n: NodeFacts) -> Doc {
    Doc::Object(
        seq![
            ("ok"@, Doc::Flag(n.connected)),
            ("service"@, Doc::Text(SERVICE_NAME@)),
            ("version"@, Doc::Text(n.build.package_version@)),
            ("role"@, Doc::Text(role_name(n.role))),
            ("nodeId"@, Doc::Text(n.node_id@)),
            ("nats"@, Doc::Flag(n.connected)),
            ("subjects"@, subjects_doc(n.subjects)),
            ("stream"@, Doc::Text(n.stream@)),
            (
                "reason"@,
                if n.connected {
                    Doc::Null
                } else {
                    Doc::Text("NATS connection is required for distributed solver readiness"@)
                },
            ),
        ],
    )
}

/// The answer to the question whether the node is ready: it is while it is
/// connected.
pub fn ready_reply(n: &NodeFacts) -> (r: HttpReply)
    ensures
        r@ == fine(
            if n.connected {
                OK
            } else {
                SERVICE_UNAVAILABLE
            },
            ready_doc(*n),
        ),
{
    let reason = if n.connected {
        Document::Null
    } else {
        Document::Text(
            "NATS connection is required for distributed solver readiness".to_owned(),
        )
    };
    let body = Fields::new()
        .flag("ok", n.connected)
        .text("service", SERVICE_NAME)
        .text("version", n.build.package_version.as_str())
        .text("role", n.role.as_str())
        .text("nodeId", n.node_id.as_str())
        .flag("nats", n.connected)
        .value("subjects", subjects_document(&n.subjects))
        .text("stream", n.stream.as_str())
        .value("reason", reason)
        .done();
    assert(body@->Object_0 =~= ready_doc(*n)->Object_0);
    reply(
        if n.connected {
            OK
        } else {
            SERVICE_UNAVAILABLE
        },
        body,
    )
}

// Lists.

/// The document for the workers, given the one for their list.
pub open spec fn workers_doc(role: NodeRole, count: nat, list: Doc) -> Doc {
    Doc::Object(
        seq![
            ("ok"@, Doc::Flag(true)),
            ("role"@, Doc::Text(role_name(role))),
            ("count"@, Doc::Count(count as u128)),
            ("workers"@, list),
        ],
    )
}

/// The answer to the question for the workers.
pub fn workers_reply(role: NodeRole, workers: &Vec<WorkerNodeStatus>) -> (r: HttpReply)
    ensures
        exists|list: Doc| #[trigger]
            is_list_document::<WorkerNodeStatus>(list, views(workers@)) && r@ == fine(
                OK,
                workers_doc(role, workers@.len(), list),
            ),
{
    let list = list_document(workers);
    let ghost l = list@;
    let body = Fields::new()
        .flag("ok", true)
        .text("role", role.as_str())
        .count("count", workers.len() as u128)
        .value("workers", list)
        .done();
    assert(body@->Object_0 =~= workers_doc(role, workers@.len(), l)->Object_0);
    assert(is_list_document::<WorkerNodeStatus>(l, views(workers@)));
    reply(OK, body)
}

/// Whether a task runs.
pub open spec fn task_runs(t: Task) -> bool {
    t.finished_at_ms is None
}

/// How many tasks of a list run.
pub open spec fn running_tasks(v: Seq<Task>) -> nat {
    v.filter(|t: Task| task_runs(t)).len()
}

/// How many tasks of a list run.
pub fn active_tasks(tasks: &Vec<RuntimeTaskEntry>) -> (r: usize)
    ensures
        r == running_tasks(views(tasks@)),
{
    let ghost all = views(tasks@);
    let ghost test = |t: Task| task_runs(t);
    let mut n: usize = 0;
    let mut i: usize = 0;
    assert(all.take(0).filter(test).len() == 0) by {
        reveal(Seq::filter);
    }
    while i < tasks.len()
        invariant
            i <= tasks@.len(),
            n <= i,
            all == views(tasks@),
            test == (|t: Task| task_runs(t)),
            n == all.take(i as int).filter(test).len(),
        decreases tasks@.len() - i,
    {
        assert(all.take(i + 1).drop_last() =~= all.take(i as int));
        assert(all.take(i + 1).last() == tasks@[i as int]@);
        proof {
            reveal(Seq::filter);
        }
        if tasks[i].finished_at_ms.is_none() {
            n = n + 1;
        }
        i = i + 1;
    }
    assert(all.take(i as int) =~= all);
    n
}

/// The document for the tasks, given the one for their list.
pub open spec fn tasks_doc(role: NodeRole, node_id: Seq<char>, v: Seq<Task>, list: Doc) -> Doc {
    Doc::Object(
        seq![
            ("ok"@, Doc::Flag(true)),
            ("role"@, Doc::Text(role_name(role))),
            ("nodeId"@, Doc::Text(node_id)),
            ("count"@, Doc::Count(v.len() as u128)),
            ("active"@, Doc::Count(running_tasks(v) as u128)),
            ("tasks"@, list),
        ],
    )
}

/// The answer to the question for the tasks.
pub fn tasks_reply(role: NodeRole, node_id: &str, tasks: &Vec<RuntimeTaskEntry>) -> (r: HttpReply)
    ensures
        exists|list: Doc| #[trigger]
            is_list_document::<RuntimeTaskEntry>(list, views(tasks@)) && r@ == fine(
                OK,
                tasks_doc(role, node_id@, views(tasks@), list),
            ),
{
    let list = list_document(tasks);
    let ghost l = list@;
    let body = Fields::new()
        .flag("ok", true)
        .text("role", role.as_str())
        .text("nodeId", node_id)
        .count("count", tasks.len() as u128)
        .count("active", active_tasks(tasks) as u128)
        .value("tasks", list)
        .done();
    assert(views(tasks@).len() == tasks@.len());
    assert(body@->Object_0 =~= tasks_doc(role, node_id@, views(tasks@), l)->Object_0);
    assert(is_list_document::<RuntimeTaskEntry>(l, views(tasks@)));
    reply(OK, body)
}

/// The answer to the question for a task, given the one that was found.
pub fn task_reply(role: NodeRole, node_id: &str, key: &str, found: &Option<RuntimeTaskEntry>) -> (r:
    HttpReply)
    ensures
        match *found {
            None => r@ == refused(NOT_FOUND, "runtime task not found: "@ + key@, false),
            Some(t) => r@ == fine(
                OK,
                Doc::Object(
                    seq![
                        ("ok"@, Doc::Flag(true)),
                        ("role"@, Doc::Text(role_name(role))),
                        ("nodeId"@, Doc::Text(node_id@)),
                        ("task"@, task_doc(t@)),
                    ],
                ),
            ),
        },
{
    match found {
        None => {
            let mut e = "runtime task not found: ".to_owned();
            e.append(key);
            error_reply(NOT_FOUND, e.as_str(), false)
        },
        Some(t) => {
            let f = Fields::new()
                .flag("ok", true)
                .text("role", role.as_str())
                .text("nodeId", node_id)
                .value("task", t.document());
            assert(f@ =~= seq![
                ("ok"@, Doc::Flag(true)),
                ("role"@, Doc::Text(role_name(role))),
                ("nodeId"@, Doc::Text(node_id@)),
                ("task"@, task_doc(t@)),
            ]);
            reply(OK, f.done())
        },
    }
}

impl Ranked for SolveRegistryEntry {
    open spec fn goes_before(a: SolveEntry, b: SolveEntry) -> bool {
        if a.started_at_ms != b.started_at_ms {
            a.started_at_ms > b.started_at_ms
        } else {
            text_before(a.solve_id, b.solve_id)
        }
    }

    proof fn is_an_order(a: SolveEntry, b: SolveEntry, c: SolveEntry) {
        text_order_is_total(a.solve_id, b.solve_id);
        text_order_is_total(a.solve_id, c.solve_id);
        text_order_is_total(b.solve_id, c.solve_id);
        if text_before(a.solve_id, b.solve_id) && text_before(b.solve_id, c.solve_id) {
            text_order_is_transitive(a.solve_id, b.solve_id, c.solve_id);
        }
    }

    fn is_before(&self, other: &Self) -> (r: bool) {
        if self.started_at_ms != other.started_at_ms {
            self.started_at_ms > other.started_at_ms
        } else {
            is_text_before(self.solve_id.as_str(), other.solve_id.as_str())
        }
    }
}

impl Duplicate for SolveRegistryEntry {
    fn duplicate(&self) -> (r: Self) {
        self.clone()
    }
}

/// The problem that a query asks for.
pub open spec fn queried_problem(query: Option<Seq<char>>) -> Result<Option<Seq<char>>, Answered> {
    match query {
        None => Ok(None),
        Some(s) => match canonical_uuid(trimmed(s)) {
            Some(id) => Ok(Some(id)),
            None => Err(
                refused(BAD_REQUEST, "problem query parameter must be a UUID"@, false),
            ),
        },
    }
}

/// Whether a solve is one of a problem, which its request names where it has none.
pub open spec fn is_of_problem(e: SolveEntry, id: Seq<char>) -> bool {
    canonical_uuid(
        match e.problem_id {
            Some(p) => p,
            None => e.request_id,
        },
    ) == Some(id)
}

/// Whether a solve is asked for.
pub open spec fn is_queried(e: SolveEntry, filter: Option<Seq<char>>) -> bool {
    match filter {
        None => true,
        Some(id) => is_of_problem(e, id),
    }
}

/// The solves that are asked for.
pub open spec fn queried_solves(solves: Solves, filter: Option<Seq<char>>) -> Solves {
    Map::new(
        |k: Seq<char>| solves.contains_key(k) && is_queried(solves[k], filter),
        |k: Seq<char>| solves[k],
    )
}

fn wanted(e: &SolveRegistryEntry, filter: &Option<String>) -> (r: bool)
    ensures
        r == is_queried(e@, text_view(*filter)),
{
    match filter {
        None => true,
        Some(id) => {
            let own = match &e.problem_id {
                Some(p) => parse_uuid(p.as_str()),
                None => parse_uuid(e.request_id.as_str()),
            };
            match own {
                Some(u) => same(u.as_str(), id.as_str()),
                None => false,
            }
        },
    }
}

/// The solves that are asked for, the last begun first.
pub fn select_solves(solves: &Table<SolveRegistryEntry>, filter: &Option<String>) -> (r: Vec<
    SolveRegistryEntry,
>)
    ensures
        in_order::<SolveRegistryEntry>(views(r@)),
        exists|keys: Seq<Seq<char>>| #[trigger]
            lists(views(r@), keys, queried_solves(solves@, text_view(*filter))),
{
    let mut kept = solves.duplicate();
    proof {
        use_type_invariant(solves);
        solves.order_is_contents();
    }
    let ghost all = solves@;
    let ghost order = solves.order();
    let ghost f = text_view(*filter);
    let mut out: Vec<String> = Vec::new();
    let n: usize = solves.len();
    let mut i: usize = 0;
    while i < n
        invariant
            i <= n,
            n == order.len(),
            order == solves.order(),
            all == solves@,
            f == text_view(*filter),
            forall|j: int|
                0 <= j < n ==> all.contains_key((#[trigger] order[j]).0) && all[order[j].0]
                    == order[j].1,
            forall|p: int|
                0 <= p < out@.len() ==> all.contains_key(#[trigger] out@[p]@) && !is_queried(
                    all[out@[p]@],
                    f,
                ),
            forall|j: int|
                0 <= j < i && !is_queried((#[trigger] order[j]).1, f) ==> exists|p: int|
                    0 <= p < out@.len() && #[trigger] out@[p]@ == order[j].0,
        decreases n - i,
    {
        let ghost before = out@;
        if !wanted(solves.value_at(i), filter) {
            out.push(solves.key_at(i).clone());
        }
        assert forall|j: int|
            0 <= j < i + 1 && !is_queried((#[trigger] order[j]).1, f) implies exists|p: int|
            0 <= p < out@.len() && #[trigger] out@[p]@ == order[j].0 by {
            if j < i {
                let p = choose|p: int| 0 <= p < before.len() && #[trigger] before[p]@ == order[j].0;
                assert(out@[p]@ == order[j].0);
            } else {
                assert(out@[out@.len() - 1]@ == order[j].0);
            }
        }
        i = i + 1;
    }
    kept.remove_all(&out);
    proof {
        assert forall|k: Seq<char>| #[trigger] kept@.contains_key(k) <==> all.contains_key(k)
            && is_queried(all[k], f) by {
            if all.contains_key(k) {
                let j = choose|j: int| 0 <= j < order.len() && #[trigger] order[j].0 == k;
                assert(all[k] == order[j].1);
                if !is_queried(all[k], f) {
                    let q = choose|q: int|
                        0 <= q < out@.len() && #[trigger] out@[q]@ == order[j].0;
                    assert(out@[q]@ == k);
                }
            }
        }
        assert(kept@ =~= queried_solves(all, f));
    }
    sorted_values(&kept)
}

/// How many solves of a list run.
pub open spec fn running_solves(v: Seq<SolveEntry>) -> nat {
    v.filter(|e: SolveEntry| is_active(e)).len()
}

/// How many solves of a list run.
pub fn active_solves(solves: &Vec<SolveRegistryEntry>) -> (r: usize)
    ensures
        r == running_solves(views(solves@)),
{
    let ghost all = views(solves@);
    let ghost test = |e: SolveEntry| is_active(e);
    let mut n: usize = 0;
    let mut i: usize = 0;
    assert(all.take(0).filter(test).len() == 0) by {
        reveal(Seq::filter);
    }
    while i < solves.len()
        invariant
            i <= solves@.len(),
            n <= i,
            all == views(solves@),
            test == (|e: SolveEntry| is_active(e)),
            n == all.take(i as int).filter(test).len(),
        decreases solves@.len() - i,
    {
        assert(all.take(i + 1).drop_last() =~= all.take(i as int));
        assert(all.take(i + 1).last() == solves@[i as int]@);
        proof {
            reveal(Seq::filter);
        }
        if solves[i].finished_at_ms.is_none() {
            n = n + 1;
        }
        i = i + 1;
    }
    assert(all.take(i as int) =~= all);
    n
}

/// The document for the solves, given the one for their list.
pub open spec fn solves_doc(
    role: NodeRole,
    filter: Option<Seq<char>>,
    v: Seq<SolveEntry>,
    list: Doc,
) -> Doc {
    Doc::Object(
        seq![
            ("ok"@, Doc::Flag(true)),
            ("role"@, Doc::Text(role_name(role))),
            ("problem"@, text_or_null(filter)),
            ("count"@, Doc::Count(v.len() as u128)),
            ("active"@, Doc::Count(running_solves(v) as u128)),
            ("solves"@, list),
        ],
    )
}

/// Whether an answer lists the solves that are asked for, in order.
pub open spec fn tells_solves(
    a: Answered,
    role: NodeRole,
    filter: Option<Seq<char>>,
    v: Seq<SolveEntry>,
    solves: Solves,
) -> bool {
    &&& in_order::<SolveRegistryEntry>(v)
    &&& exists|keys: Seq<Seq<char>>| #[trigger] lists(v, keys, queried_solves(solves, filter))
    &&& exists|list: Doc| #[trigger]
        is_list_document::<SolveRegistryEntry>(list, v) && a == fine(
            OK,
            solves_doc(role, filter, v, list),
        )
}

/// The answer to the question for the solves, of one problem or of all.
pub fn cluster_solves(
    solves: &Table<SolveRegistryEntry>,
    role: NodeRole,
    query: &Option<String>,
) -> (r: HttpReply)
    ensures
        match queried_problem(text_view(*query)) {
            Err(a) => r@ == a,
            Ok(filter) => exists|v: Seq<SolveEntry>| #[trigger]
                tells_solves(r@, role, filter, v, solves@),
        },
{
    let filter = match query {
        None => None,
        Some(s) => match parse_uuid(trim(s.as_str()).as_str()) {
            Some(id) => Some(id),
            None => {
                return error_reply(
                    BAD_REQUEST,
                    "problem query parameter must be a UUID",
                    false,
                );
            },
        },
    };
    let chosen = select_solves(solves, &filter);
    let list = list_document(&chosen);
    let ghost l = list@;
    let body = Fields::new()
        .flag("ok", true)
        .text("role", role.as_str())
        .maybe_text("problem", &filter)
        .count("count", chosen.len() as u128)
        .count("active", active_solves(&chosen) as u128)
        .value("solves", list)
        .done();
    let ghost v = views(chosen@);
    assert(v.len() == chosen@.len());
    assert(body@->Object_0 =~= solves_doc(role, text_view(filter), v, l)->Object_0);
    assert(is_list_document::<SolveRegistryEntry>(l, v));
    let r = reply(OK, body);
    assert(tells_solves(r@, role, text_view(filter), v, solves@));
    r
}

// Messages to other nodes.

/// A message to other nodes: the field that names it is that of events or that of
/// commands.
pub open spec fn message_doc(
    schema: Seq<char>,
    node_id: Seq<char>,
    role: NodeRole,
    name_field: Seq<char>,
    name: Seq<char>,
    payload: Doc,
    now: u128,
) -> Doc {
    Doc::Object(
        seq![
            ("schema"@, Doc::Text(schema)),
            ("service"@, Doc::Text(SERVICE_NAME@)),
            ("nodeId"@, Doc::Text(node_id)),
            ("role"@, Doc::Text(role_name(role))),
            (name_field, Doc::Text(name)),
            ("payload"@, payload),
            ("timeMs"@, Doc::Count(now)),
        ],
    )
}

/// An event that is told to other nodes.
pub fn event_document(node_id: &str, role: NodeRole, name: &str, payload: Document, now: u128) -> (r:
    Document)
    ensures
        r@ == message_doc(
            "dd.mip-solver.event.v1"@,
            node_id@,
            role,
            "eventName"@,
            name@,
            payload@,
            now,
        ),
{
    let ghost p = payload@;
    let r = Fields::new()
        .text("schema", "dd.mip-solver.event.v1")
        .text("service", SERVICE_NAME)
        .text("nodeId", node_id)
        .text("role", role.as_str())
        .text("eventName", name)
        .value("payload", payload)
        .count("timeMs", now)
        .done();
    assert(r@->Object_0 =~= message_doc(
        "dd.mip-solver.event.v1"@,
        node_id@,
        role,
        "eventName"@,
        name@,
        p,
        now,
    )->Object_0);
    r
}

/// A command that is given to other nodes.
pub fn control_document(node_id: &str, role: NodeRole, name: &str, payload: Document, now: u128) -> (r:
    Document)
    ensures
        r@ == message_doc(
            "dd.mip-solver.control.v1"@,
            node_id@,
            role,
            "commandName"@,
            name@,
            payload@,
            now,
        ),
{
    let ghost p = payload@;
    let r = Fields::new()
        .text("schema", "dd.mip-solver.control.v1")
        .text("service", SERVICE_NAME)
        .text("nodeId", node_id)
        .text("role", role.as_str())
        .text("commandName", name)
        .value("payload", payload)
        .count("timeMs", now)
        .done();
    assert(r@->Object_0 =~= message_doc(
        "dd.mip-solver.control.v1"@,
        node_id@,
        role,
        "commandName"@,
        name@,
        p,
        now,
    )->Object_0);
    r
}

/// Solves are listed latest first, and by name where they began at the same time.
pub proof fn solves_are_listed_latest_first(a: SolveEntry, b: SolveEntry)
    ensures
        a.started_at_ms > b.started_at_ms ==> SolveRegistryEntry::goes_before(a, b)
            && !SolveRegistryEntry::goes_before(b, a),
        a.started_at_ms == b.started_at_ms ==> (SolveRegistryEntry::goes_before(a, b) <==>
            text_before(a.solve_id, b.solve_id)),
{
}

/// A query for a problem lists the solves of that problem, and no others; a query for
/// none lists all. A solve without a problem is that of the UUID of its request.
pub proof fn queries_list_the_solves_of_a_problem(
    solves: Solves,
    filter: Option<Seq<char>>,
    k: Seq<char>,
    query: Seq<char>,
)
    ensures
        filter is None ==> (queried_solves(solves, filter).contains_key(k) <==>
            solves.contains_key(k)),
        filter is Some && solves.contains_key(k) && solves[k].problem_id is Some ==> (
        queried_solves(solves, filter).contains_key(k) <==> canonical_uuid(solves[k].problem_id->0)
            == filter),
        filter is Some && solves.contains_key(k) && solves[k].problem_id is None ==> (
        queried_solves(solves, filter).contains_key(k) <==> canonical_uuid(solves[k].request_id)
            == filter),
        queried_solves(solves, filter).contains_key(k) ==> queried_solves(solves, filter)[k]
            == solves[k],
        queried_problem(None) == Ok::<Option<Seq<char>>, Answered>(None),
        queried_problem(Some(query)) is Ok <==> canonical_uuid(trimmed(query)) is Some,
        queried_problem(Some(query)) matches Ok(id) ==> id == canonical_uuid(trimmed(query)),
{
}

/// Whether one of a list runs counts it, and else not.
pub proof fn running_ones_are_counted(
    tasks: Seq<Task>,
    t: Task,
    solves: Seq<SolveEntry>,
    e: SolveEntry,
)
    ensures
        running_tasks(Seq::empty()) == 0,
        running_tasks(tasks.push(t)) == running_tasks(tasks) + if t.finished_at_ms is None {
            1int
        } else {
            0
        },
        running_solves(Seq::empty()) == 0,
        running_solves(solves.push(e)) == running_solves(solves) + if e.finished_at_ms is None {
            1int
        } else {
            0
        },
{
    reveal(Seq::filter);
    assert(tasks.push(t).drop_last() =~= tasks);
    assert(solves.push(e).drop_last() =~= solves);
}

/// The document of a build tells each of its parts; what is not known is told so.
pub proof fn builds_are_told(b: BuildInfo)
    ensures
        ({
            let d = build_doc(b);
            &&& tells(d, "packageVersion"@, Doc::Text(b.package_version@))
            &&& tells(d, "gitCommit"@, Doc::Text(known(b.git_commit)))
            &&& tells(d, "gitCommitShort"@, Doc::Text(known(b.git_commit_short)))
            &&& tells(d, "gitRef"@, Doc::Text(known(b.git_ref)))
            &&& tells(d, "gitDirty"@, Doc::Text(known(b.git_dirty)))
            &&& tells(d, "builtAt"@, Doc::Text(known(b.built_at)))
        }),
{
    let d = build_doc(b);
    assert(d->Object_0[0].0 == "packageVersion"@);
    assert(d->Object_0[1].0 == "gitCommit"@);
    assert(d->Object_0[2].0 == "gitCommitShort"@);
    assert(d->Object_0[3].0 == "gitRef"@);
    assert(d->Object_0[4].0 == "gitDirty"@);
    assert(d->Object_0[5].0 == "builtAt"@);
}

/// The document of the subjects tells each of them under its own key.
pub proof fn subjects_are_told(s: Subjects)
    ensures
        ({
            let d = subjects_doc(s);
            &&& tells(d, "jobs"@, Doc::Text(s.jobs@))
            &&& tells(d, "results"@, Doc::Text(s.results@))
            &&& tells(d, "control"@, Doc::Text(s.control@))
            &&& tells(d, "events"@, Doc::Text(s.events@))
        }),
{
    let d = subjects_doc(s);
    assert(d->Object_0[0].0 == "jobs"@);
    assert(d->Object_0[1].0 == "results"@);
    assert(d->Object_0[2].0 == "control"@);
    assert(d->Object_0[3].0 == "events"@);
}

/// The document of the version tells the node, its build and its surroundings.
pub proof fn versions_are_told(n: NodeFacts, config: RuntimeConfig)
    ensures
        ({
            let d = version_doc(n, config);
            &&& tells(d, "ok"@, Doc::Flag(true))
            &&& tells(d, "service"@, Doc::Text(SERVICE_NAME@))
            &&& tells(d, "description"@, Doc::Text(SERVICE_DESCRIPTION@))
            &&& tells(d, "version"@, Doc::Text(n.build.package_version@))
            &&& tells(d, "role"@, Doc::Text(role_name(n.role)))
            &&& tells(d, "nodeId"@, Doc::Text(n.node_id@))
            &&& tells(d, "build"@, build_doc(n.build))
            &&& tells(d, "runtime"@, source_doc(config))
        }),
{
    let d = version_doc(n, config);
    assert(d->Object_0[0].0 == "ok"@);
    assert(d->Object_0[1].0 == "service"@);
    assert(d->Object_0[2].0 == "description"@);
    assert(d->Object_0[3].0 == "version"@);
    assert(d->Object_0[4].0 == "role"@);
    assert(d->Object_0[5].0 == "nodeId"@);
    assert(d->Object_0[6].0 == "build"@);
    assert(d->Object_0[7].0 == "runtime"@);
}

/// The document of the connection tells whether the node is connected, and to what.
pub proof fn connections_are_told(n: NodeFacts, config: RuntimeConfig, count: nat, workers: Doc)
    ensures
        ({
            let d = nats_doc(n, config, count, workers);
            &&& tells(d, "ok"@, Doc::Flag(n.connected))
            &&& tells(d, "service"@, Doc::Text(SERVICE_NAME@))
            &&& tells(d, "role"@, Doc::Text(role_name(n.role)))
            &&& tells(d, "nodeId"@, Doc::Text(n.node_id@))
            &&& tells(d, "connected"@, Doc::Flag(n.connected))
            &&& tells(d, "readyForDistributedWork"@, Doc::Flag(n.connected))
            &&& tells(d, "stream"@, stream_doc(n))
            &&& tells(d, "subjects"@, subjects_doc(n.subjects))
            &&& tells(
                d,
                "workerConsumer"@,
                Doc::Text(config.text_or("MIP_SOLVER_NATS_CONSUMER"@, n.queue_group@)),
            )
            &&& tells(d, "workerQueueGroup"@, Doc::Text(n.queue_group@))
            &&& tells(d, "workersKnown"@, Doc::Count(count as u128))
            &&& tells(d, "workers"@, workers)
            &&& tells(d, "notes"@, Doc::List(text_docs(nats_notes())))
        }),
{
    let d = nats_doc(n, config, count, workers);
    assert(d->Object_0[0].0 == "ok"@);
    assert(d->Object_0[1].0 == "service"@);
    assert(d->Object_0[2].0 == "role"@);
    assert(d->Object_0[3].0 == "nodeId"@);
    assert(d->Object_0[4].0 == "connected"@);
    assert(d->Object_0[5].0 == "readyForDistributedWork"@);
    assert(d->Object_0[6].0 == "stream"@);
    assert(d->Object_0[7].0 == "subjects"@);
    assert(d->Object_0[8].0 == "workerConsumer"@);
    assert(d->Object_0[9].0 == "workerQueueGroup"@);
    assert(d->Object_0[10].0 == "workersKnown"@);
    assert(d->Object_0[11].0 == "workers"@);
    assert(d->Object_0[12].0 == "notes"@);
}

/// The document of a node tells what it is and how much it has in hand.
pub proof fn nodes_are_told(n: NodeFacts, t: Tallies, nats: Doc, persistence: Doc, gpu: Doc)
    ensures
        ({
            let d = root_doc(n, t, nats, persistence, gpu);
            &&& tells(d, "ok"@, Doc::Flag(true))
            &&& tells(d, "service"@, Doc::Text(SERVICE_NAME@))
            &&& tells(d, "description"@, Doc::Text(SERVICE_DESCRIPTION@))
            &&& tells(d, "version"@, Doc::Text(n.build.package_version@))
            &&& tells(d, "role"@, Doc::Text(role_name(n.role)))
            &&& tells(d, "nodeId"@, Doc::Text(n.node_id@))
            &&& tells(d, "subjects"@, subjects_doc(n.subjects))
            &&& tells(d, "stream"@, Doc::Text(n.stream@))
            &&& tells(d, "queueGroup"@, Doc::Text(n.queue_group@))
            &&& tells(d, "workersKnown"@, Doc::Count(t.workers as u128))
            &&& tells(d, "tasksTracked"@, Doc::Count(t.tasks as u128))
            &&& tells(d, "activeTasks"@, Doc::Count(t.active_tasks as u128))
            &&& tells(d, "solvesTracked"@, Doc::Count(t.solves as u128))
            &&& tells(d, "nats"@, nats)
            &&& tells(d, "build"@, build_doc(n.build))
            &&& tells(d, "links"@, links_doc())
            &&& tells(d, "persistence"@, persistence)
            &&& tells(d, "gpu"@, gpu)
        }),
{
    let d = root_doc(n, t, nats, persistence, gpu);
    assert(d->Object_0[0].0 == "ok"@);
    assert(d->Object_0[1].0 == "service"@);
    assert(d->Object_0[2].0 == "description"@);
    assert(d->Object_0[3].0 == "version"@);
    assert(d->Object_0[4].0 == "role"@);
    assert(d->Object_0[5].0 == "nodeId"@);
    assert(d->Object_0[6].0 == "subjects"@);
    assert(d->Object_0[7].0 == "stream"@);
    assert(d->Object_0[8].0 == "queueGroup"@);
    assert(d->Object_0[9].0 == "workersKnown"@);
    assert(d->Object_0[10].0 == "tasksTracked"@);
    assert(d->Object_0[11].0 == "activeTasks"@);
    assert(d->Object_0[12].0 == "solvesTracked"@);
    assert(d->Object_0[13].0 == "nats"@);
    assert(d->Object_0[14].0 == "build"@);
    assert(d->Object_0[15].0 == "links"@);
    assert(d->Object_0[16].0 == "persistence"@);
    assert(d->Object_0[17].0 == "gpu"@);
}

/// The document of the health tells the build.
pub proof fn health_is_told(b: BuildInfo)
    ensures
        ({
            let d = health_doc(b);
            &&& tells(d, "ok"@, Doc::Flag(true))
            &&& tells(d, "service"@, Doc::Text(SERVICE_NAME@))
            &&& tells(d, "version"@, Doc::Text(b.package_version@))
            &&& tells(d, "gitCommit"@, Doc::Text(known(b.git_commit_short)))
        }),
{
    let d = health_doc(b);
    assert(d->Object_0[0].0 == "ok"@);
    assert(d->Object_0[1].0 == "service"@);
    assert(d->Object_0[2].0 == "version"@);
    assert(d->Object_0[3].0 == "gitCommit"@);
}

/// The document of the readiness tells whether the node is connected.
pub proof fn readiness_is_told(n: NodeFacts)
    ensures
        ({
            let d = ready_doc(n);
            &&& tells(d, "ok"@, Doc::Flag(n.connected))
            &&& tells(d, "service"@, Doc::Text(SERVICE_NAME@))
            &&& tells(d, "version"@, Doc::Text(n.build.package_version@))
            &&& tells(d, "role"@, Doc::Text(role_name(n.role)))
            &&& tells(d, "nodeId"@, Doc::Text(n.node_id@))
            &&& tells(d, "nats"@, Doc::Flag(n.connected))
            &&& tells(d, "subjects"@, subjects_doc(n.subjects))
            &&& tells(d, "stream"@, Doc::Text(n.stream@))
            &&& tells(
                d,
                "reason"@,
                if n.connected {
                    Doc::Null
                } else {
                    Doc::Text("NATS connection is required for distributed solver readiness"@)
                },
            )
        }),
{
    let d = ready_doc(n);
    assert(d->Object_0[0].0 == "ok"@);
    assert(d->Object_0[1].0 == "service"@);
    assert(d->Object_0[2].0 == "version"@);
    assert(d->Object_0[3].0 == "role"@);
    assert(d->Object_0[4].0 == "nodeId"@);
    assert(d->Object_0[5].0 == "nats"@);
    assert(d->Object_0[6].0 == "subjects"@);
    assert(d->Object_0[7].0 == "stream"@);
    assert(d->Object_0[8].0 == "reason"@);
}

/// The document of the workers tells how many there are.
pub proof fn worker_lists_are_told(role: NodeRole, count: nat, list: Doc)
    ensures
        ({
            let d = workers_doc(role, count, list);
            &&& tells(d, "ok"@, Doc::Flag(true))
            &&& tells(d, "role"@, Doc::Text(role_name(role)))
            &&& tells(d, "count"@, Doc::Count(count as u128))
            &&& tells(d, "workers"@, list)
        }),
{
    let d = workers_doc(role, count, list);
    assert(d->Object_0[0].0 == "ok"@);
    assert(d->Object_0[1].0 == "role"@);
    assert(d->Object_0[2].0 == "count"@);
    assert(d->Object_0[3].0 == "workers"@);
}

/// The document of the tasks tells how many there are, and how many of them run.
pub proof fn task_lists_are_told(role: NodeRole, node_id: Seq<char>, v: Seq<Task>, list: Doc)
    ensures
        ({
            let d = tasks_doc(role, node_id, v, list);
            &&& tells(d, "ok"@, Doc::Flag(true))
            &&& tells(d, "role"@, Doc::Text(role_name(role)))
            &&& tells(d, "nodeId"@, Doc::Text(node_id))
            &&& tells(d, "count"@, Doc::Count(v.len() as u128))
            &&& tells(d, "active"@, Doc::Count(running_tasks(v) as u128))
            &&& tells(d, "tasks"@, list)
        }),
{
    let d = tasks_doc(role, node_id, v, list);
    assert(d->Object_0[0].0 == "ok"@);
    assert(d->Object_0[1].0 == "role"@);
    assert(d->Object_0[2].0 == "nodeId"@);
    assert(d->Object_0[3].0 == "count"@);
    assert(d->Object_0[4].0 == "active"@);
    assert(d->Object_0[5].0 == "tasks"@);
}

/// The document of the solves tells how many there are, and how many of them run.
pub proof fn solve_lists_are_told(
    role: NodeRole,
    filter: Option<Seq<char>>,
    v: Seq<SolveEntry>,
    list: Doc,
)
    ensures
        ({
            let d = solves_doc(role, filter, v, list);
            &&& tells(d, "ok"@, Doc::Flag(true))
            &&& tells(d, "role"@, Doc::Text(role_name(role)))
            &&& tells(d, "problem"@, text_or_null(filter))
            &&& tells(d, "count"@, Doc::Count(v.len() as u128))
            &&& tells(d, "active"@, Doc::Count(running_solves(v) as u128))
            &&& tells(d, "solves"@, list)
        }),
{
    let d = solves_doc(role, filter, v, list);
    assert(d->Object_0[0].0 == "ok"@);
    assert(d->Object_0[1].0 == "role"@);
    assert(d->Object_0[2].0 == "problem"@);
    assert(d->Object_0[3].0 == "count"@);
    assert(d->Object_0[4].0 == "active"@);
    assert(d->Object_0[5].0 == "solves"@);
}

/// A message tells its sender, its name, its contents and its time.
pub proof fn messages_are_told(
    schema: Seq<char>,
    node_id: Seq<char>,
    role: NodeRole,
    name_field: Seq<char>,
    name: Seq<char>,
    payload: Doc,
    now: u128,
)
    ensures
        ({
            let d = message_doc(schema, node_id, role, name_field, name, payload, now);
            &&& tells(d, "schema"@, Doc::Text(schema))
            &&& tells(d, "service"@, Doc::Text(SERVICE_NAME@))
            &&& tells(d, "nodeId"@, Doc::Text(node_id))
            &&& tells(d, "role"@, Doc::Text(role_name(role)))
            &&& tells(d, name_field, Doc::Text(name))
            &&& tells(d, "payload"@, payload)
            &&& tells(d, "timeMs"@, Doc::Count(now))
        }),
{
    let d = message_doc(schema, node_id, role, name_field, name, payload, now);
    assert(d->Object_0[0].0 == "schema"@);
    assert(d->Object_0[1].0 == "service"@);
    assert(d->Object_0[2].0 == "nodeId"@);
    assert(d->Object_0[3].0 == "role"@);
    assert(d->Object_0[4].0 == name_field);
    assert(d->Object_0[5].0 == "payload"@);
    assert(d->Object_0[6].0 == "timeMs"@);
}

}
