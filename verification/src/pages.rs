//! The pages that a node shows.

use crate::markup::{escaped, html_escape};
use crate::service::{API_DOCS_SCHEMA, SERVICE_DESCRIPTION, SERVICE_NAME};
use crate::text::{dec, decimal, has_text, occurs_at, parts_of_parts_are_held};
use vstd::prelude::*;
use vstd::string::*;

verus! {

/// What a page begins with, up to its title.
pub const PAGE_HEAD: &'static str = "<!doctype html><html lang=\"en\"><head><meta charset=\"utf-8\">\
    <meta name=\"viewport\" content=\"width=device-width, initial-scale=1\"><title>";

/// What stands between the title of a page and its heading.
pub const PAGE_STYLE: &'static str = "</title><style>body{margin:0;background:#f7f8fb;color:#18202f;\
    font-family:ui-sans-serif,system-ui,-apple-system,BlinkMacSystemFont,Segoe UI,\
    sans-serif;}main{max-width:980px;margin:0 auto;padding:32px 20px 48px;}\
    h1{font-size:2rem;line-height:1.15;margin:0 0 8px;letter-spacing:0;}\
    h2{font-size:1rem;margin:28px 0 10px;color:#30405c;}p{line-height:1.55;color:#4d5b73;\
    }a{color:#0b5cab;text-decoration:none;}a:hover{text-decoration:underline;}.\
    nav{display:flex;flex-wrap:wrap;gap:10px;margin:20px 0 28px;}.nav a,.\
    pill{border:1px solid #cbd5e1;border-radius:6px;padding:6px 10px;background:#fff;\
    color:#23324a;}.grid{display:grid;grid-template-columns:repeat(auto-fit,minmax(220px,\
    1fr));gap:12px;}.card{border:1px solid #d8dee8;border-radius:8px;background:#fff;\
    padding:14px;}code,pre{font-family:ui-monospace,SFMono-Regular,Menlo,Consolas,\
    monospace;}pre{overflow:auto;background:#101827;color:#e5edf7;border-radius:8px;\
    padding:14px;}table{width:100%;border-collapse:collapse;background:#fff;\
    border:1px solid #d8dee8;border-radius:8px;overflow:hidden;}th,td{text-align:left;\
    border-bottom:1px solid #e7ebf2;padding:9px 10px;vertical-align:top;}th{font-size:.\
    8rem;text-transform:uppercase;color:#5a6780;background:#f0f3f8;}.ok{color:#067647;}.\
    warn{color:#b54708;}</style></head><body><main><h1>";

/// The links of a page.
pub const PAGE_NAV: &'static str = "</p><nav class=\"nav\"><a href=\"/home\">Home</a><a href=\"/docs/api\">API Docs</a>\
    <a href=\"/version\">Version</a><a href=\"/mip-solver-cluster/nats\">NATS</a>\
    <a href=\"/healthz\">Health</a><a href=\"/readyz\">Readiness</a><a href=\"/metrics\">\
    Metrics</a></nav>";

/// What a page ends with.
pub const PAGE_END: &'static str = "</main></body></html>";

/// The first box of the home page.
pub const HOME_NODE: &'static str = "<section class=\"grid\"><div class=\"card\"><h2>Node</h2><p><strong>Role:</strong> ";

/// The second box of the home page.
pub const HOME_NATS: &'static str = "</p></div><div class=\"card\"><h2>NATS</h2><p><strong>Status:</strong> <span class=\"";

/// The third box of the home page.
pub const HOME_CLUSTER: &'static str = "</code></p></div><div class=\"card\"><h2>Cluster</h2><p><strong>\
    Workers observed:</strong> ";

/// The routes on the home page.
pub const HOME_ROUTES: &'static str = "</p></div></section><h2>Common Routes</h2><p><a href=\"/model/example\"><code>\
    /model/example</code>\
    </a> gives a sample solve request. <a href=\"/mip-solver-cluster/workers\"><code>\
    /mip-solver-cluster/workers</code>\
    </a> shows slave heartbeats observed by the master. <a href=\"/api/docs.json\"><code>\
    /api/docs.json</code></a> is the machine-readable API contract.</p>";

/// The head of the table of endpoints.
pub const DOCS_TABLE: &'static str = "</span></p><table><thead><tr><th>Method</th><th>Path</th><th>Kind</th><th>\
    Description</th></tr></thead><tbody>";

/// A page.
pub open spec fn page(title: Seq<char>, subtitle: Seq<char>, body: Seq<char>) -> Seq<char> {
    PAGE_HEAD@ + escaped(title) + PAGE_STYLE@ + escaped(title) + "</h1><p>"@
        + escaped(subtitle) + PAGE_NAV@ + body + PAGE_END@
}

/// Writes a page; the body is taken as it is.
pub fn service_page(title: &str, subtitle: &str, body: &str) -> (r: String)
    ensures
        r@ == page(title@, subtitle@, body@),
{
    let title_text = html_escape(title);
    let subtitle_text = html_escape(subtitle);
    let mut out = String::new();
    assert(out@ =~= Seq::empty());
    out.append(PAGE_HEAD);
    out.append(title_text.as_str());
    out.append(PAGE_STYLE);
    out.append(title_text.as_str());
    out.append("</h1><p>");
    out.append(subtitle_text.as_str());
    out.append(PAGE_NAV);
    out.append(body);
    out.append(PAGE_END);
    out
}

/// What the home page tells.
#[derive(Debug)]
pub struct HomeFacts {
    pub role: String,
    pub node_id: String,
    pub version: String,
    pub connected: bool,
    pub stream: String,
    pub consumer: String,
    pub workers: usize,
    pub solves: usize,
}

/// The body of the home page.
pub open spec fn home_body(f: HomeFacts) -> Seq<char> {
    let nats_class = if f.connected {
        "ok"@
    } else {
        "warn"@
    };
    let nats_text = if f.connected {
        "connected"@
    } else {
        "not connected"@
    };
    HOME_NODE@ + escaped(f.role@) + "<br><strong>Node:</strong> <code>"@
        + escaped(f.node_id@) + "</code><br><strong>Version:</strong> "@ + escaped(f.version@)
        + HOME_NATS@ + nats_class + "\">"@ + nats_text
        + "</span><br><strong>Stream:</strong> <code>"@ + escaped(f.stream@)
        + "</code><br><strong>Worker consumer:</strong> <code>"@ + escaped(f.consumer@)
        + HOME_CLUSTER@ + dec(f.workers as nat) + "<br><strong>Solves tracked:</strong> "@
        + dec(f.solves as nat) + HOME_ROUTES@
}

/// The home page.
pub fn home_page(f: &HomeFacts) -> (r: String)
    ensures
        r@ == page(SERVICE_NAME@, SERVICE_DESCRIPTION@, home_body(*f)),
{
    let role_text = html_escape(f.role.as_str());
    let node_text = html_escape(f.node_id.as_str());
    let version_text = html_escape(f.version.as_str());
    let nats_class = if f.connected {
        "ok"
    } else {
        "warn"
    };
    let nats_text = if f.connected {
        "connected"
    } else {
        "not connected"
    };
    let stream_text = html_escape(f.stream.as_str());
    let consumer_text = html_escape(f.consumer.as_str());
    let workers_text = decimal(f.workers);
    let solves_text = decimal(f.solves);
    let mut out = String::new();
    assert(out@ =~= Seq::empty());
    out.append(HOME_NODE);
    out.append(role_text.as_str());
    out.append("<br><strong>Node:</strong> <code>");
    out.append(node_text.as_str());
    out.append("</code><br><strong>Version:</strong> ");
    out.append(version_text.as_str());
    out.append(HOME_NATS);
    out.append(nats_class);
    out.append("\">");
    out.append(nats_text);
    out.append("</span><br><strong>Stream:</strong> <code>");
    out.append(stream_text.as_str());
    out.append("</code><br><strong>Worker consumer:</strong> <code>");
    out.append(consumer_text.as_str());
    out.append(HOME_CLUSTER);
    out.append(workers_text.as_str());
    out.append("<br><strong>Solves tracked:</strong> ");
    out.append(solves_text.as_str());
    out.append(HOME_ROUTES);
    service_page(SERVICE_NAME, SERVICE_DESCRIPTION, out.as_str())
}

/// The page with the version, given the document that describes it.
pub fn version_page(document: &str) -> (r: String)
    ensures
        r@ == page(
            "Version"@,
            "Build and runtime metadata for the solver node."@,
            "<pre>"@ + escaped(document@) + "</pre>"@,
        ),
{
    let text = html_escape(document);
    let mut out = "<pre>".to_owned();
    out.append(text.as_str());
    out.append("</pre>");
    service_page(
        "Version",
        "Build and runtime metadata for the solver node.",
        out.as_str(),
    )
}

/// An endpoint of the service.
#[derive(Debug)]
pub struct Endpoint {
    pub method: &'static str,
    pub path: &'static str,
    pub kind: &'static str,
    pub description: &'static str,
}

/// An endpoint by its texts: method, path, kind and description.
pub type EndpointTexts = (Seq<char>, Seq<char>, Seq<char>, Seq<char>);

impl View for Endpoint {
    type V = EndpointTexts;

    open spec fn view(&self) -> EndpointTexts {
        (self.method@, self.path@, self.kind@, self.description@)
    }
}

/// Endpoints by their texts.
pub open spec fn endpoint_texts(v: Seq<Endpoint>) -> Seq<EndpointTexts> {
    v.map_values(|e: Endpoint| e@)
}

/// The endpoints of the service.
pub open spec fn all_endpoints() -> Seq<EndpointTexts> {
    seq![
        (
            "GET"@,
            "/"@,
            "json"@,
            "Service descriptor with runtime subjects, persistence, GPU status, and links."@,
        ),
        (
            "GET"@,
            "/home"@,
            "html"@,
            "Human-readable service home page."@,
        ),
        (
            "GET"@,
            "/healthz"@,
            "json"@,
            "Process liveness. Does not require NATS."@,
        ),
        (
            "GET"@,
            "/readyz"@,
            "json"@,
            "Readiness. Requires an active NATS connection for distributed solver work."@,
        ),
        (
            "GET"@,
            "/version"@,
            "html"@,
            "Build and runtime version page with git commit metadata."@,
        ),
        (
            "GET"@,
            "/version.json"@,
            "json"@,
            "Build and runtime version metadata."@,
        ),
        (
            "GET"@,
            "/docs/api"@,
            "html"@,
            "Human-readable API documentation."@,
        ),
        (
            "GET"@,
            "/api/docs"@,
            "html"@,
            "Compatibility alias for the API documentation page."@,
        ),
        (
            "GET"@,
            "/api/docs.json"@,
            "json"@,
            "Machine-readable API documentation."@,
        ),
        (
            "GET"@,
            "/mip-solver-cluster/nats"@,
            "json"@,
            "NATS stream, subject, durable worker consumer, and observed worker status."@,
        ),
        (
            "GET"@,
            "/mip-solver-cluster/workers"@,
            "json"@,
            "Slave workers the master has observed through NATS control frames."@,
        ),
        (
            "GET"@,
            "/mip-solver-cluster/solves"@,
            "json"@,
            "Master solve registry with job counts and per-attempt status."@,
        ),
        (
            "DELETE"@,
            "/mip-solver-cluster/solves/:solve_id"@,
            "json"@,
            "Cancel a running solve by solve id."@,
        ),
        (
            "POST"@,
            "/mip-solver-cluster/solves/:solve_id/cancel"@,
            "json"@,
            "Cancel a running solve by solve id."@,
        ),
        (
            "POST"@,
            "/mip-solver-cluster/requests/:request_id/cancel"@,
            "json"@,
            "Cancel a running solve by request id."@,
        ),
        (
            "GET"@,
            "/workers"@,
            "json"@,
            "Compatibility alias for /mip-solver-cluster/workers."@,
        ),
        (
            "GET"@,
            "/model/example"@,
            "json"@,
            "Example knapsack MIP request payload."@,
        ),
        (
            "GET"@,
            "/model/soccer-formation"@,
            "json"@,
            "Akrion-derived binary F433 roster-to-grid assignment MIP request payload."@,
        ),
        (
            "GET"@,
            "/model/soccer-formation-lp"@,
            "json"@,
            "Continuous relaxation of the Akrion-derived F433 assignment model, configured for the internal IPM solver."@,
        ),
        (
            "POST"@,
            "/problems/:problem_id"@,
            "json"@,
            "Stream and store a problem model by UUID for later solve-by-reference requests."@,
        ),
        (
            "POST"@,
            "/problems/:problem_id/solve"@,
            "json"@,
            "Solve a previously stored problem model by UUID."@,
        ),
        (
            "POST"@,
            "/solve"@,
            "json"@,
            "Submit a MIP/IP/LP solve request to a master node."@,
        ),
        (
            "GET"@,
            "/sessions/:session_id"@,
            "json"@,
            "Read a live session model snapshot."@,
        ),
        (
            "POST"@,
            "/sessions/:session_id/events"@,
            "json"@,
            "Apply live model editing events to a session."@,
        ),
        (
            "POST"@,
            "/sessions/:session_id/solve"@,
            "json"@,
            "Solve the current live session model snapshot."@,
        ),
        (
            "GET"@,
            "/metrics"@,
            "text"@,
            "Prometheus metrics for HTTP, NATS jobs/results, worker control, solve registry, and errors."@,
        ),
    ]
}

fn add_endpoint(
    list: &mut Vec<Endpoint>,
    method: &'static str,
    path: &'static str,
    kind: &'static str,
    description: &'static str,
)
    ensures
        endpoint_texts(final(list)@) == endpoint_texts(old(list)@).push(
            (method@, path@, kind@, description@),
        ),
{
    let ghost before = list@;
    list.push(Endpoint { method, path, kind, description });
    assert(endpoint_texts(list@) =~= endpoint_texts(before).push(
        (method@, path@, kind@, description@),
    ));
}

/// The endpoints of the service.
pub fn endpoints() -> (r: Vec<Endpoint>)
    ensures
        endpoint_texts(r@) == all_endpoints(),
{
    let mut list: Vec<Endpoint> = Vec::new();
    assert(endpoint_texts(list@) =~= Seq::empty());
    add_endpoint(
        &mut list,
        "GET",
        "/",
        "json",
        "Service descriptor with runtime subjects, persistence, GPU status, and links.",
    );
    add_endpoint(
        &mut list,
        "GET",
        "/home",
        "html",
        "Human-readable service home page.",
    );
    add_endpoint(
        &mut list,
        "GET",
        "/healthz",
        "json",
        "Process liveness. Does not require NATS.",
    );
    add_endpoint(
        &mut list,
        "GET",
        "/readyz",
        "json",
        "Readiness. Requires an active NATS connection for distributed solver work.",
    );
    add_endpoint(
        &mut list,
        "GET",
        "/version",
        "html",
        "Build and runtime version page with git commit metadata.",
    );
    add_endpoint(
        &mut list,
        "GET",
        "/version.json",
        "json",
        "Build and runtime version metadata.",
    );
    add_endpoint(
        &mut list,
        "GET",
        "/docs/api",
        "html",
        "Human-readable API documentation.",
    );
    add_endpoint(
        &mut list,
        "GET",
        "/api/docs",
        "html",
        "Compatibility alias for the API documentation page.",
    );
    add_endpoint(
        &mut list,
        "GET",
        "/api/docs.json",
        "json",
        "Machine-readable API documentation.",
    );
    add_endpoint(
        &mut list,
        "GET",
        "/mip-solver-cluster/nats",
        "json",
        "NATS stream, subject, durable worker consumer, and observed worker status.",
    );
    add_endpoint(
        &mut list,
        "GET",
        "/mip-solver-cluster/workers",
        "json",
        "Slave workers the master has observed through NATS control frames.",
    );
    add_endpoint(
        &mut list,
        "GET",
        "/mip-solver-cluster/solves",
        "json",
        "Master solve registry with job counts and per-attempt status.",
    );
    add_endpoint(
        &mut list,
        "DELETE",
        "/mip-solver-cluster/solves/:solve_id",
        "json",
        "Cancel a running solve by solve id.",
    );
    add_endpoint(
        &mut list,
        "POST",
        "/mip-solver-cluster/solves/:solve_id/cancel",
        "json",
        "Cancel a running solve by solve id.",
    );
    add_endpoint(
        &mut list,
        "POST",
        "/mip-solver-cluster/requests/:request_id/cancel",
        "json",
        "Cancel a running solve by request id.",
    );
    add_endpoint(
        &mut list,
        "GET",
        "/workers",
        "json",
        "Compatibility alias for /mip-solver-cluster/workers.",
    );
    add_endpoint(
        &mut list,
        "GET",
        "/model/example",
        "json",
        "Example knapsack MIP request payload.",
    );
    add_endpoint(
        &mut list,
        "GET",
        "/model/soccer-formation",
        "json",
        "Akrion-derived binary F433 roster-to-grid assignment MIP request payload.",
    );
    add_endpoint(
        &mut list,
        "GET",
        "/model/soccer-formation-lp",
        "json",
        "Continuous relaxation of the Akrion-derived F433 assignment model, configured for the internal IPM solver.",
    );
    add_endpoint(
        &mut list,
        "POST",
        "/problems/:problem_id",
        "json",
        "Stream and store a problem model by UUID for later solve-by-reference requests.",
    );
    add_endpoint(
        &mut list,
        "POST",
        "/problems/:problem_id/solve",
        "json",
        "Solve a previously stored problem model by UUID.",
    );
    add_endpoint(
        &mut list,
        "POST",
        "/solve",
        "json",
        "Submit a MIP/IP/LP solve request to a master node.",
    );
    add_endpoint(
        &mut list,
        "GET",
        "/sessions/:session_id",
        "json",
        "Read a live session model snapshot.",
    );
    add_endpoint(
        &mut list,
        "POST",
        "/sessions/:session_id/events",
        "json",
        "Apply live model editing events to a session.",
    );
    add_endpoint(
        &mut list,
        "POST",
        "/sessions/:session_id/solve",
        "json",
        "Solve the current live session model snapshot.",
    );
    add_endpoint(
        &mut list,
        "GET",
        "/metrics",
        "text",
        "Prometheus metrics for HTTP, NATS jobs/results, worker control, solve registry, and errors.",
    );
    list
}

/// The row of an endpoint.
pub open spec fn endpoint_row(e: EndpointTexts) -> Seq<char> {
    "<tr><td><code>"@ + escaped(e.0) + "</code></td><td><a href=\""@ + escaped(e.1) + "\"><code>"@
        + escaped(e.1) + "</code></a></td><td>"@ + escaped(e.2) + "</td><td>"@ + escaped(e.3)
        + "</td></tr>"@
}

/// The rows of several endpoints.
pub open spec fn endpoint_rows(list: Seq<EndpointTexts>) -> Seq<char>
    decreases list.len(),
{
    if list.len() == 0 {
        Seq::empty()
    } else {
        endpoint_rows(list.drop_last()) + endpoint_row(list.last())
    }
}

fn rows_of(list: &Vec<Endpoint>) -> (r: String)
    ensures
        r@ == endpoint_rows(endpoint_texts(list@)),
{
    let ghost all = endpoint_texts(list@);
    let mut out = String::new();
    let mut i: usize = 0;
    assert(all.take(0) =~= Seq::empty());
    assert(out@ =~= Seq::empty());
    while i < list.len()
        invariant
            i <= list@.len(),
            all == endpoint_texts(list@),
            out@ == endpoint_rows(all.take(i as int)),
        decreases list@.len() - i,
    {
        let e = &list[i];
        let ghost before = out@;
        let path = html_escape(e.path);
        let method = html_escape(e.method);
        let kind = html_escape(e.kind);
        let description = html_escape(e.description);
        let mut row = "<tr><td><code>".to_owned();
        row.append(method.as_str());
        row.append("</code></td><td><a href=\"");
        row.append(path.as_str());
        row.append("\"><code>");
        row.append(path.as_str());
        row.append("</code></a></td><td>");
        row.append(kind.as_str());
        row.append("</td><td>");
        row.append(description.as_str());
        row.append("</td></tr>");
        out.append(row.as_str());
        assert(all.take(i + 1).drop_last() =~= all.take(i as int));
        assert(all.take(i + 1).last() == e@);
        i = i + 1;
    }
    assert(all.take(i as int) =~= all);
    out
}

/// The body of the page that describes the endpoints.
pub open spec fn docs_body(version: Seq<char>, stream: Seq<char>) -> Seq<char> {
    "<p><span class=\"pill\">schema "@ + escaped(API_DOCS_SCHEMA@)
        + "</span><span class=\"pill\">version "@ + escaped(version)
        + "</span><span class=\"pill\">stream "@ + escaped(stream) + DOCS_TABLE@
        + endpoint_rows(all_endpoints()) + "</tbody></table>"@
}

/// The page that describes the endpoints.
pub fn api_docs_page(version: &str, stream: &str) -> (r: String)
    ensures
        r@ == page(
            "API Docs"@,
            "Canonical HTTP surface for the distributed MIP solver node."@,
            docs_body(version@, stream@),
        ),
{
    let schema_text = html_escape(API_DOCS_SCHEMA);
    let version_text = html_escape(version);
    let stream_text = html_escape(stream);
    let rows = rows_of(&endpoints());
    let mut out = String::new();
    assert(out@ =~= Seq::empty());
    out.append("<p><span class=\"pill\">schema ");
    out.append(schema_text.as_str());
    out.append("</span><span class=\"pill\">version ");
    out.append(version_text.as_str());
    out.append("</span><span class=\"pill\">stream ");
    out.append(stream_text.as_str());
    out.append(DOCS_TABLE);
    out.append(rows.as_str());
    out.append("</tbody></table>");
    service_page(
        "API Docs",
        "Canonical HTTP surface for the distributed MIP solver node.",
        out.as_str(),
    )
}

proof fn middles_are_held(before: Seq<char>, part: Seq<char>, after: Seq<char>)
    ensures
        has_text(before + part + after, part),
{
    let all = before + part + after;
    let at = before.len() as int;
    assert(all.subrange(at, at + part.len()) =~= part);
    assert(occurs_at(all, part, at));
}

/// A page holds its body as it is, and its title and its subtitle escaped.
pub proof fn pages_hold_what_they_tell(title: Seq<char>, subtitle: Seq<char>, body: Seq<char>)
    ensures
        has_text(page(title, subtitle, body), body),
        has_text(page(title, subtitle, body), escaped(title)),
        has_text(page(title, subtitle, body), escaped(subtitle)),
{
    let all = page(title, subtitle, body);
    let head = PAGE_HEAD@ + escaped(title) + PAGE_STYLE@ + escaped(title) + "</h1><p>"@;
    let front = head + escaped(subtitle) + PAGE_NAV@;
    middles_are_held(front, body, PAGE_END@);
    middles_are_held(head, escaped(subtitle), PAGE_NAV@ + body + PAGE_END@);
    assert(all =~= head + escaped(subtitle) + (PAGE_NAV@ + body + PAGE_END@));
    let rest = PAGE_STYLE@ + escaped(title) + "</h1><p>"@ + escaped(subtitle) + PAGE_NAV@ + body
        + PAGE_END@;
    middles_are_held(PAGE_HEAD@, escaped(title), rest);
    assert(all =~= PAGE_HEAD@ + escaped(title) + rest);
}

/// The home page tells whether the node is connected, and how many workers and solves it
/// knows of.
pub proof fn homes_tell_the_node(f: HomeFacts)
    ensures
        f.connected ==> has_text(home_body(f), "ok"@ + "\">"@ + "connected"@),
        !f.connected ==> has_text(home_body(f), "warn"@ + "\">"@ + "not connected"@),
        has_text(
            home_body(f),
            dec(f.workers as nat) + "<br><strong>Solves tracked:</strong> "@ + dec(
                f.solves as nat,
            ),
        ),
{
    let all = home_body(f);
    let class = if f.connected {
        "ok"@
    } else {
        "warn"@
    };
    let text = if f.connected {
        "connected"@
    } else {
        "not connected"@
    };
    let before = HOME_NODE@ + escaped(f.role@) + "<br><strong>Node:</strong> <code>"@ + escaped(
        f.node_id@,
    ) + "</code><br><strong>Version:</strong> "@ + escaped(f.version@) + HOME_NATS@;
    let numbers = dec(f.workers as nat) + "<br><strong>Solves tracked:</strong> "@ + dec(
        f.solves as nat,
    );
    let between = "</span><br><strong>Stream:</strong> <code>"@ + escaped(f.stream@)
        + "</code><br><strong>Worker consumer:</strong> <code>"@ + escaped(f.consumer@)
        + HOME_CLUSTER@;
    let told = class + "\">"@ + text;
    middles_are_held(before, told, between + numbers + HOME_ROUTES@);
    assert(all =~= before + told + (between + numbers + HOME_ROUTES@));
    middles_are_held(before + told + between, numbers, HOME_ROUTES@);
    assert(all =~= before + told + between + numbers + HOME_ROUTES@);
}

/// Each endpoint has a row in the table.
pub proof fn endpoints_have_rows(list: Seq<EndpointTexts>, i: int)
    requires
        0 <= i < list.len(),
    ensures
        has_text(endpoint_rows(list), endpoint_row(list[i])),
    decreases list.len(),
{
    let front = list.drop_last();
    let all = endpoint_rows(list);
    let before = endpoint_rows(front);
    if i < front.len() {
        endpoints_have_rows(front, i);
        assert(front[i] == list[i]);
        middles_are_held(Seq::empty(), before, endpoint_row(list.last()));
        assert(all =~= Seq::<char>::empty() + before + endpoint_row(list.last()));
        parts_of_parts_are_held(all, before, endpoint_row(list[i]));
    } else {
        middles_are_held(before, endpoint_row(list[i]), Seq::empty());
        assert(all =~= before + endpoint_row(list[i]) + Seq::<char>::empty());
    }
}

}
