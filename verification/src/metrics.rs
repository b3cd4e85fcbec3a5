//! The metrics of a node, in the text format that Prometheus reads.

use crate::markup::{label_text, prometheus_label_value};
use crate::text::{dec, decimal_u64, has_text, occurs_at, parts_of_parts_are_held};
use vstd::prelude::*;
use vstd::string::*;

verus! {

/// The type of the content of the metrics.
pub const METRICS_CONTENT_TYPE: &'static str = "text/plain; version=0.0.4";

/// What a node has counted.
#[derive(Clone, Copy, Debug)]
pub struct Counts {
    pub http_requests: u64,
    pub stream_events: u64,
    pub solve_requests: u64,
    pub solve_cancel_requests: u64,
    pub subproblem_jobs_published: u64,
    pub subproblem_jobs_completed: u64,
    pub subproblem_jobs_redelegated: u64,
    pub subproblem_jobs_split: u64,
    pub workers_known: u64,
    pub worker_control_messages: u64,
    pub solves_tracked: u64,
    pub active_solves: u64,
    pub slave_jobs_processed: u64,
    pub errors: u64,
}

/// How many jobs await a result that a master accepts.
pub open spec fn in_flight(c: Counts) -> nat {
    if c.subproblem_jobs_published > c.subproblem_jobs_completed {
        (c.subproblem_jobs_published - c.subproblem_jobs_completed) as nat
    } else {
        0
    }
}

/// How many jobs await a result that a master accepts.
pub fn jobs_in_flight(c: &Counts) -> (r: u64)
    ensures
        r == in_flight(*c),
{
    if c.subproblem_jobs_published > c.subproblem_jobs_completed {
        c.subproblem_jobs_published - c.subproblem_jobs_completed
    } else {
        0
    }
}

/// The lines of a metric.
pub open spec fn metric(name: Seq<char>, help: Seq<char>, kind: Seq<char>, value: nat) -> Seq<char> {
    "# HELP "@ + name + " "@ + help + "\n# TYPE "@ + name + " "@ + kind + "\n"@ + name + " "@ + dec(
        value,
    ) + "\n"@
}

/// The lines that tell what the node is.
pub open spec fn node_info(role: Seq<char>, node_id: Seq<char>) -> Seq<char> {
    "# HELP dd_mip_solver_node_info Static solver node metadata.\n"@
        + "# TYPE dd_mip_solver_node_info gauge\n"@ + "dd_mip_solver_node_info{role=\""@
        + label_text(role) + "\",node_id=\""@ + label_text(node_id) + "\"} 1\n"@
}

fn add_metric(out: &mut String, name: &str, help: &str, kind: &str, value: u64)
    ensures
        final(out)@ == old(out)@ + metric(name@, help@, kind@, value as nat),
{
    let mut text = "# HELP ".to_owned();
    text.append(name);
    text.append(" ");
    text.append(help);
    text.append("\n# TYPE ");
    text.append(name);
    text.append(" ");
    text.append(kind);
    text.append("\n");
    text.append(name);
    text.append(" ");
    text.append(decimal_u64(value).as_str());
    text.append("\n");
    out.append(text.as_str());
}

/// The metrics of a node.
pub open spec fn exposition(role: Seq<char>, node_id: Seq<char>, c: Counts) -> Seq<char> {
    node_info(role, node_id) + metric(
        "dd_mip_solver_http_requests_total"@,
        "Total HTTP requests handled by this node."@,
        "counter"@,
        c.http_requests as nat,
    ) + metric(
        "dd_mip_solver_stream_events_total"@,
        "Total live model stream events applied by this node."@,
        "counter"@,
        c.stream_events as nat,
    ) + metric(
        "dd_mip_solver_solve_requests_total"@,
        "Total solve requests handled by this node."@,
        "counter"@,
        c.solve_requests as nat,
    ) + metric(
        "dd_mip_solver_solve_cancel_requests_total"@,
        "Total top-level solve cancellation requests accepted by this node."@,
        "counter"@,
        c.solve_cancel_requests as nat,
    ) + metric(
        "dd_mip_solver_subproblem_jobs_published_total"@,
        "Total NATS subproblem jobs published by masters."@,
        "counter"@,
        c.subproblem_jobs_published as nat,
    ) + metric(
        "dd_mip_solver_subproblem_jobs_completed_total"@,
        "Total expected NATS subproblem results accepted by masters."@,
        "counter"@,
        c.subproblem_jobs_completed as nat,
    ) + metric(
        "dd_mip_solver_subproblem_jobs_in_flight"@,
        "Current master-observed subproblem jobs awaiting accepted results."@,
        "gauge"@,
        in_flight(c),
    ) + metric(
        "dd_mip_solver_subproblem_jobs_redelegated_total"@,
        "Total errored subproblem jobs re-published by masters."@,
        "counter"@,
        c.subproblem_jobs_redelegated as nat,
    ) + metric(
        "dd_mip_solver_subproblem_jobs_split_total"@,
        "Total accepted subproblem attempts split into child jobs by masters."@,
        "counter"@,
        c.subproblem_jobs_split as nat,
    ) + metric(
        "dd_mip_solver_workers_known"@,
        "Current worker nodes observed through NATS control messages."@,
        "gauge"@,
        c.workers_known as nat,
    ) + metric(
        "dd_mip_solver_worker_control_messages_total"@,
        "Total worker control messages received by master nodes."@,
        "counter"@,
        c.worker_control_messages as nat,
    ) + metric(
        "dd_mip_solver_solves_tracked"@,
        "Current solve records retained in master memory."@,
        "gauge"@,
        c.solves_tracked as nat,
    ) + metric(
        "dd_mip_solver_active_solves"@,
        "Current solves without a terminal aggregate response."@,
        "gauge"@,
        c.active_solves as nat,
    ) + metric(
        "dd_mip_solver_slave_jobs_processed_total"@,
        "Total subproblem jobs processed by slave nodes."@,
        "counter"@,
        c.slave_jobs_processed as nat,
    ) + metric(
        "dd_mip_solver_errors_total"@,
        "Total errors observed by this node."@,
        "counter"@,
        c.errors as nat,
    )
}

/// Writes the metrics of a node.
pub fn metrics_text(role: &str, node_id: &str, c: &Counts) -> (r: String)
    ensures
        r@ == exposition(role@, node_id@, *c),
{
    let role_text = prometheus_label_value(role);
    let node_text = prometheus_label_value(node_id);
    let mut out = "# HELP dd_mip_solver_node_info Static solver node metadata.\n".to_owned();
    out.append("# TYPE dd_mip_solver_node_info gauge\n");
    out.append("dd_mip_solver_node_info{role=\"");
    out.append(role_text.as_str());
    out.append("\",node_id=\"");
    out.append(node_text.as_str());
    out.append("\"} 1\n");
    assert(out@ == node_info(role@, node_id@));
    add_metric(
        &mut out,
        "dd_mip_solver_http_requests_total",
        "Total HTTP requests handled by this node.",
        "counter",
        c.http_requests,
    );
    add_metric(
        &mut out,
        "dd_mip_solver_stream_events_total",
        "Total live model stream events applied by this node.",
        "counter",
        c.stream_events,
    );
    add_metric(
        &mut out,
        "dd_mip_solver_solve_requests_total",
        "Total solve requests handled by this node.",
        "counter",
        c.solve_requests,
    );
    add_metric(
        &mut out,
        "dd_mip_solver_solve_cancel_requests_total",
        "Total top-level solve cancellation requests accepted by this node.",
        "counter",
        c.solve_cancel_requests,
    );
    add_metric(
        &mut out,
        "dd_mip_solver_subproblem_jobs_published_total",
        "Total NATS subproblem jobs published by masters.",
        "counter",
        c.subproblem_jobs_published,
    );
    add_metric(
        &mut out,
        "dd_mip_solver_subproblem_jobs_completed_total",
        "Total expected NATS subproblem results accepted by masters.",
        "counter",
        c.subproblem_jobs_completed,
    );
    add_metric(
        &mut out,
        "dd_mip_solver_subproblem_jobs_in_flight",
        "Current master-observed subproblem jobs awaiting accepted results.",
        "gauge",
        jobs_in_flight(c),
    );
    add_metric(
        &mut out,
        "dd_mip_solver_subproblem_jobs_redelegated_total",
        "Total errored subproblem jobs re-published by masters.",
        "counter",
        c.subproblem_jobs_redelegated,
    );
    add_metric(
        &mut out,
        "dd_mip_solver_subproblem_jobs_split_total",
        "Total accepted subproblem attempts split into child jobs by masters.",
        "counter",
        c.subproblem_jobs_split,
    );
    add_metric(
        &mut out,
        "dd_mip_solver_workers_known",
        "Current worker nodes observed through NATS control messages.",
        "gauge",
        c.workers_known,
    );
    add_metric(
        &mut out,
        "dd_mip_solver_worker_control_messages_total",
        "Total worker control messages received by master nodes.",
        "counter",
        c.worker_control_messages,
    );
    add_metric(
        &mut out,
        "dd_mip_solver_solves_tracked",
        "Current solve records retained in master memory.",
        "gauge",
        c.solves_tracked,
    );
    add_metric(
        &mut out,
        "dd_mip_solver_active_solves",
        "Current solves without a terminal aggregate response.",
        "gauge",
        c.active_solves,
    );
    add_metric(
        &mut out,
        "dd_mip_solver_slave_jobs_processed_total",
        "Total subproblem jobs processed by slave nodes.",
        "counter",
        c.slave_jobs_processed,
    );
    add_metric(
        &mut out,
        "dd_mip_solver_errors_total",
        "Total errors observed by this node.",
        "counter",
        c.errors,
    );
    out
}

/// Jobs are in flight from when they are sent out until their results are accepted.
pub proof fn jobs_in_flight_are_counted(c: Counts)
    ensures
        c.subproblem_jobs_completed <= c.subproblem_jobs_published ==> in_flight(c)
            + c.subproblem_jobs_completed == c.subproblem_jobs_published,
        c.subproblem_jobs_completed > c.subproblem_jobs_published ==> in_flight(c) == 0,
{
}

/// The line that tells the number of a metric.
pub open spec fn sample(name: Seq<char>, value: nat) -> Seq<char> {
    name + " "@ + dec(value) + "\n"@
}

/// Whether a text holds each of the lines.
pub open spec fn holds_lines(s: Seq<char>, lines: Seq<Seq<char>>) -> bool {
    forall|i: int| 0 <= i < lines.len() ==> has_text(s, #[trigger] lines[i])
}

proof fn metrics_hold_their_samples(
    before: Seq<char>,
    lines: Seq<Seq<char>>,
    name: Seq<char>,
    help: Seq<char>,
    kind: Seq<char>,
    value: nat,
)
    requires
        holds_lines(before, lines),
    ensures
        holds_lines(before + metric(name, help, kind, value), lines.push(sample(name, value))),
{
    let line = sample(name, value);
    let all = before + metric(name, help, kind, value);
    let at = all.len() - line.len();
    assert(all.subrange(at, at + line.len()) =~= line);
    assert(occurs_at(all, line, at));
    assert(all.subrange(0, before.len() as int) =~= before);
    assert(occurs_at(all, before, 0));
    let more = lines.push(line);
    assert forall|i: int| 0 <= i < more.len() implies has_text(all, #[trigger] more[i]) by {
        if i < lines.len() {
            assert(has_text(before, lines[i]));
            parts_of_parts_are_held(all, before, lines[i]);
        }
    }
}

/// Each metric is told with its own number.
pub proof fn metrics_tell_the_counts(role: Seq<char>, node_id: Seq<char>, c: Counts)
    ensures
        has_text(
            exposition(role, node_id, c),
            sample("dd_mip_solver_http_requests_total"@, c.http_requests as nat),
        ),
        has_text(
            exposition(role, node_id, c),
            sample("dd_mip_solver_stream_events_total"@, c.stream_events as nat),
        ),
        has_text(
            exposition(role, node_id, c),
            sample("dd_mip_solver_solve_requests_total"@, c.solve_requests as nat),
        ),
        has_text(
            exposition(role, node_id, c),
            sample("dd_mip_solver_solve_cancel_requests_total"@, c.solve_cancel_requests as nat),
        ),
        has_text(
            exposition(role, node_id, c),
            sample(
                "dd_mip_solver_subproblem_jobs_published_total"@,
                c.subproblem_jobs_published as nat,
            ),
        ),
        has_text(
            exposition(role, node_id, c),
            sample(
                "dd_mip_solver_subproblem_jobs_completed_total"@,
                c.subproblem_jobs_completed as nat,
            ),
        ),
        has_text(
            exposition(role, node_id, c),
            sample("dd_mip_solver_subproblem_jobs_in_flight"@, in_flight(c)),
        ),
        has_text(
            exposition(role, node_id, c),
            sample(
                "dd_mip_solver_subproblem_jobs_redelegated_total"@,
                c.subproblem_jobs_redelegated as nat,
            ),
        ),
        has_text(
            exposition(role, node_id, c),
            sample("dd_mip_solver_subproblem_jobs_split_total"@, c.subproblem_jobs_split as nat),
        ),
        has_text(
            exposition(role, node_id, c),
            sample("dd_mip_solver_workers_known"@, c.workers_known as nat),
        ),
        has_text(
            exposition(role, node_id, c),
            sample(
                "dd_mip_solver_worker_control_messages_total"@,
                c.worker_control_messages as nat,
            ),
        ),
        has_text(
            exposition(role, node_id, c),
            sample("dd_mip_solver_solves_tracked"@, c.solves_tracked as nat),
        ),
        has_text(
            exposition(role, node_id, c),
            sample("dd_mip_solver_active_solves"@, c.active_solves as nat),
        ),
        has_text(
            exposition(role, node_id, c),
            sample("dd_mip_solver_slave_jobs_processed_total"@, c.slave_jobs_processed as nat),
        ),
        has_text(
            exposition(role, node_id, c),
            sample("dd_mip_solver_errors_total"@, c.errors as nat),
        ),
{
    let e = node_info(role, node_id);
    let l = Seq::<Seq<char>>::empty();
    metrics_hold_their_samples(
        e,
        l,
        "dd_mip_solver_http_requests_total"@,
        "Total HTTP requests handled by this node."@,
        "counter"@,
        c.http_requests as nat,
    );
    let e0 = e + metric(
        "dd_mip_solver_http_requests_total"@,
        "Total HTTP requests handled by this node."@,
        "counter"@,
        c.http_requests as nat,
    );
    let l0 = l.push(sample("dd_mip_solver_http_requests_total"@, c.http_requests as nat));
    metrics_hold_their_samples(
        e0,
        l0,
        "dd_mip_solver_stream_events_total"@,
        "Total live model stream events applied by this node."@,
        "counter"@,
        c.stream_events as nat,
    );
    let e1 = e0 + metric(
        "dd_mip_solver_stream_events_total"@,
        "Total live model stream events applied by this node."@,
        "counter"@,
        c.stream_events as nat,
    );
    let l1 = l0.push(sample("dd_mip_solver_stream_events_total"@, c.stream_events as nat));
    metrics_hold_their_samples(
        e1,
        l1,
        "dd_mip_solver_solve_requests_total"@,
        "Total solve requests handled by this node."@,
        "counter"@,
        c.solve_requests as nat,
    );
    let e2 = e1 + metric(
        "dd_mip_solver_solve_requests_total"@,
        "Total solve requests handled by this node."@,
        "counter"@,
        c.solve_requests as nat,
    );
    let l2 = l1.push(sample("dd_mip_solver_solve_requests_total"@, c.solve_requests as nat));
    metrics_hold_their_samples(
        e2,
        l2,
        "dd_mip_solver_solve_cancel_requests_total"@,
        "Total top-level solve cancellation requests accepted by this node."@,
        "counter"@,
        c.solve_cancel_requests as nat,
    );
    let e3 = e2 + metric(
        "dd_mip_solver_solve_cancel_requests_total"@,
        "Total top-level solve cancellation requests accepted by this node."@,
        "counter"@,
        c.solve_cancel_requests as nat,
    );
    let l3 = l2.push(
        sample("dd_mip_solver_solve_cancel_requests_total"@, c.solve_cancel_requests as nat),
    );
    metrics_hold_their_samples(
        e3,
        l3,
        "dd_mip_solver_subproblem_jobs_published_total"@,
        "Total NATS subproblem jobs published by masters."@,
        "counter"@,
        c.subproblem_jobs_published as nat,
    );
    let e4 = e3 + metric(
        "dd_mip_solver_subproblem_jobs_published_total"@,
        "Total NATS subproblem jobs published by masters."@,
        "counter"@,
        c.subproblem_jobs_published as nat,
    );
    let l4 = l3.push(
        sample("dd_mip_solver_subproblem_jobs_published_total"@, c.subproblem_jobs_published as nat),
    );
    metrics_hold_their_samples(
        e4,
        l4,
        "dd_mip_solver_subproblem_jobs_completed_total"@,
        "Total expected NATS subproblem results accepted by masters."@,
        "counter"@,
        c.subproblem_jobs_completed as nat,
    );
    let e5 = e4 + metric(
        "dd_mip_solver_subproblem_jobs_completed_total"@,
        "Total expected NATS subproblem results accepted by masters."@,
        "counter"@,
        c.subproblem_jobs_completed as nat,
    );
    let l5 = l4.push(
        sample("dd_mip_solver_subproblem_jobs_completed_total"@, c.subproblem_jobs_completed as nat),
    );
    metrics_hold_their_samples(
        e5,
        l5,
        "dd_mip_solver_subproblem_jobs_in_flight"@,
        "Current master-observed subproblem jobs awaiting accepted results."@,
        "gauge"@,
        in_flight(c),
    );
    let e6 = e5 + metric(
        "dd_mip_solver_subproblem_jobs_in_flight"@,
        "Current master-observed subproblem jobs awaiting accepted results."@,
        "gauge"@,
        in_flight(c),
    );
    let l6 = l5.push(sample("dd_mip_solver_subproblem_jobs_in_flight"@, in_flight(c)));
    metrics_hold_their_samples(
        e6,
        l6,
        "dd_mip_solver_subproblem_jobs_redelegated_total"@,
        "Total errored subproblem jobs re-published by masters."@,
        "counter"@,
        c.subproblem_jobs_redelegated as nat,
    );
    let e7 = e6 + metric(
        "dd_mip_solver_subproblem_jobs_redelegated_total"@,
        "Total errored subproblem jobs re-published by masters."@,
        "counter"@,
        c.subproblem_jobs_redelegated as nat,
    );
    let l7 = l6.push(
        sample("dd_mip_solver_subproblem_jobs_redelegated_total"@, c.subproblem_jobs_redelegated as nat),
    );
    metrics_hold_their_samples(
        e7,
        l7,
        "dd_mip_solver_subproblem_jobs_split_total"@,
        "Total accepted subproblem attempts split into child jobs by masters."@,
        "counter"@,
        c.subproblem_jobs_split as nat,
    );
    let e8 = e7 + metric(
        "dd_mip_solver_subproblem_jobs_split_total"@,
        "Total accepted subproblem attempts split into child jobs by masters."@,
        "counter"@,
        c.subproblem_jobs_split as nat,
    );
    let l8 = l7.push(
        sample("dd_mip_solver_subproblem_jobs_split_total"@, c.subproblem_jobs_split as nat),
    );
    metrics_hold_their_samples(
        e8,
        l8,
        "dd_mip_solver_workers_known"@,
        "Current worker nodes observed through NATS control messages."@,
        "gauge"@,
        c.workers_known as nat,
    );
    let e9 = e8 + metric(
        "dd_mip_solver_workers_known"@,
        "Current worker nodes observed through NATS control messages."@,
        "gauge"@,
        c.workers_known as nat,
    );
    let l9 = l8.push(sample("dd_mip_solver_workers_known"@, c.workers_known as nat));
    metrics_hold_their_samples(
        e9,
        l9,
        "dd_mip_solver_worker_control_messages_total"@,
        "Total worker control messages received by master nodes."@,
        "counter"@,
        c.worker_control_messages as nat,
    );
    let e10 = e9 + metric(
        "dd_mip_solver_worker_control_messages_total"@,
        "Total worker control messages received by master nodes."@,
        "counter"@,
        c.worker_control_messages as nat,
    );
    let l10 = l9.push(
        sample("dd_mip_solver_worker_control_messages_total"@, c.worker_control_messages as nat),
    );
    metrics_hold_their_samples(
        e10,
        l10,
        "dd_mip_solver_solves_tracked"@,
        "Current solve records retained in master memory."@,
        "gauge"@,
        c.solves_tracked as nat,
    );
    let e11 = e10 + metric(
        "dd_mip_solver_solves_tracked"@,
        "Current solve records retained in master memory."@,
        "gauge"@,
        c.solves_tracked as nat,
    );
    let l11 = l10.push(sample("dd_mip_solver_solves_tracked"@, c.solves_tracked as nat));
    metrics_hold_their_samples(
        e11,
        l11,
        "dd_mip_solver_active_solves"@,
        "Current solves without a terminal aggregate response."@,
        "gauge"@,
        c.active_solves as nat,
    );
    let e12 = e11 + metric(
        "dd_mip_solver_active_solves"@,
        "Current solves without a terminal aggregate response."@,
        "gauge"@,
        c.active_solves as nat,
    );
    let l12 = l11.push(sample("dd_mip_solver_active_solves"@, c.active_solves as nat));
    metrics_hold_their_samples(
        e12,
        l12,
        "dd_mip_solver_slave_jobs_processed_total"@,
        "Total subproblem jobs processed by slave nodes."@,
        "counter"@,
        c.slave_jobs_processed as nat,
    );
    let e13 = e12 + metric(
        "dd_mip_solver_slave_jobs_processed_total"@,
        "Total subproblem jobs processed by slave nodes."@,
        "counter"@,
        c.slave_jobs_processed as nat,
    );
    let l13 = l12.push(
        sample("dd_mip_solver_slave_jobs_processed_total"@, c.slave_jobs_processed as nat),
    );
    metrics_hold_their_samples(
        e13,
        l13,
        "dd_mip_solver_errors_total"@,
        "Total errors observed by this node."@,
        "counter"@,
        c.errors as nat,
    );
    let e14 = e13 + metric(
        "dd_mip_solver_errors_total"@,
        "Total errors observed by this node."@,
        "counter"@,
        c.errors as nat,
    );
    let l14 = l13.push(sample("dd_mip_solver_errors_total"@, c.errors as nat));
    assert(has_text(e14, l14[0]));
    assert(has_text(e14, l14[1]));
    assert(has_text(e14, l14[2]));
    assert(has_text(e14, l14[3]));
    assert(has_text(e14, l14[4]));
    assert(has_text(e14, l14[5]));
    assert(has_text(e14, l14[6]));
    assert(has_text(e14, l14[7]));
    assert(has_text(e14, l14[8]));
    assert(has_text(e14, l14[9]));
    assert(has_text(e14, l14[10]));
    assert(has_text(e14, l14[11]));
    assert(has_text(e14, l14[12]));
    assert(has_text(e14, l14[13]));
    assert(has_text(e14, l14[14]));
}

}
