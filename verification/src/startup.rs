//! What a node settles when it starts.

use crate::config::{env_u64, env_usize, env_value, optional_env_value, RuntimeConfig};
use crate::ids::{is_random_uuid, new_uuid_string};
use crate::service::SERVICE_NAME;
use crate::status::Subjects;
use vstd::prelude::*;
use vstd::string::*;

verus! {

/// The name of a node, given a fresh identifier: the configured one, that of its
/// pod, that of its host, or a new one.
pub open spec fn node_name(config: RuntimeConfig, fresh: Seq<char>) -> Seq<char> {
    match config.text_of("MIP_SOLVER_NODE_ID"@) {
        Some(s) => s,
        None => match config.text_of("POD_NAME"@) {
            Some(s) => s,
            None => match config.text_of("HOSTNAME"@) {
                Some(s) => s,
                None => SERVICE_NAME@ + "-"@ + fresh,
            },
        },
    }
}

/// The name of a node, given a fresh identifier.
pub fn node_id_with(config: &RuntimeConfig, fresh: &str) -> (r: String)
    ensures
        r@ == node_name(*config, fresh@),
{
    if let Some(s) = optional_env_value(config, "MIP_SOLVER_NODE_ID") {
        return s;
    }
    if let Some(s) = optional_env_value(config, "POD_NAME") {
        return s;
    }
    if let Some(s) = optional_env_value(config, "HOSTNAME") {
        return s;
    }
    let mut out = SERVICE_NAME.to_owned();
    out.append("-");
    out.append(fresh);
    out
}

/// The name of a node.
pub fn node_id(config: &RuntimeConfig) -> (r: String)
    ensures
        exists|fresh: Seq<char>| #[trigger]
            is_random_uuid(fresh) && r@ == node_name(*config, fresh),
{
    let fresh = new_uuid_string();
    node_id_with(config, fresh.as_str())
}

/// A number kept between two others.
pub open spec fn between(n: u64, low: u64, high: u64) -> u64 {
    if n < low {
        low
    } else if n > high {
        high
    } else {
        n
    }
}

fn kept_between(n: u64, low: u64, high: u64) -> (r: u64)
    ensures
        r == between(n, low, high),
{
    if n < low {
        low
    } else if n > high {
        high
    } else {
        n
    }
}

/// How often a node tries to connect.
pub fn connect_attempts(config: &RuntimeConfig) -> (r: u64)
    ensures
        r == between(config.unsigned_or("MIP_SOLVER_NATS_CONNECT_ATTEMPTS"@, 60), 1, 360),
{
    kept_between(env_u64(config, "MIP_SOLVER_NATS_CONNECT_ATTEMPTS", 60), 1, 360)
}

/// How many seconds a node waits before it tries to connect again.
pub fn connect_retry_seconds(config: &RuntimeConfig) -> (r: u64)
    ensures
        r == between(config.unsigned_or("MIP_SOLVER_NATS_CONNECT_RETRY_SECONDS"@, 2), 1, 60),
{
    kept_between(env_u64(config, "MIP_SOLVER_NATS_CONNECT_RETRY_SECONDS", 2), 1, 60)
}

/// How many connections to the database a node holds.
pub fn database_pool_size(config: &RuntimeConfig) -> (r: u32)
    ensures
        r == between(config.count_or("MIP_SOLVER_PG_POOL_SIZE"@, 4) as u64, 1, 32),
{
    let n: usize = env_usize(config, "MIP_SOLVER_PG_POOL_SIZE", 4);
    kept_between(n as u64, 1, 32) as u32
}

/// How many seconds the shared cache keeps what is put into it.
pub fn cache_ttl_seconds(config: &RuntimeConfig) -> (r: u64)
    ensures
        r == config.unsigned_or("MIP_SOLVER_REDIS_TTL_SECONDS"@, 86_400),
{
    env_u64(config, "MIP_SOLVER_REDIS_TTL_SECONDS", 86_400)
}

/// The address at which a node listens.
pub fn listen_address(config: &RuntimeConfig) -> (r: String)
    ensures
        r@ == config.text_or("HOST"@, "0.0.0.0"@) + ":"@ + config.text_or("PORT"@, "8097"@),
{
    let mut out = env_value(config, "HOST", "0.0.0.0");
    out.append(":");
    out.append(env_value(config, "PORT", "8097").as_str());
    out
}

/// The subjects on which a node talks: the configured ones, or those given.
pub fn subjects(config: &RuntimeConfig, defaults: &Subjects) -> (r: Subjects)
    ensures
        r.jobs@ == config.text_or("MIP_SOLVER_JOBS_SUBJECT"@, defaults.jobs@),
        r.results@ == config.text_or("MIP_SOLVER_RESULTS_SUBJECT"@, defaults.results@),
        r.control@ == config.text_or("MIP_SOLVER_CONTROL_SUBJECT"@, defaults.control@),
        r.events@ == config.text_or("MIP_SOLVER_EVENTS_SUBJECT"@, defaults.events@),
{
    Subjects {
        jobs: env_value(config, "MIP_SOLVER_JOBS_SUBJECT", defaults.jobs.as_str()),
        results: env_value(config, "MIP_SOLVER_RESULTS_SUBJECT", defaults.results.as_str()),
        control: env_value(config, "MIP_SOLVER_CONTROL_SUBJECT", defaults.control.as_str()),
        events: env_value(config, "MIP_SOLVER_EVENTS_SUBJECT", defaults.events.as_str()),
    }
}

/// A node is named by its own setting before that of its pod, by that before that of its
/// host, and else freshly.
pub proof fn nodes_are_named_in_order(config: RuntimeConfig, fresh: Seq<char>)
    ensures
        config.text_of("MIP_SOLVER_NODE_ID"@) matches Some(s) ==> node_name(config, fresh) == s,
        config.text_of("MIP_SOLVER_NODE_ID"@) is None && config.text_of("POD_NAME"@) is Some
            ==> Some(node_name(config, fresh)) == config.text_of("POD_NAME"@),
        config.text_of("MIP_SOLVER_NODE_ID"@) is None && config.text_of("POD_NAME"@) is None
            && config.text_of("HOSTNAME"@) is Some ==> Some(node_name(config, fresh))
            == config.text_of("HOSTNAME"@),
        config.settings@.len() == 0 ==> node_name(config, fresh) == SERVICE_NAME@ + "-"@ + fresh,
{
}

/// A number kept between two others is itself where it lies between them, and the nearer
/// of the two else.
pub proof fn numbers_are_kept_between(n: u64, low: u64, high: u64)
    requires
        low <= high,
    ensures
        low <= between(n, low, high) <= high,
        low <= n <= high ==> between(n, low, high) == n,
        n < low ==> between(n, low, high) == low,
        n > high ==> between(n, low, high) == high,
{
}

}
