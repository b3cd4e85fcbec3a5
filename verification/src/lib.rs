//! Verified core of a distributed mixed-integer solver node.

pub mod accelerator;
pub mod aggregate;
pub mod bounds;
pub mod branching;
pub mod cancel;
pub mod config;
pub mod coordination;
pub mod document;
pub mod editing;
pub mod events;
pub mod fields;
pub mod frontier;
pub mod http_framing;
pub mod ids;
pub mod id_set;
pub mod job_tracking;
pub mod jobs;
pub mod json;
pub mod listing;
pub mod live_mutex;
pub mod local_run;
pub mod markup;
pub mod master;
pub mod meaning;
pub mod metrics;
pub mod model;
pub mod model_store;
pub mod moves;
pub mod number;
pub mod options;
pub mod order;
pub mod pages;
pub mod persistence;
pub mod plan;
pub mod registry;
pub mod replies;
pub mod requests;
pub mod response;
pub mod service;
pub mod startup;
pub mod status;
pub mod stream;
pub mod subproblem;
pub mod table;
pub mod tasks;
pub mod text;
pub mod verification;
pub mod wire;
pub mod worker_loop;
pub mod workers;
