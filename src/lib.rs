//! Control plane for a fleet of worker agents ("crabs") that run multi-step
//! workflows against code repositories: workflow expansion, the dependency
//! cascade, role-matching scheduling and the per-colony mission queue, all
//! over an in-memory model of the store.

pub mod status;
pub mod text;
pub mod metrics;
pub mod condition;
pub mod model;
pub mod trusted;
pub mod decimal;
pub mod store;
pub mod protocol;
pub mod records;
pub mod schedule;
pub mod workflow;
pub mod expand;
pub mod context;
pub mod cascade;
pub mod queue;
pub mod flow;
pub mod service;
pub mod merge_wait;
pub mod snapshot;
pub mod ids;
pub mod agent;
pub mod laws;
