//! Verified core of a host telemetry agent.
//!
//! The library holds the collection-and-distribution pipeline's logic:
//! the tool-output parsers (GPU CSV, thermal sensors, socket tables,
//! container JSON lines), the per-source TTL cache, the derived-rate and
//! percentage computations of the local snapshot collector, and the
//! per-cycle orchestration decisions. Everything that touches the outside
//! world (subprocesses, OS counters, the web transport) lives in the
//! surrounding application and hands this library plain values.

pub mod bytes;
pub mod cache;
pub mod config;
pub mod control;
pub mod cycle;
pub mod docker;
pub mod gpu;
pub mod health;
pub mod local;
pub mod models;
pub mod numbers;
pub mod ports;
pub mod runner;
pub mod sensors;
pub mod services;
