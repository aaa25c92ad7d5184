//! Scan, ingest and reschedule pipeline of a game-server census: the worker
//! pool that probes hosts and batches results, the rescan scheduler, and the
//! deferred-commit queue with its keyed upsert model.

pub mod database;
pub mod scanner;
pub mod util;
pub mod web;
