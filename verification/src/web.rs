//! The receiving side: what takes uploaded batches in and commits them.

pub mod server;
