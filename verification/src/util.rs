//! Shared value types and small helpers.

pub mod bridge;
pub mod convert;
pub mod lists;
pub mod logs;
pub mod misc;
pub mod text;
pub mod types;
