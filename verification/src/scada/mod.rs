//! The SCADA model: sites, assets, connections, tags, schedules, interlocks
//! and command executions, with the rules their payloads must follow.

pub mod handlers;
pub mod models;
