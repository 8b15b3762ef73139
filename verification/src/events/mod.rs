//! Calendar events: each one is an occurrence of a schedule at a given date.

pub mod handlers;
pub mod models;
