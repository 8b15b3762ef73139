//! Verified core of the calendar / SCADA scheduling backend: payload
//! validation, the decisions of the REST handlers, the JSON model that the
//! validators read, and the JWT session tokens.

use vstd::prelude::*;

pub mod auth;
pub mod config;
pub mod error;
pub mod events;
pub mod ids;
pub mod json;
pub mod scada;
pub mod text;

verus! {

} // verus!
