//! Sign-in, registration and the JWT session tokens sent in `x-token`.

pub mod claims;
pub mod extractor;
pub mod handlers;
pub mod jwt;
pub mod models;
