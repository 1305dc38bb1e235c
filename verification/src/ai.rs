//! AI services.

pub mod auth;
pub mod client;

pub use auth::Auth;
