//! Verified core of the qdrust server: configuration, login policy, session
//! helpers, notification rendering and delivery planning, the template library
//! catalogue and the scheduler's decisions.

pub mod text;
pub mod json;
pub mod clock;
pub mod config;
pub mod environment;
pub mod crypto;
pub mod auth;
pub mod api;
pub mod accounts;
pub mod model;
pub mod oidc;
pub mod header_auth;
pub mod email;
pub mod push_channels;
pub mod delivery;
pub mod library;
pub mod scheduler;
pub mod outbound;
pub mod ga;
pub mod session_cache;
