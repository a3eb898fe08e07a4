//! Server-side authentication core: session lifecycle management, CSRF token
//! issuance and verification, and password hashing for login, registration and
//! password-change flows.
//!
//! The session store is the single source of truth for active sessions; the
//! session manager resolves an inbound request's cookie to an authenticated
//! user, applying a sliding-window renewal policy; the CSRF guard protects
//! mutating requests with single-round-trip tokens.

pub mod account;
pub mod auth;
pub mod csrf;
pub mod markdown;
pub mod messages;
pub mod models;
pub mod session;
pub mod store;
pub mod util;
