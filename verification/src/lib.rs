//! Verified core of a webhook receiver service: signature checking, header
//! and cookie handling, webhook-type detection, registration and login
//! decisions, configuration defaults and the shaping of API responses.
//!
//! Everything that talks to the network, the database or the clock through
//! an async runtime lives outside this crate; it hands this crate plain
//! values and performs the actions that this crate decides on.
pub mod status;
pub mod text;
pub mod headers;
pub mod json;
pub mod signature;
pub mod detect;
pub mod models;
pub mod auth;
pub mod session;
pub mod secret;
pub mod webhooks;
pub mod events;
pub mod config;
pub mod pages;
