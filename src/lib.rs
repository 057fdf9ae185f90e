//! A Matrix homeserver core: bearer credentials, rooms and membership.

pub mod api;
pub mod auth;
pub mod config;
pub mod error;
mod ids;
pub mod macaroon;
pub mod membership;
pub mod password;
pub mod room;
pub mod server;
pub mod token;
