//! Decisions and renderings behind the HTTP routes.

pub mod admin;
pub mod auth;
pub mod chats;
pub mod federation;
pub mod guilds;
pub mod misc;
pub mod modules;
pub mod oidc;
pub mod uploads;
pub mod users;
pub mod webhooks;
