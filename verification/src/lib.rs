//! Gerrit review notifications for Webex Teams users: the bot's state,
//! command language, notification routing and rate limiting.

pub mod text;
pub mod flags;
pub mod pattern;
pub mod user;
pub mod state;
pub mod command;
pub mod gerrit_events;
pub mod rate_limit;
pub mod bot;
pub mod spark;
pub mod sqs;
pub mod ssh;
pub mod config;
pub mod version;
pub mod gerrit;
pub mod spark_bot;
pub mod session;
pub mod laws;
