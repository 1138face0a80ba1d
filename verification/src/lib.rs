//! A self-hosted chat: protocol, server rules and terminal client.

pub mod accounts;
pub mod app;
pub mod bindings;
pub mod calls;
pub mod client;
pub mod codec;
pub mod config;
pub mod dashboard;
pub mod db;
pub mod exchange;
pub mod id;
pub mod keys;
pub mod login;
pub mod markdown;
pub mod messages;
pub mod opening;
pub mod outcomes;
pub mod passwords;
pub mod protocol;
pub mod readings;
pub mod replies;
pub mod rooms;
pub mod routes;
pub mod server_config;
pub mod session;
pub mod shown;
pub mod style;
pub mod text;
pub mod time;
pub mod ui;
