//! Live status of coding sessions: the server that tracks them and the
//! terminal plugin that lists them.

pub mod clock;
pub mod config;
pub mod event;
pub mod headers;
pub mod json;
pub mod plugin;
pub mod registry;
pub mod server;
pub mod server_laws;
pub mod text;
