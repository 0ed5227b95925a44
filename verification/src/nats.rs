//! The bus side of the dashboard: messages and the client adapter's protocol.

pub mod client;
pub mod message;
