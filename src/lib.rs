//! Live-reloading Markdown viewer: the verified core.
//!
//! The library holds the link-resolution rule used while rendering, the
//! request-path rules of the HTTP routes, the publish/subscribe hub that fans
//! change signals out to connected viewers, the decisions of each push
//! connection, the filter that decides which filesystem changes are worth a
//! reload, and the fixed configuration of a viewing session.

pub mod links;
pub mod render;
pub mod routes;
pub mod hub;
pub mod connection;
pub mod watch;
pub mod session;
