//! A link-sharing back end: saved hyperlinks with owners, click counters and
//! optional previews, kept in a verified in-memory link store, with the
//! ownership guard and the request decisions of the lifecycle coordinator.
mod model;
mod outside;
pub mod lifecycle;
pub mod queries;
pub mod routes;
pub mod store;

pub use model::{copy_preview, Link, LinkPreview, SimpleUser};
pub use store::{LinkRow, LinkStore, UserRow, UserStatus};
