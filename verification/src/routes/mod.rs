//! Routes that are fetched from the control plane at startup.

pub mod bootstrap;
pub mod document;

pub use bootstrap::fetch_routes_defs;
pub use document::{AppRoutes, RouteEntry, RoutesDocument};
