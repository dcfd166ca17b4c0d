//! Live change detection: events routed to repos by path and coalesced per repo.

pub mod coalesce;
pub mod ignored;
pub mod route;
