//! Website analytics core: pagination, URL and referrer normalisation,
//! city/session/event registries and the aggregations read from them.

pub mod agent;
pub mod api_response;
pub mod config;
pub mod geo;
pub mod ids;
pub mod models;
pub mod pagination;
pub mod ranking;
pub mod routes;
pub mod store;
pub mod summary;
pub mod tally;
pub mod text;
pub mod urls;

pub use pagination::{DEFAULT_PAGE, DEFAULT_PER_PAGE, MAX_PER_PAGE};
