//! A comic strip aggregator: strips from several providers, normalised into
//! one record and served through a cache.

pub mod cache;
pub mod calendar;
pub mod chance;
pub mod config;
pub mod error;
pub mod harvest;
pub mod http_client;
pub mod markup;
pub mod models;
pub mod pattern;
pub mod recommend;
pub mod routes;
pub mod sources;
pub mod table;
pub mod text;

use crate::config::PanelsConfig;
use crate::models::Comic;
use crate::sources::SourceRegistry;
use crate::table::KeyedTable;
use vstd::prelude::*;

verus! {

/// The tags of each series, by endpoint.
pub type TagTable = KeyedTable<Vec<String>>;

/// What the service holds while it runs.
pub struct AppState {
    pub config: PanelsConfig,
    pub comics: Vec<Comic>,
    pub tags: TagTable,
    pub sources: SourceRegistry,
}

} // verus!
