//! Dictionary resolution engine: discovers per-language dictionary stores on
//! disk, resolves a surface word to a canonical entry through a multi-stage
//! fallback search, and aggregates corpus statistics and prefix suggestions.

pub mod api;
pub mod clock;
pub mod details;
pub mod engine;
pub mod floating;
pub mod normalize;
pub mod registry;
pub mod resolve;
pub mod sqlite;
pub mod stats;
pub mod store;
pub mod suggest;
pub mod text;
