//! Verified core of a candidate-profile search service.
//!
//! The library turns loosely-typed request parameters into a structured
//! boolean query against a full-text index, enforces visibility rules,
//! applies negative company filters, ranks and post-processes hits, and
//! defines the index's field mapping and analyzer configuration.  The
//! query tree, its evaluation semantics, the ranking policy and the hit
//! post-processing are all verified; talking to a real search engine
//! (network I/O) is left to the surrounding application.

pub mod entity;
pub mod laws;
pub mod order;
pub mod params;
pub mod query;
pub mod ranking;
pub mod results;
pub mod schema;
pub mod store;
pub mod text;
mod time;

pub use entity::Talent;
pub use params::Params;
pub use query::QueryNode;
pub use results::Hit;
pub use store::SearchPlan;
pub use store::TalentIndex;
