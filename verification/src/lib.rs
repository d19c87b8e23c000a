//! Extraction of railway geometry from regional map extracts.
//!
//! The crate holds the decisions and the data of the pipeline: which ways of
//! a primitive stream are kept and which nodes they need, when a local copy of
//! a remote extract is current, when a cached region is reused, and how a
//! region is laid out in its cache entry. Reading files and talking to the
//! network is left to the caller, which hands plain values in and takes plain
//! values back.

pub mod cache;
pub mod digest;
pub mod extract;
pub mod extractor;
pub mod fetch;
pub mod layout;
pub mod manifest;
pub mod maxspeed;
pub mod model;
pub mod pipeline;
pub mod predicate;
pub mod rail;
pub mod tags;
pub mod text;
pub mod wire;

pub use cache::{load_or_build, RegionCache};
pub use extract::extract;
pub use layout::Config;
pub use maxspeed::parse_maxspeed;
pub use model::Region;
