//! Extraction of embedded raster images from documents: pool sizing, a shared
//! set of content fingerprints, collision-free output names and the decisions
//! of the page, document and batch levels.

pub mod batch;
pub mod decimal;
pub mod dedup;
pub mod document;
pub mod extract;
pub mod naming;
pub mod paths;
pub mod seek;
pub mod thread_tag;
pub mod workers;
