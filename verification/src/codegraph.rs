//! The code graph: languages, symbol/edge extraction from source, and the
//! extractors for each supported language.

pub mod extractor;
pub mod extractors;
pub mod indexer;
pub mod language;
pub mod paths;
pub mod query_runner;
