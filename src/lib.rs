//! Answers a query from web sources: sources found by search are scraped,
//! cut into chunks, embedded and indexed, and the chunks nearest to the query
//! are handed on with their sources for citation.
pub mod args;
pub mod chunking;
pub mod citation;
pub mod index;
pub mod laws;
pub mod pipeline;
pub mod search;
pub mod store;
pub mod text;
