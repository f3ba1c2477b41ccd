//! Retrieval-augmented question answering over a directory of Markdown
//! documents: an incremental indexer, similarity scoring, a query pipeline
//! with a degradation ladder, a single-flight job manager and the
//! classification of upstream failures.

pub mod chunker;
pub mod config;
pub mod error_code;
pub mod feedback;
mod ids;
pub mod indexer;
pub mod provider;
pub mod query;
pub mod rag;
pub mod reindex;
pub mod status;
pub mod text;
pub mod vector_store;
pub mod windows;
