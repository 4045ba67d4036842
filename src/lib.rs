//! Model registries, token batch building and output layout for text
//! embedding and cross-encoder reranking backends.

pub mod batch;
pub mod encoder;
pub mod error;
pub mod names;
pub mod output;
pub mod project;
pub mod registry;
pub mod rerank_registry;
