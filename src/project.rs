//! Per-project settings.
use vstd::prelude::*;

verus! {

/// Settings of one indexed project.
#[derive(Debug, Clone)]
pub struct ProjectConfig {
    pub model: String,
    pub chunk_size: usize,
    pub chunk_overlap: usize,
    pub index_backend: String,
}

impl Default for ProjectConfig {
    /// The default embedding alias with 512-token chunks overlapping by 128.
    fn default() -> (r: ProjectConfig)
        ensures
            r.model@ == "bge-small"@,
            r.chunk_size == 512,
            r.chunk_overlap == 128,
            r.index_backend@ == "hnsw"@,
    {
        ProjectConfig {
            model: String::from_str("bge-small"),
            chunk_size: 512,
            chunk_overlap: 128,
            index_backend: String::from_str("hnsw"),
        }
    }
}

} // verus!
