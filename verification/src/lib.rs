pub mod db;
pub mod extractor;
pub mod graph_export;
pub mod handle;
pub mod hierarchy;
pub mod pipeline;
pub mod sequences;
pub mod text;

pub use pipeline::run_extractors;
pub use pipeline::Pipeline;
