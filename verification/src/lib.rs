//! Verified core of a PDF summarizer: text extraction clean-up, chunking,
//! prompt construction, token bookkeeping, model-cache paths, model-directory
//! validation and human-readable size formatting.

pub mod cli;
pub mod error;
pub mod json;
pub mod llm;
pub mod model_manager;
pub mod paths;
pub mod pdf;
pub mod pipeline;
pub mod numfmt;
pub mod output;
pub mod text;
pub mod tokenizer;
