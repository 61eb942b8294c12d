//! A staged translation pipeline that turns prose into an interactive document of
//! swappable, register-graded phrasings: segmentation, prompts, provider requests and
//! responses, resilient extraction of model output, document assembly, and the
//! per-job state machine between provider calls.

pub mod audio;
pub mod document;
pub mod extract;
pub mod json;
pub mod pipeline;
pub mod plan;
pub mod prompts;
pub mod provider;
pub mod segmenter;
pub mod text;
pub mod types;
