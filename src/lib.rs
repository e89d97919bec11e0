//! Batched HTML persistence with a verified sanitizer pipeline.
//!
//! The library holds the logic: the sanitizer stages (literal, regex and
//! selector-based rewrites), the pipeline that chains them, the batching
//! worker's decisions (when to flush and what each flush holds), and what
//! each flush writes under which key. Running the worker, the queue and the
//! storage backends is left to the caller's runtime.

pub mod config;
pub mod error;
pub mod flush;
pub mod sanitizer;
pub mod saveable;
pub mod text;
pub mod worker;

pub use config::{HtmlSaverBuilder, SaverConfig};
pub use error::{HtmlSaverError, Result};
pub use flush::{compose_key, prepare_upload, prepare_uploads, Upload, CONTENT_TYPE};
pub use sanitizer::{
    RegexSanitizer, Sanitizer, SanitizerPipeline, SanitizerStage, SelectorAction,
    SelectorSanitizer, SubstringSanitizer,
};
pub use saveable::Saveable;
pub use worker::{BatchWorker, WorkerEvent, WorkerState};
