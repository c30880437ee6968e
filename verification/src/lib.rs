//! Resumable, bounded-concurrency acquisition of a book made of volumes and
//! chapters: the data model, the scheduler that drives chapter fetches, the
//! reconciliation of incomplete chapters, and the store of relayed assets.

pub mod assets;
pub mod browser;
pub mod codec;
pub mod config;
pub mod download;
pub mod epub;
pub mod extract;
pub mod fetcher;
pub mod http;
pub mod input;
pub mod markup;
pub mod multipart;
pub mod orchestrator;
pub mod patterns;
pub mod progress;
pub mod reconcile;
pub mod relay;
pub mod selection;
pub mod server;
pub mod source;
pub mod text;
pub mod tool;
pub mod volume;
