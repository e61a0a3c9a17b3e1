//! Clipboard history core: a capture-dedup-enrich-persist pipeline.
//!
//! Raw clipboard snapshots are classified (file list, image, link, text),
//! fingerprinted with a content hash, deduplicated against the most recent
//! capture, enriched best-effort (link metadata, OCR text), and appended to a
//! searchable history store.

pub mod hash;
pub mod history;
pub mod link_metadata;
pub mod images;
pub mod path;
pub mod schema;
pub mod text;
pub mod types;
pub mod watcher;
