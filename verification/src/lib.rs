//! Retrieval pipeline for videos served behind an encrypted HLS-like
//! transport: manifest decryption, metadata extraction, quality selection,
//! segment decryption, bounded-concurrency scheduling and a wall-clock window.
pub mod errors;
pub mod bytes;
pub mod cipher;
pub mod manifest;
pub mod metadata;
pub mod sched;
pub mod segment;
pub mod timer;
pub mod video;
