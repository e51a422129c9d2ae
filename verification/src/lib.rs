//! Core of a local music player: library indexing and ranged media streaming.
//!
//! The indexer keeps a snapshot of tracks, albums and artists in step with
//! the audio files on disk (`library`, `reconcile`, with `ident`, `paths`,
//! `metadata`, `covers` and `scan` beneath them, and `invariants` for what a
//! pass guarantees). The streamer plans the response to a request for a local
//! file, whole or by byte ranges (`stream`, `roundtrip`). Reading directories,
//! tags and files is the caller's part: the functions here take and return
//! plain values.

pub mod covers;
pub mod ident;
pub mod invariants;
pub mod library;
pub mod metadata;
pub mod paths;
pub mod presence;
pub mod reconcile;
pub mod roundtrip;
pub mod scan;
pub mod stream;
pub mod text;
pub mod tools;
