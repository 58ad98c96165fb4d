//! Coordination logic for a video-transcription pipeline.
//!
//! Videos are uploaded under a canonical key convention
//! (`week<digits>/lesson<digits>/video<digits>.mp4`), transcribed in
//! batches, and deleted once their transcripts are confirmed stored.
//! This crate holds the pure, verified core of that pipeline: the key
//! convention itself, the derivations between video and transcript
//! keys, the processed/failed bookkeeping every stage performs, and
//! the stage-transition decisions. Storage and workflow I/O live
//! outside, handing this crate plain values.

pub mod cleanup;
pub mod keys;
pub mod listener;
pub mod report;
pub mod text;
pub mod uploader;
