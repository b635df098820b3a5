//! Transcription pipeline for a voice channel: per-user audio buffers,
//! the decisions about when to transcribe and what to publish, and the
//! bookkeeping of who is speaking.
pub mod time;
pub mod api;
pub mod model;
pub mod audio;
pub mod strategies;
pub mod scrivening;
pub mod songbird_client;
pub mod events;
pub mod packet_handler;
