//! A live-streaming ingest and fanout core: the RTMP per-connection state
//! machine, the per-application fanout channels with their republish policy,
//! and the keyframe-driven HLS segmenter with its rolling playlist.
pub mod auth;
pub mod channel;
pub mod codec;
pub mod config;
pub mod decimal;
pub mod media;
pub mod metadata;
pub mod playlist;
pub mod protocol;
pub mod reaper;
pub mod segmenter;
pub mod session;
pub mod stream;
pub mod transport;
