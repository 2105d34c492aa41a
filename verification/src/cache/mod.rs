//! What a stream keeps for late subscribers: the metadata, the audio and
//! video sequence headers and the latest GOPs.
pub mod frame;
pub mod gop;
pub mod metadata;
pub mod flv_tag;
pub mod cache;
