//! Verified core of a live media server: the RTMP byte codecs (AMF0,
//! chunk streams, handshake digests), the GOP cache, the HLS playlist
//! model and the request-path rules of the HTTP front ends.
pub mod bytes_io;
pub mod amf0;
pub mod wrappers;
pub mod text;
pub mod chunk;
pub mod handshake;
pub mod cache;
pub mod hls;
pub mod channels;
pub mod httpflv;
pub mod gb28181;
