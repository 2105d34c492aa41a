//! HLS: the request paths of the HLS server, the playlist and its
//! segments, and where the remuxer cuts segments.
pub mod path;
pub mod request;
pub mod m3u8;
pub mod events;
pub mod remuxer;
pub mod media;
