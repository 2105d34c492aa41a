//! HTTP-FLV: a player's stream as an FLV file (FLV 1.0): the header, once
//! the kinds of media are known, then one tag per frame.
pub mod muxer;
pub mod session;
pub mod path;
