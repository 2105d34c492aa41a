//! The RTMP handshake (5.2): the plain exchange of C0/C1/C2 and S0/S1/S2,
//! and the digest variant in which C1 and S1 carry an HMAC-SHA256.
pub mod define;
pub mod errors;
pub mod digest;
pub mod utils;
pub mod server;
pub mod client;
