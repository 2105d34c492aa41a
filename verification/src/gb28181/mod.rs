//! The GB28181 front end: the registry of receiving sessions, the dump
//! file framing of a session, and the answers of the HTTP control API.
//! The UDP sockets, the files and the HTTP server are run by the caller.
pub mod errors;
pub mod session;
pub mod server;
pub mod api_service;
