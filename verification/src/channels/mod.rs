//! The channels: which streams are published, and what each stream's
//! transmitter hands its subscribers.
pub mod define;
pub mod manager;
pub mod transmitter;
