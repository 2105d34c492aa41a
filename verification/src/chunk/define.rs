//! Chunk stream constants.
use vstd::prelude::*;

verus! {

/// The chunk size both ends start with.
pub const INIT_CHUNK_SIZE: u32 = 128;

/// The chunk size this server announces.
pub const CHUNK_SIZE: u32 = 4096;

/// Message type ids (RTMP 5.4, 7.1).
pub const SET_CHUNK_SIZE: u8 = 1;
pub const ABORT: u8 = 2;
pub const ACKNOWLEDGEMENT: u8 = 3;
pub const USER_CONTROL_EVENT: u8 = 4;
pub const WIN_ACKNOWLEDGEMENT_SIZE: u8 = 5;
pub const SET_PEER_BANDWIDTH: u8 = 6;
pub const AUDIO: u8 = 8;
pub const VIDEO: u8 = 9;
pub const DATA_AMF3: u8 = 15;
pub const COMMAND_AMF3: u8 = 17;
pub const DATA_AMF0: u8 = 18;
pub const COMMAND_AMF0: u8 = 20;
pub const AGGREGATE: u8 = 22;

/// Chunk types (the fmt field of the basic header).
pub const TYPE_0: u8 = 0;
pub const TYPE_1: u8 = 1;
pub const TYPE_2: u8 = 2;
pub const TYPE_3: u8 = 3;

/// Chunk stream ids used by the sessions.
pub const CSID_PROTOCOL_CONTROL: u32 = 2;
pub const CSID_COMMAND_AMF0_AMF3: u32 = 3;
pub const CSID_AUDIO: u32 = 4;
pub const CSID_VIDEO: u32 = 6;
pub const CSID_DATA_AMF0_AMF3: u32 = 5;

} // verus!
