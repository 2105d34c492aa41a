//! RTMP chunk streams (RTMP 5.3): headers, the packetizer that splits
//! messages into chunks and the unpacketizer that joins them again.
pub mod define;
pub mod errors;
pub mod packetizer;
pub mod unpacketizer;
pub mod roundtrip;

use vstd::prelude::*;

verus! {

/// The basic header (5.3.1.1): chunk type and chunk stream id.
#[derive(Debug, Clone, Copy, PartialEq, Eq)]
pub struct ChunkBasicHeader {
    pub format: u8,
    pub chunk_stream_id: u32,
}

impl ChunkBasicHeader {
    pub fn new(fmt: u8, csid: u32) -> (h: ChunkBasicHeader)
        ensures
            h.format == fmt,
            h.chunk_stream_id == csid,
    {
        ChunkBasicHeader { format: fmt, chunk_stream_id: csid }
    }
}

/// Where the extended timestamp of the latest type 0, 1 or 2 chunk came
/// from (5.3.1.3).
#[derive(Debug, Clone, Copy, PartialEq, Eq)]
pub enum ExtendTimestampType {
    /// There is no extended timestamp.
    NONE,
    /// The extended timestamp field is read in a type 0 chunk.
    FORMAT0,
    /// The extended timestamp field is read in a type 1 or 2 chunk.
    FORMAT12,
}

/// The message header (5.3.1.2). `timestamp` is absolute; `timestamp_delta`
/// is the delta of the latest type 1 or 2 chunk, which type 3 chunks
/// inherit.
#[derive(Debug, Clone, Copy, PartialEq, Eq)]
pub struct ChunkMessageHeader {
    pub timestamp: u32,
    pub msg_length: u32,
    pub msg_type_id: u8,
    pub msg_streamd_id: u32,
    pub timestamp_delta: u32,
    pub extended_timestamp_type: ExtendTimestampType,
}

impl ChunkMessageHeader {
    pub fn new(timestamp: u32, msg_length: u32, msg_type_id: u8, msg_stream_id: u32) -> (h: Self)
        ensures
            h == (ChunkMessageHeader {
                timestamp,
                msg_length,
                msg_type_id,
                msg_streamd_id: msg_stream_id,
                timestamp_delta: 0,
                extended_timestamp_type: ExtendTimestampType::NONE,
            }),
    {
        Self {
            timestamp,
            msg_length,
            msg_type_id,
            msg_streamd_id: msg_stream_id,
            timestamp_delta: 0,
            extended_timestamp_type: ExtendTimestampType::NONE,
        }
    }
}

/// Both headers of a chunk, as remembered per chunk stream.
#[derive(Debug, Clone, Copy, PartialEq, Eq)]
pub struct ChunkHeader {
    pub basic_header: ChunkBasicHeader,
    pub message_header: ChunkMessageHeader,
}

/// The all-zero header.
pub open spec fn zero_chunk_header() -> ChunkHeader {
    ChunkHeader {
        basic_header: ChunkBasicHeader { format: 0, chunk_stream_id: 0 },
        message_header: ChunkMessageHeader {
            timestamp: 0,
            msg_length: 0,
            msg_type_id: 0,
            msg_streamd_id: 0,
            timestamp_delta: 0,
            extended_timestamp_type: ExtendTimestampType::NONE,
        },
    }
}

impl ChunkHeader {
    pub fn new() -> (h: ChunkHeader)
        ensures
            h == zero_chunk_header(),
    {
        ChunkHeader {
            basic_header: ChunkBasicHeader::new(0, 0),
            message_header: ChunkMessageHeader::new(0, 0, 0, 0),
        }
    }
}

impl Default for ChunkHeader {
    fn default() -> (h: Self)
        ensures
            h == zero_chunk_header(),
    {
        Self::new()
    }
}

/// A whole message as it travels in chunks: headers and payload.
#[derive(Debug, Clone, PartialEq, Eq)]
pub struct ChunkInfo {
    pub basic_header: ChunkBasicHeader,
    pub message_header: ChunkMessageHeader,
    pub payload: Vec<u8>,
}

/// Mathematical model of a `ChunkInfo`.
pub struct ChunkInfoModel {
    pub basic_header: ChunkBasicHeader,
    pub message_header: ChunkMessageHeader,
    pub payload: Seq<u8>,
}

impl View for ChunkInfo {
    type V = ChunkInfoModel;

    open spec fn view(&self) -> ChunkInfoModel {
        ChunkInfoModel {
            basic_header: self.basic_header,
            message_header: self.message_header,
            payload: self.payload@,
        }
    }
}

impl ChunkInfo {
    pub fn new(
        csid: u32,
        format: u8,
        timestamp: u32,
        msg_length: u32,
        msg_type_id: u8,
        msg_stream_id: u32,
        payload: Vec<u8>,
    ) -> (c: Self)
        ensures
            c.basic_header == (ChunkBasicHeader { format, chunk_stream_id: csid }),
            c.message_header == (ChunkMessageHeader {
                timestamp,
                msg_length,
                msg_type_id,
                msg_streamd_id: msg_stream_id,
                timestamp_delta: 0,
                extended_timestamp_type: ExtendTimestampType::NONE,
            }),
            c.payload@ == payload@,
    {
        Self {
            basic_header: ChunkBasicHeader::new(format, csid),
            message_header: ChunkMessageHeader::new(timestamp, msg_length, msg_type_id, msg_stream_id),
            payload,
        }
    }
}

impl Default for ChunkInfo {
    fn default() -> (c: Self)
        ensures
            c.basic_header == zero_chunk_header().basic_header,
            c.message_header == zero_chunk_header().message_header,
            c.payload@ == Seq::<u8>::empty(),
    {
        Self::new(0, 0, 0, 0, 0, 0, Vec::new())
    }
}

} // verus!
