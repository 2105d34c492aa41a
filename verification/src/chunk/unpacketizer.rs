//! Joining chunks back into messages (RTMP 5.3.1). The reader is a state
//! machine that can stop at any byte and go on when more bytes arrive; its
//! steps are given here as spec functions over `UnpackerModel`, and each
//! executable step is proved to do exactly what its spec function says.
use vstd::prelude::*;
use std::collections::HashMap;
use crate::bytes_io::{BytesReader, BytesReadError, be24, be32, le32};
use crate::chunk::{
    ChunkBasicHeader, ChunkHeader, ChunkInfo, ChunkInfoModel, ChunkMessageHeader,
    ExtendTimestampType, zero_chunk_header,
};
use crate::chunk::define::{INIT_CHUNK_SIZE, SET_CHUNK_SIZE};
use crate::chunk::errors::{UnpackError, UnpackErrorValue};

verus! {

broadcast use vstd::std_specs::hash::group_hash_axioms;

/// What one step, or one whole read, hands back.
#[derive(Debug, Clone, PartialEq, Eq)]
pub enum UnpackResult {
    ChunkBasicHeaderResult(ChunkBasicHeader),
    ChunkMessageHeaderResult(ChunkMessageHeader),
    ChunkInfo(ChunkInfo),
    Chunks(Vec<ChunkInfo>),
    Success,
    NotEnoughBytes,
    Empty,
}

/// Mathematical model of an `UnpackResult`.
pub enum UnpackResultModel {
    ChunkBasicHeaderResult(ChunkBasicHeader),
    ChunkMessageHeaderResult(ChunkMessageHeader),
    ChunkInfo(ChunkInfoModel),
    Chunks(Seq<ChunkInfoModel>),
    Success,
    NotEnoughBytes,
    Empty,
}

impl View for UnpackResult {
    type V = UnpackResultModel;

    open spec fn view(&self) -> UnpackResultModel {
        match self {
            UnpackResult::ChunkBasicHeaderResult(h) => UnpackResultModel::ChunkBasicHeaderResult(*h),
            UnpackResult::ChunkMessageHeaderResult(h) => UnpackResultModel::ChunkMessageHeaderResult(
                *h,
            ),
            UnpackResult::ChunkInfo(c) => UnpackResultModel::ChunkInfo(c@),
            UnpackResult::Chunks(cs) => UnpackResultModel::Chunks(
                cs@.map_values(|c: ChunkInfo| c@),
            ),
            UnpackResult::Success => UnpackResultModel::Success,
            UnpackResult::NotEnoughBytes => UnpackResultModel::NotEnoughBytes,
            UnpackResult::Empty => UnpackResultModel::Empty,
        }
    }
}

pub open spec fn result_view(r: Result<UnpackResult, UnpackError>) -> Result<
    UnpackResultModel,
    UnpackError,
> {
    match r {
        Ok(v) => Ok(v@),
        Err(e) => Err(e),
    }
}

/// Which part of a chunk the reader expects next.
#[derive(Debug, Clone, Copy, PartialEq, Eq)]
pub enum ChunkReadState {
    ReadBasicHeader,
    ReadMessageHeader,
    ReadExtendedTimestamp,
    ReadMessagePayload,
    Finish,
}

/// Which field of a type 0 or type 1 message header the reader expects
/// next.
#[derive(Debug, Clone, Copy, PartialEq, Eq)]
pub enum MessageHeaderReadState {
    ReadTimeStamp,
    ReadMsgLength,
    ReadMsgTypeID,
    ReadMsgStreamID,
}

/// Mathematical model of a `ChunkUnpacketizer`.
pub struct UnpackerModel {
    /// Bytes received and not read yet.
    pub buf: Seq<u8>,
    /// Headers of the chunk being read and the payload gathered so far.
    pub info: ChunkInfoModel,
    /// The latest complete headers of each chunk stream.
    pub headers: Map<u32, ChunkHeader>,
    pub state: ChunkReadState,
    pub mh_state: MessageHeaderReadState,
    pub max_chunk_size: usize,
}

pub type UnpackStep = (UnpackerModel, Result<UnpackResultModel, UnpackError>);

/// The error of a read that ran out of bytes.
pub open spec fn read_failed() -> UnpackError {
    UnpackError { value: UnpackErrorValue::BytesReadError(BytesReadError::NotEnoughBytes) }
}

pub open spec fn with_message_header(m: UnpackerModel, mh: ChunkMessageHeader) -> UnpackerModel {
    UnpackerModel { info: ChunkInfoModel { message_header: mh, ..m.info }, ..m }
}

pub open spec fn rest_from(s: Seq<u8>, n: int) -> Seq<u8> {
    s.subrange(n, s.len() as int)
}

/// Timestamps are counted modulo 2^32.
pub open spec fn wrap32(x: int) -> u32 {
    (x % 0x1_0000_0000) as u32
}

// ---------------------------------------------------------------------
// Basic header (5.3.1.1)
// ---------------------------------------------------------------------
/// The basic header names chunk stream `csid`: load the headers remembered
/// for it when it differs from the current one, then take its id and type.
pub open spec fn enter_chunk_stream(
    m: UnpackerModel,
    buf: Seq<u8>,
    fmt: u8,
    csid: u32,
) -> UnpackStep {
    let loaded = if csid != m.info.basic_header.chunk_stream_id && m.headers.contains_key(csid) {
        ChunkInfoModel {
            basic_header: m.headers[csid].basic_header,
            message_header: m.headers[csid].message_header,
            payload: m.info.payload,
        }
    } else {
        m.info
    };
    let bh = ChunkBasicHeader { format: fmt, chunk_stream_id: csid };
    (
        UnpackerModel {
            buf,
            info: ChunkInfoModel { basic_header: bh, ..loaded },
            state: ChunkReadState::ReadMessageHeader,
            ..m
        },
        Ok(UnpackResultModel::ChunkBasicHeaderResult(bh)),
    )
}

/// One, two or three bytes: type in the top two bits, then the id; ids 0
/// and 1 in the low six bits announce a one or two byte id counted from
/// 64, the second byte being the high one.
pub open spec fn step_basic_header(m: UnpackerModel) -> UnpackStep {
    if m.buf.len() < 1 {
        (m, Err(read_failed()))
    } else {
        let byte = m.buf[0];
        let rest = rest_from(m.buf, 1);
        let fmt = (byte / 64) as u8;
        let low = byte % 64;
        if low == 0 {
            if rest.len() < 1 {
                (UnpackerModel { buf: rest, ..m }, Ok(UnpackResultModel::NotEnoughBytes))
            } else {
                enter_chunk_stream(m, rest_from(rest, 1), fmt, (64 + rest[0]) as u32)
            }
        } else if low == 1 {
            if rest.len() < 1 {
                (UnpackerModel { buf: rest, ..m }, Ok(UnpackResultModel::NotEnoughBytes))
            } else if rest.len() < 2 {
                (UnpackerModel { buf: rest_from(rest, 1), ..m }, Err(read_failed()))
            } else {
                enter_chunk_stream(
                    m,
                    rest_from(rest, 2),
                    fmt,
                    (64 + rest[0] + rest[1] * 256) as u32,
                )
            }
        } else {
            enter_chunk_stream(m, rest, fmt, low as u32)
        }
    }
}



// ---------------------------------------------------------------------
// Message header (5.3.1.2)
// ---------------------------------------------------------------------
pub open spec fn fields_left(s: MessageHeaderReadState) -> nat {
    match s {
        MessageHeaderReadState::ReadTimeStamp => 4,
        MessageHeaderReadState::ReadMsgLength => 3,
        MessageHeaderReadState::ReadMsgTypeID => 2,
        MessageHeaderReadState::ReadMsgStreamID => 1,
    }
}

/// The fields of a type 0 header, from the one the reader stopped at:
/// timestamp (3 bytes, big-endian), message length (3), type id (1) and
/// message stream id (4, little-endian). A field that is short of bytes
/// stops the read; the fields before it stay read.
pub open spec fn read_type0_fields(m: UnpackerModel) -> (UnpackerModel, Result<(), UnpackError>)
    decreases fields_left(m.mh_state),
{
    let b = m.buf;
    let mh = m.info.message_header;
    match m.mh_state {
        MessageHeaderReadState::ReadTimeStamp => if b.len() < 3 {
            (m, Err(read_failed()))
        } else {
            read_type0_fields(
                UnpackerModel {
                    buf: rest_from(b, 3),
                    mh_state: MessageHeaderReadState::ReadMsgLength,
                    ..with_message_header(
                        m,
                        ChunkMessageHeader { timestamp: be24(b[0], b[1], b[2]) as u32, ..mh },
                    )
                },
            )
        },
        MessageHeaderReadState::ReadMsgLength => if b.len() < 3 {
            (m, Err(read_failed()))
        } else {
            read_type0_fields(
                UnpackerModel {
                    buf: rest_from(b, 3),
                    mh_state: MessageHeaderReadState::ReadMsgTypeID,
                    ..with_message_header(
                        m,
                        ChunkMessageHeader { msg_length: be24(b[0], b[1], b[2]) as u32, ..mh },
                    )
                },
            )
        },
        MessageHeaderReadState::ReadMsgTypeID => if b.len() < 1 {
            (m, Err(read_failed()))
        } else {
            read_type0_fields(
                UnpackerModel {
                    buf: rest_from(b, 1),
                    mh_state: MessageHeaderReadState::ReadMsgStreamID,
                    ..with_message_header(m, ChunkMessageHeader { msg_type_id: b[0], ..mh })
                },
            )
        },
        MessageHeaderReadState::ReadMsgStreamID => if b.len() < 4 {
            (m, Err(read_failed()))
        } else {
            (
                UnpackerModel {
                    buf: rest_from(b, 4),
                    mh_state: MessageHeaderReadState::ReadTimeStamp,
                    ..with_message_header(
                        m,
                        ChunkMessageHeader {
                            msg_streamd_id: le32(b[0], b[1], b[2], b[3]) as u32,
                            ..mh
                        },
                    )
                },
                Ok(()),
            )
        },
    }
}

/// The fields of a type 1 header: timestamp delta (3 bytes), message
/// length (3) and type id (1). Met in the message stream id position,
/// which only a type 0 header has, the read stops there and succeeds.
pub open spec fn read_type1_fields(m: UnpackerModel) -> (UnpackerModel, Result<(), UnpackError>)
    decreases fields_left(m.mh_state),
{
    let b = m.buf;
    let mh = m.info.message_header;
    match m.mh_state {
        MessageHeaderReadState::ReadTimeStamp => if b.len() < 3 {
            (m, Err(read_failed()))
        } else {
            read_type1_fields(
                UnpackerModel {
                    buf: rest_from(b, 3),
                    mh_state: MessageHeaderReadState::ReadMsgLength,
                    ..with_message_header(
                        m,
                        ChunkMessageHeader { timestamp_delta: be24(b[0], b[1], b[2]) as u32, ..mh },
                    )
                },
            )
        },
        MessageHeaderReadState::ReadMsgLength => if b.len() < 3 {
            (m, Err(read_failed()))
        } else {
            read_type1_fields(
                UnpackerModel {
                    buf: rest_from(b, 3),
                    mh_state: MessageHeaderReadState::ReadMsgTypeID,
                    ..with_message_header(
                        m,
                        ChunkMessageHeader { msg_length: be24(b[0], b[1], b[2]) as u32, ..mh },
                    )
                },
            )
        },
        MessageHeaderReadState::ReadMsgTypeID => if b.len() < 1 {
            (m, Err(read_failed()))
        } else {
            (
                UnpackerModel {
                    buf: rest_from(b, 1),
                    mh_state: MessageHeaderReadState::ReadTimeStamp,
                    ..with_message_header(m, ChunkMessageHeader { msg_type_id: b[0], ..mh })
                },
                Ok(()),
            )
        },
        MessageHeaderReadState::ReadMsgStreamID => (m, Ok(())),
    }
}

/// The extended timestamp follows when the 3-byte field is saturated.
pub open spec fn extended_kind(v: u32, kind: ExtendTimestampType) -> ExtendTimestampType {
    if v >= 0xFFFFFF {
        kind
    } else {
        ExtendTimestampType::NONE
    }
}

/// Reads the message header that the chunk type calls for: type 0 resets
/// the timestamp delta, types 0, 1 and 2 say whether an extended timestamp
/// follows, type 3 has no message header.
pub open spec fn step_message_header(m: UnpackerModel) -> UnpackStep {
    let fmt = m.info.basic_header.format;
    if fmt == 0 {
        let (m1, r) = read_type0_fields(m);
        if r is Err {
            (m1, Err(r->Err_0))
        } else {
            let mh = m1.info.message_header;
            (
                UnpackerModel {
                    state: ChunkReadState::ReadExtendedTimestamp,
                    ..with_message_header(
                        m1,
                        ChunkMessageHeader {
                            timestamp_delta: 0,
                            extended_timestamp_type: extended_kind(
                                mh.timestamp,
                                ExtendTimestampType::FORMAT0,
                            ),
                            ..mh
                        },
                    )
                },
                Ok(UnpackResultModel::Success),
            )
        }
    } else if fmt == 1 {
        let (m1, r) = read_type1_fields(m);
        if r is Err {
            (m1, Err(r->Err_0))
        } else {
            let mh = m1.info.message_header;
            (
                UnpackerModel {
                    state: ChunkReadState::ReadExtendedTimestamp,
                    ..with_message_header(
                        m1,
                        ChunkMessageHeader {
                            extended_timestamp_type: extended_kind(
                                mh.timestamp_delta,
                                ExtendTimestampType::FORMAT12,
                            ),
                            ..mh
                        },
                    )
                },
                Ok(UnpackResultModel::Success),
            )
        }
    } else if fmt == 2 {
        let b = m.buf;
        if b.len() < 3 {
            (m, Err(read_failed()))
        } else {
            let delta = be24(b[0], b[1], b[2]) as u32;
            (
                UnpackerModel {
                    buf: rest_from(b, 3),
                    state: ChunkReadState::ReadExtendedTimestamp,
                    ..with_message_header(
                        m,
                        ChunkMessageHeader {
                            timestamp_delta: delta,
                            extended_timestamp_type: extended_kind(
                                delta,
                                ExtendTimestampType::FORMAT12,
                            ),
                            ..m.info.message_header
                        },
                    )
                },
                Ok(UnpackResultModel::Success),
            )
        }
    } else {
        (
            UnpackerModel { state: ChunkReadState::ReadExtendedTimestamp, ..m },
            Ok(UnpackResultModel::Success),
        )
    }
}

// ---------------------------------------------------------------------
// Extended timestamp (5.3.1.3) and payload
// ---------------------------------------------------------------------
/// When the latest type 0, 1 or 2 header saturated its timestamp field,
/// four big-endian bytes follow: for type 0 they are the timestamp, for
/// types 1 and 2 they stand in for the saturated delta. Without them,
/// types 1 and 2 add the delta to the timestamp.
pub open spec fn step_extended_timestamp(m: UnpackerModel) -> UnpackStep {
    let mh = m.info.message_header;
    let ext = mh.extended_timestamp_type != ExtendTimestampType::NONE;
    let b = m.buf;
    if ext && b.len() < 4 {
        (m, Err(read_failed()))
    } else {
        let value: u32 = if ext {
            be32(b[0], b[1], b[2], b[3]) as u32
        } else {
            0
        };
        let fmt = m.info.basic_header.format;
        let ts: u32 = if fmt == 0 {
            if ext {
                value
            } else {
                mh.timestamp
            }
        } else if fmt == 1 || fmt == 2 {
            if ext {
                wrap32(mh.timestamp + value)
            } else {
                wrap32(mh.timestamp + mh.timestamp_delta)
            }
        } else {
            mh.timestamp
        };
        (
            UnpackerModel {
                buf: if ext {
                    rest_from(b, 4)
                } else {
                    b
                },
                state: ChunkReadState::ReadMessagePayload,
                ..with_message_header(m, ChunkMessageHeader { timestamp: ts, ..mh })
            },
            Ok(UnpackResultModel::Success),
        )
    }
}

/// How many payload bytes the current chunk carries: what the message
/// still lacks (counted modulo the machine word, as the subtraction
/// wraps), at most one chunk's worth when the message spans chunks.
pub open spec fn payload_need(m: UnpackerModel) -> int {
    let whole = m.info.message_header.msg_length as int;
    let remaining = vstd::wrapping::usize_specs::wrapping_sub(
        whole as usize,
        m.info.payload.len() as usize,
    ) as int;
    if whole > m.max_chunk_size {
        if remaining < m.max_chunk_size {
            remaining
        } else {
            m.max_chunk_size as int
        }
    } else {
        remaining
    }
}

/// Reads the chunk's payload. Once the message is whole it is handed
/// out, its headers are remembered for its chunk stream and the payload
/// buffer is emptied; otherwise the next chunk is awaited.
pub open spec fn step_payload(m: UnpackerModel) -> UnpackStep {
    let whole = m.info.message_header.msg_length as int;
    let need = payload_need(m);
    if need > m.buf.len() {
        (m, Err(read_failed()))
    } else {
        let payload = m.info.payload + m.buf.subrange(0, need);
        let buf = rest_from(m.buf, need);
        if payload.len() == whole {
            let csid = m.info.basic_header.chunk_stream_id;
            (
                UnpackerModel {
                    buf,
                    info: ChunkInfoModel { payload: Seq::empty(), ..m.info },
                    headers: m.headers.insert(
                        csid,
                        ChunkHeader {
                            basic_header: m.info.basic_header,
                            message_header: m.info.message_header,
                        },
                    ),
                    state: ChunkReadState::Finish,
                    ..m
                },
                Ok(UnpackResultModel::ChunkInfo(ChunkInfoModel { payload, ..m.info })),
            )
        } else {
            (
                UnpackerModel {
                    buf,
                    info: ChunkInfoModel { payload, ..m.info },
                    state: ChunkReadState::ReadBasicHeader,
                    ..m
                },
                Ok(UnpackResultModel::Success),
            )
        }
    }
}

// ---------------------------------------------------------------------
// Whole chunks and messages
// ---------------------------------------------------------------------
pub open spec fn step(m: UnpackerModel) -> UnpackStep {
    match m.state {
        ChunkReadState::ReadBasicHeader => step_basic_header(m),
        ChunkReadState::ReadMessageHeader => step_message_header(m),
        ChunkReadState::ReadExtendedTimestamp => step_extended_timestamp(m),
        ChunkReadState::ReadMessagePayload => step_payload(m),
        ChunkReadState::Finish => (m, Ok(UnpackResultModel::Empty)),
    }
}

pub open spec fn state_rank(s: ChunkReadState) -> int {
    match s {
        ChunkReadState::ReadBasicHeader => 0,
        ChunkReadState::ReadMessageHeader => 3,
        ChunkReadState::ReadExtendedTimestamp => 2,
        ChunkReadState::ReadMessagePayload => 1,
        ChunkReadState::Finish => 0,
    }
}

/// Falls at every successful step: a basic header takes at least one
/// byte, the other steps move forward in the chunk.
pub open spec fn progress(m: UnpackerModel) -> int {
    4 * m.buf.len() + state_rank(m.state)
}

pub proof fn lemma_type0_fields(m: UnpackerModel)
    ensures
        read_type0_fields(m).0.buf.len() <= m.buf.len(),
        read_type0_fields(m).0.state == m.state,
    decreases fields_left(m.mh_state),
{
    let b = m.buf;
    let mh = m.info.message_header;
    match m.mh_state {
        MessageHeaderReadState::ReadTimeStamp => if b.len() >= 3 {
            lemma_type0_fields(
                UnpackerModel {
                    buf: rest_from(b, 3),
                    mh_state: MessageHeaderReadState::ReadMsgLength,
                    ..with_message_header(
                        m,
                        ChunkMessageHeader { timestamp: be24(b[0], b[1], b[2]) as u32, ..mh },
                    )
                },
            );
        },
        MessageHeaderReadState::ReadMsgLength => if b.len() >= 3 {
            lemma_type0_fields(
                UnpackerModel {
                    buf: rest_from(b, 3),
                    mh_state: MessageHeaderReadState::ReadMsgTypeID,
                    ..with_message_header(
                        m,
                        ChunkMessageHeader { msg_length: be24(b[0], b[1], b[2]) as u32, ..mh },
                    )
                },
            );
        },
        MessageHeaderReadState::ReadMsgTypeID => if b.len() >= 1 {
            lemma_type0_fields(
                UnpackerModel {
                    buf: rest_from(b, 1),
                    mh_state: MessageHeaderReadState::ReadMsgStreamID,
                    ..with_message_header(m, ChunkMessageHeader { msg_type_id: b[0], ..mh })
                },
            );
        },
        MessageHeaderReadState::ReadMsgStreamID => {},
    }
}

pub proof fn lemma_type1_fields(m: UnpackerModel)
    ensures
        read_type1_fields(m).0.buf.len() <= m.buf.len(),
        read_type1_fields(m).0.state == m.state,
    decreases fields_left(m.mh_state),
{
    let b = m.buf;
    let mh = m.info.message_header;
    match m.mh_state {
        MessageHeaderReadState::ReadTimeStamp => if b.len() >= 3 {
            lemma_type1_fields(
                UnpackerModel {
                    buf: rest_from(b, 3),
                    mh_state: MessageHeaderReadState::ReadMsgLength,
                    ..with_message_header(
                        m,
                        ChunkMessageHeader { timestamp_delta: be24(b[0], b[1], b[2]) as u32, ..mh },
                    )
                },
            );
        },
        MessageHeaderReadState::ReadMsgLength => if b.len() >= 3 {
            lemma_type1_fields(
                UnpackerModel {
                    buf: rest_from(b, 3),
                    mh_state: MessageHeaderReadState::ReadMsgTypeID,
                    ..with_message_header(
                        m,
                        ChunkMessageHeader { msg_length: be24(b[0], b[1], b[2]) as u32, ..mh },
                    )
                },
            );
        },
        _ => {},
    }
}

/// Every step keeps or shrinks the unread bytes, and a successful step
/// that is not the last of a chunk lowers `progress`.
pub proof fn lemma_step_progress(m: UnpackerModel)
    ensures
        step(m).0.buf.len() <= m.buf.len(),
        m.state != ChunkReadState::Finish && step(m).1 is Ok ==> progress(step(m).0) < progress(m),
        step(m).1 is Ok && m.state == ChunkReadState::ReadBasicHeader ==> step(m).0.buf.len()
            < m.buf.len(),
{
    lemma_type0_fields(m);
    lemma_type1_fields(m);
}

/// Steps until a chunk that completes a message has been read, or a
/// step fails; the result is that of the last step.
pub open spec fn run_chunk(m: UnpackerModel, last: UnpackResultModel) -> UnpackStep
    decreases progress(m),
{
    if m.state == ChunkReadState::Finish {
        (UnpackerModel { state: ChunkReadState::ReadBasicHeader, ..m }, Ok(last))
    } else {
        let (m1, r) = step(m);
        match r {
            Err(e) => (m1, Err(e)),
            Ok(res) => {
                proof {
                    lemma_step_progress(m);
                }
                run_chunk(m1, res)
            },
        }
    }
}

/// Runs `read_chunk` until a read fails or a message that changes the
/// chunk size has been read, gathering the messages read on the way.
pub open spec fn read_all_chunks(m: UnpackerModel, acc: Seq<ChunkInfoModel>) -> (
    UnpackerModel,
    Seq<ChunkInfoModel>,
)
    decreases chunks_progress(m),
{
    let (m1, r) = run_chunk(m, UnpackResultModel::Empty);
    proof {
        lemma_run_chunk(m, UnpackResultModel::Empty);
    }
    match r {
        Err(_) => (m1, acc),
        Ok(UnpackResultModel::ChunkInfo(c)) => if c.message_header.msg_type_id == SET_CHUNK_SIZE {
            (m1, acc.push(c))
        } else {
            read_all_chunks(m1, acc.push(c))
        },
        Ok(_) => read_all_chunks(m1, acc),
    }
}

/// Falls with every successful `read_chunk`.
pub open spec fn chunks_progress(m: UnpackerModel) -> int {
    2 * m.buf.len() + if m.state == ChunkReadState::ReadBasicHeader {
        0int
    } else {
        1int
    }
}

pub proof fn lemma_run_chunk(m: UnpackerModel, last: UnpackResultModel)
    ensures
        run_chunk(m, last).0.buf.len() <= m.buf.len(),
        run_chunk(m, last).1 is Ok ==> run_chunk(m, last).0.state
            == ChunkReadState::ReadBasicHeader,
        run_chunk(m, last).1 is Ok && m.state == ChunkReadState::ReadBasicHeader ==> run_chunk(
            m,
            last,
        ).0.buf.len() < m.buf.len(),
    decreases progress(m),
{
    if m.state != ChunkReadState::Finish {
        lemma_step_progress(m);
        let (m1, r) = step(m);
        if r is Ok {
            lemma_run_chunk(m1, r->Ok_0);
        }
    }
}

pub open spec fn chunks_view(cs: Seq<ChunkInfo>) -> Seq<ChunkInfoModel> {
    cs.map_values(|c: ChunkInfo| c@)
}

/// The timestamp of a type 1 or 2 chunk: the previous one plus the delta,
/// wrapped to 32 bits.
proof fn lemma_wrapping_timestamp(ts: u32, v: u32)
    ensures
        vstd::wrapping::u32_specs::wrapping_add(ts, v) == wrap32(ts + v),
{
}

/// A fresh reader: nothing received, all-zero current headers, no
/// remembered chunk streams, the initial chunk size.
pub open spec fn initial_unpacker() -> UnpackerModel {
    UnpackerModel {
        buf: Seq::empty(),
        info: ChunkInfoModel {
            basic_header: zero_chunk_header().basic_header,
            message_header: zero_chunk_header().message_header,
            payload: Seq::empty(),
        },
        headers: Map::empty(),
        state: ChunkReadState::ReadBasicHeader,
        mh_state: MessageHeaderReadState::ReadTimeStamp,
        max_chunk_size: INIT_CHUNK_SIZE as usize,
    }
}

/// Reads RTMP chunks from a byte stream and joins them into messages.
pub struct ChunkUnpacketizer {
    pub reader: BytesReader,
    pub current_chunk_info: ChunkInfo,
    chunk_headers: HashMap<u32, ChunkHeader>,
    chunk_read_state: ChunkReadState,
    msg_header_read_state: MessageHeaderReadState,
    max_chunk_size: usize,
    pub session_type: u8,
}

impl View for ChunkUnpacketizer {
    type V = UnpackerModel;

    closed spec fn view(&self) -> UnpackerModel {
        UnpackerModel {
            buf: self.reader@,
            info: self.current_chunk_info@,
            headers: self.chunk_headers@,
            state: self.chunk_read_state,
            mh_state: self.msg_header_read_state,
            max_chunk_size: self.max_chunk_size,
        }
    }
}

fn read_error(e: BytesReadError) -> (r: UnpackError)
    ensures
        r == (UnpackError { value: UnpackErrorValue::BytesReadError(e) }),
{
    UnpackError { value: UnpackErrorValue::BytesReadError(e) }
}

impl ChunkUnpacketizer {
    pub fn new() -> (u: Self)
        ensures
            u@ == initial_unpacker(),
    {
        let u = Self {
            reader: BytesReader::new(Vec::new()),
            current_chunk_info: ChunkInfo::default(),
            chunk_headers: HashMap::new(),
            chunk_read_state: ChunkReadState::ReadBasicHeader,
            msg_header_read_state: MessageHeaderReadState::ReadTimeStamp,
            max_chunk_size: INIT_CHUNK_SIZE as usize,
            session_type: 0,
        };
        assert(u@.info =~= initial_unpacker().info);
        u
    }

    /// Appends received bytes behind those not read yet.
    pub fn extend_data(&mut self, data: &[u8])
        ensures
            final(self)@ == (UnpackerModel { buf: old(self)@.buf + data@, ..old(self)@ }),
    {
        self.reader.extend_from_slice(data);
    }

    pub fn update_max_chunk_size(&mut self, chunk_size: usize)
        ensures
            final(self)@ == (UnpackerModel { max_chunk_size: chunk_size, ..old(self)@ }),
    {
        self.max_chunk_size = chunk_size;
    }

    pub fn read_basic_header(&mut self) -> (r: Result<UnpackResult, UnpackError>)
        ensures
            final(self)@ == step_basic_header(old(self)@).0,
            result_view(r) == step_basic_header(old(self)@).1,
    {
        let ghost m0 = self@;
        let byte = match self.reader.read_u8() {
            Ok(b) => b,
            Err(e) => return Err(read_error(e)),
        };
        let format_id: u8 = byte / 64;
        let low: u8 = byte % 64;
        let mut csid: u32 = low as u32;
        if low == 0 {
            if self.reader.len() < 1 {
                return Ok(UnpackResult::NotEnoughBytes);
            }
            let b1 = match self.reader.read_u8() {
                Ok(b) => b,
                Err(e) => return Err(read_error(e)),
            };
            csid = 64 + b1 as u32;
        } else if low == 1 {
            if self.reader.len() < 1 {
                return Ok(UnpackResult::NotEnoughBytes);
            }
            let b1 = match self.reader.read_u8() {
                Ok(b) => b,
                Err(e) => return Err(read_error(e)),
            };
            let b2 = match self.reader.read_u8() {
                Ok(b) => b,
                Err(e) => {
                    proof {
                        assert(rest_from(rest_from(m0.buf, 1), 1) =~= self.reader@);
                    }
                    return Err(read_error(e));
                },
            };
            csid = 64 + b1 as u32 + b2 as u32 * 256;
        }
        proof {
            let rest = rest_from(m0.buf, 1);
            if low == 0 {
                assert(rest_from(rest, 1) =~= self.reader@);
            } else if low == 1 {
                assert(rest_from(rest, 2) =~= self.reader@);
            }
        }
        if csid != self.current_chunk_info.basic_header.chunk_stream_id {
            match self.chunk_headers.get(&csid) {
                Some(h) => {
                    self.current_chunk_info.basic_header = h.basic_header;
                    self.current_chunk_info.message_header = h.message_header;
                },
                None => {},
            }
        }
        self.current_chunk_info.basic_header.chunk_stream_id = csid;
        self.current_chunk_info.basic_header.format = format_id;
        self.chunk_read_state = ChunkReadState::ReadMessageHeader;
        Ok(UnpackResult::ChunkBasicHeaderResult(ChunkBasicHeader::new(format_id, csid)))
    }
    fn read_type0_header(&mut self) -> (r: Result<(), UnpackError>)
        ensures
            final(self)@ == read_type0_fields(old(self)@).0,
            r == read_type0_fields(old(self)@).1,
    {
        loop
            invariant
                read_type0_fields(self@) == read_type0_fields(old(self)@),
            decreases fields_left(self.msg_header_read_state),
        {
            match self.msg_header_read_state {
                MessageHeaderReadState::ReadTimeStamp => {
                    match self.reader.read_u24_be() {
                        Ok(v) => {
                            self.current_chunk_info.message_header.timestamp = v;
                            self.msg_header_read_state = MessageHeaderReadState::ReadMsgLength;
                        },
                        Err(e) => return Err(read_error(e)),
                    }
                },
                MessageHeaderReadState::ReadMsgLength => {
                    match self.reader.read_u24_be() {
                        Ok(v) => {
                            self.current_chunk_info.message_header.msg_length = v;
                            self.msg_header_read_state = MessageHeaderReadState::ReadMsgTypeID;
                        },
                        Err(e) => return Err(read_error(e)),
                    }
                },
                MessageHeaderReadState::ReadMsgTypeID => {
                    match self.reader.read_u8() {
                        Ok(v) => {
                            self.current_chunk_info.message_header.msg_type_id = v;
                            self.msg_header_read_state = MessageHeaderReadState::ReadMsgStreamID;
                        },
                        Err(e) => return Err(read_error(e)),
                    }
                },
                MessageHeaderReadState::ReadMsgStreamID => {
                    match self.reader.read_u32_le() {
                        Ok(v) => {
                            self.current_chunk_info.message_header.msg_streamd_id = v;
                            self.msg_header_read_state = MessageHeaderReadState::ReadTimeStamp;
                            return Ok(());
                        },
                        Err(e) => return Err(read_error(e)),
                    }
                },
            }
        }
    }

    fn read_type1_header(&mut self) -> (r: Result<(), UnpackError>)
        ensures
            final(self)@ == read_type1_fields(old(self)@).0,
            r == read_type1_fields(old(self)@).1,
    {
        loop
            invariant
                read_type1_fields(self@) == read_type1_fields(old(self)@),
            decreases fields_left(self.msg_header_read_state),
        {
            match self.msg_header_read_state {
                MessageHeaderReadState::ReadTimeStamp => {
                    match self.reader.read_u24_be() {
                        Ok(v) => {
                            self.current_chunk_info.message_header.timestamp_delta = v;
                            self.msg_header_read_state = MessageHeaderReadState::ReadMsgLength;
                        },
                        Err(e) => return Err(read_error(e)),
                    }
                },
                MessageHeaderReadState::ReadMsgLength => {
                    match self.reader.read_u24_be() {
                        Ok(v) => {
                            self.current_chunk_info.message_header.msg_length = v;
                            self.msg_header_read_state = MessageHeaderReadState::ReadMsgTypeID;
                        },
                        Err(e) => return Err(read_error(e)),
                    }
                },
                MessageHeaderReadState::ReadMsgTypeID => {
                    match self.reader.read_u8() {
                        Ok(v) => {
                            self.current_chunk_info.message_header.msg_type_id = v;
                            self.msg_header_read_state = MessageHeaderReadState::ReadTimeStamp;
                            return Ok(());
                        },
                        Err(e) => return Err(read_error(e)),
                    }
                },
                MessageHeaderReadState::ReadMsgStreamID => {
                    return Ok(());
                },
            }
        }
    }

    pub fn read_message_header(&mut self) -> (r: Result<UnpackResult, UnpackError>)
        ensures
            final(self)@ == step_message_header(old(self)@).0,
            result_view(r) == step_message_header(old(self)@).1,
    {
        let fmt = self.current_chunk_info.basic_header.format;
        if fmt == 0 {
            match self.read_type0_header() {
                Ok(()) => {},
                Err(e) => return Err(e),
            }
            self.current_chunk_info.message_header.timestamp_delta = 0;
            self.current_chunk_info.message_header.extended_timestamp_type =
                if self.current_chunk_info.message_header.timestamp >= 0xFFFFFF {
                ExtendTimestampType::FORMAT0
            } else {
                ExtendTimestampType::NONE
            };
        } else if fmt == 1 {
            match self.read_type1_header() {
                Ok(()) => {},
                Err(e) => return Err(e),
            }
            self.current_chunk_info.message_header.extended_timestamp_type =
                if self.current_chunk_info.message_header.timestamp_delta >= 0xFFFFFF {
                ExtendTimestampType::FORMAT12
            } else {
                ExtendTimestampType::NONE
            };
        } else if fmt == 2 {
            match self.reader.read_u24_be() {
                Ok(delta) => {
                    self.current_chunk_info.message_header.timestamp_delta = delta;
                    self.current_chunk_info.message_header.extended_timestamp_type =
                        if delta >= 0xFFFFFF {
                        ExtendTimestampType::FORMAT12
                    } else {
                        ExtendTimestampType::NONE
                    };
                },
                Err(e) => return Err(read_error(e)),
            }
        }
        self.chunk_read_state = ChunkReadState::ReadExtendedTimestamp;
        Ok(UnpackResult::Success)
    }
    pub fn read_extended_timestamp(&mut self) -> (r: Result<UnpackResult, UnpackError>)
        ensures
            final(self)@ == step_extended_timestamp(old(self)@).0,
            result_view(r) == step_extended_timestamp(old(self)@).1,
    {
        let ext = match self.current_chunk_info.message_header.extended_timestamp_type {
            ExtendTimestampType::NONE => false,
            _ => true,
        };
        let mut value: u32 = 0;
        if ext {
            match self.reader.read_u32_be() {
                Ok(v) => {
                    value = v;
                },
                Err(e) => return Err(read_error(e)),
            }
        }
        let fmt = self.current_chunk_info.basic_header.format;
        let ts = self.current_chunk_info.message_header.timestamp;
        let delta = self.current_chunk_info.message_header.timestamp_delta;
        proof {
            lemma_wrapping_timestamp(ts, value);
            lemma_wrapping_timestamp(ts, delta);
        }
        if fmt == 0 {
            if ext {
                self.current_chunk_info.message_header.timestamp = value;
            }
        } else if fmt == 1 || fmt == 2 {
            if ext {
                self.current_chunk_info.message_header.timestamp = ts.wrapping_add(value);
            } else {
                self.current_chunk_info.message_header.timestamp = ts.wrapping_add(delta);
            }
        }
        self.chunk_read_state = ChunkReadState::ReadMessagePayload;
        Ok(UnpackResult::Success)
    }

    pub fn read_message_payload(&mut self) -> (r: Result<UnpackResult, UnpackError>)
        ensures
            final(self)@ == step_payload(old(self)@).0,
            result_view(r) == step_payload(old(self)@).1,
    {
        let ghost m0 = self@;
        let whole_msg_length = self.current_chunk_info.message_header.msg_length as usize;
        let remaining_bytes = whole_msg_length.wrapping_sub(self.current_chunk_info.payload.len());
        let mut need_read_length = remaining_bytes;
        if whole_msg_length > self.max_chunk_size {
            need_read_length =
                if remaining_bytes < self.max_chunk_size {
                remaining_bytes
            } else {
                self.max_chunk_size
            };
        }
        assert(need_read_length == payload_need(m0));
        let mut payload_data = match self.reader.read_bytes(need_read_length) {
            Ok(d) => d,
            Err(e) => return Err(read_error(e)),
        };
        self.current_chunk_info.payload.append(&mut payload_data);
        if self.current_chunk_info.payload.len() == whole_msg_length {
            self.chunk_read_state = ChunkReadState::Finish;
            let mut payload: Vec<u8> = Vec::new();
            std::mem::swap(&mut payload, &mut self.current_chunk_info.payload);
            let chunk_info = ChunkInfo {
                basic_header: self.current_chunk_info.basic_header,
                message_header: self.current_chunk_info.message_header,
                payload,
            };
            let csid = self.current_chunk_info.basic_header.chunk_stream_id;
            self.chunk_headers.insert(
                csid,
                ChunkHeader {
                    basic_header: self.current_chunk_info.basic_header,
                    message_header: self.current_chunk_info.message_header,
                },
            );
            return Ok(UnpackResult::ChunkInfo(chunk_info));
        }
        self.chunk_read_state = ChunkReadState::ReadBasicHeader;
        Ok(UnpackResult::Success)
    }

    fn read_step(&mut self) -> (r: Result<UnpackResult, UnpackError>)
        ensures
            final(self)@ == step(old(self)@).0,
            result_view(r) == step(old(self)@).1,
    {
        match self.chunk_read_state {
            ChunkReadState::ReadBasicHeader => self.read_basic_header(),
            ChunkReadState::ReadMessageHeader => self.read_message_header(),
            ChunkReadState::ReadExtendedTimestamp => self.read_extended_timestamp(),
            ChunkReadState::ReadMessagePayload => self.read_message_payload(),
            ChunkReadState::Finish => Ok(UnpackResult::Empty),
        }
    }

    /// Reads one chunk (5.3.1): steps through basic header, message
    /// header, extended timestamp and payload until a message is whole.
    /// A failed step returns its error; the reader then stays where it
    /// stopped, to go on when more bytes have arrived.
    pub fn read_chunk(&mut self) -> (r: Result<UnpackResult, UnpackError>)
        ensures
            final(self)@ == run_chunk(old(self)@, UnpackResultModel::Empty).0,
            result_view(r) == run_chunk(old(self)@, UnpackResultModel::Empty).1,
    {
        let mut result = UnpackResult::Empty;
        loop
            invariant
                run_chunk(self@, result@) == run_chunk(old(self)@, UnpackResultModel::Empty),
            decreases progress(self@),
        {
            match self.chunk_read_state {
                ChunkReadState::Finish => {
                    self.chunk_read_state = ChunkReadState::ReadBasicHeader;
                    return Ok(result);
                },
                _ => {},
            }
            let ghost before = self@;
            match self.read_step() {
                Ok(v) => {
                    proof {
                        lemma_step_progress(before);
                    }
                    result = v;
                },
                Err(e) => return Err(e),
            }
        }
    }

    /// Reads chunks until a read fails or a message changes the chunk
    /// size (the caller has to apply it before reading on). Fails with
    /// `EmptyChunks` when no message was read.
    pub fn read_chunks(&mut self) -> (r: Result<UnpackResult, UnpackError>)
        ensures
            final(self)@ == read_all_chunks(old(self)@, Seq::empty()).0,
            read_all_chunks(old(self)@, Seq::empty()).1.len() > 0 ==> result_view(r) == Ok::<
                UnpackResultModel,
                UnpackError,
            >(UnpackResultModel::Chunks(read_all_chunks(old(self)@, Seq::empty()).1)),
            read_all_chunks(old(self)@, Seq::empty()).1.len() == 0 ==> r == Err::<
                UnpackResult,
                UnpackError,
            >(UnpackError { value: UnpackErrorValue::EmptyChunks }),
    {
        let mut chunks: Vec<ChunkInfo> = Vec::new();
        assert(chunks_view(chunks@) =~= Seq::<ChunkInfoModel>::empty());
        loop
            invariant_except_break
                read_all_chunks(self@, chunks_view(chunks@)) == read_all_chunks(
                    old(self)@,
                    Seq::empty(),
                ),
            ensures
                self@ == read_all_chunks(old(self)@, Seq::empty()).0,
                chunks_view(chunks@) == read_all_chunks(old(self)@, Seq::empty()).1,
            decreases chunks_progress(self@),
        {
            let ghost before = self@;
            let ghost acc = chunks_view(chunks@);
            proof {
                lemma_run_chunk(before, UnpackResultModel::Empty);
            }
            match self.read_chunk() {
                Ok(UnpackResult::ChunkInfo(c)) => {
                    let msg_type_id = c.message_header.msg_type_id;
                    chunks.push(c);
                    assert(chunks_view(chunks@) =~= acc.push(c@));
                    if msg_type_id == SET_CHUNK_SIZE {
                        break;
                    }
                },
                Ok(_) => {},
                Err(_) => break,
            }
        }
        if chunks.len() > 0 {
            Ok(UnpackResult::Chunks(chunks))
        } else {
            Err(UnpackError { value: UnpackErrorValue::EmptyChunks })
        }
    }
}

} // verus!
