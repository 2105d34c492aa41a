//! What the unpacketizer reads back of what the packetizer wrote.
use vstd::prelude::*;
use crate::bytes_io::{
    be24_bytes, le32_bytes, lemma_be24_roundtrip,
    lemma_be32_roundtrip, lemma_le32_roundtrip,
};
use crate::chunk::{ChunkBasicHeader, ChunkInfoModel, ChunkMessageHeader, ExtendTimestampType};
use crate::chunk::packetizer::{
    PacketizerModel, basic_header_bytes, chunk_bytes, extended_timestamp_bytes,
    message_header_bytes, payload_pieces, timestamp_field, zip_header,
};
use crate::chunk::unpacketizer::{
    ChunkReadState, MessageHeaderReadState, UnpackResultModel, UnpackerModel, enter_chunk_stream,
    extended_kind, read_type0_fields, rest_from, run_chunk, step, step_basic_header,
    payload_need,
};

verus! {

/// A basic header written for a chunk stream id the format can carry
/// reads back as that id and chunk type.
pub proof fn lemma_basic_header_roundtrip(m: UnpackerModel, fmt: u8, csid: u32, tail: Seq<u8>)
    requires
        fmt < 4,
        2 <= csid <= 65599,
        m.buf == basic_header_bytes(fmt, csid) + tail,
    ensures
        step_basic_header(m) == enter_chunk_stream(m, tail, fmt, csid),
{
    let b = basic_header_bytes(fmt, csid);
    let top = (fmt % 4) * 64;
    assert(fmt % 4 == fmt);
    let rest = rest_from(m.buf, 1);
    if csid >= 64 + 255 {
        let v = (csid - 64) % 0x10000;
        assert(v == csid - 64);
        assert(m.buf[0] == (top + 1) as u8);
        assert((top + 1) / 64 == fmt) by (nonlinear_arith)
            requires
                top == fmt * 64,
                fmt < 4,
        ;
        assert((top + 1) % 64 == 1) by (nonlinear_arith)
            requires
                top == fmt * 64,
                fmt < 4,
        ;
        assert(rest[0] == (v % 256) as u8);
        assert(rest[1] == (v / 256) as u8);
        assert(64 + (v % 256) + (v / 256) * 256 == csid);
        assert(rest_from(rest, 2) =~= tail);
    } else if csid >= 64 {
        assert(m.buf[0] == top as u8);
        assert(top / 64 == fmt && top % 64 == 0) by (nonlinear_arith)
            requires
                top == fmt * 64,
                fmt < 4,
        ;
        assert(rest[0] == (csid - 64) as u8);
        assert(rest_from(rest, 1) =~= tail);
    } else {
        assert(m.buf[0] == (top + csid) as u8);
        assert((top + csid) / 64 == fmt && (top + csid) % 64 == csid) by (nonlinear_arith)
            requires
                top == fmt * 64,
                fmt < 4,
                csid < 64,
        ;
        assert(rest =~= tail);
    }
}

/// Law (chunk codec): a basic header the packetizer writes
/// (`ChunkPacketizer::write_basic_header` appends `basic_header_bytes`), for any chunk
/// type and any chunk stream id from 2 to 65599, is read back as that type
/// and id, and the reader is left at the bytes that follow it (nothing,
/// when nothing follows).
pub proof fn lemma_basic_header_reads_back(m: UnpackerModel, fmt: u8, csid: u32, tail: Seq<u8>)
    requires
        fmt < 4,
        2 <= csid <= 65599,
        m.buf == basic_header_bytes(fmt, csid) + tail,
    ensures
        step_basic_header(m).1 == Ok::<UnpackResultModel, crate::chunk::errors::UnpackError>(
            UnpackResultModel::ChunkBasicHeaderResult(
                ChunkBasicHeader { format: fmt, chunk_stream_id: csid },
            ),
        ),
        step_basic_header(m).0.buf == tail,
        step_basic_header(m).0.info.basic_header == (ChunkBasicHeader {
            format: fmt,
            chunk_stream_id: csid,
        }),
{
    lemma_basic_header_roundtrip(m, fmt, csid, tail);
}

/// The bytes a type 3 continuation chunk repeats after its basic header:
/// four when an extended timestamp is in force.
pub open spec fn continuation_extra_ok(kind: ExtendTimestampType, extra: Seq<u8>) -> bool {
    if kind != ExtendTimestampType::NONE {
        extra.len() == 4
    } else {
        extra.len() == 0
    }
}

/// A type 3 continuation chunk's headers, on the chunk stream being read,
/// lead straight back to the payload state with nothing changed but the
/// chunk type.
pub proof fn lemma_continuation_headers(
    m: UnpackerModel,
    last: UnpackResultModel,
    extra: Seq<u8>,
    tail: Seq<u8>,
)
    requires
        m.state == ChunkReadState::ReadBasicHeader,
        2 <= m.info.basic_header.chunk_stream_id <= 65599,
        continuation_extra_ok(m.info.message_header.extended_timestamp_type, extra),
        m.buf == basic_header_bytes(3, m.info.basic_header.chunk_stream_id) + extra + tail,
    ensures
        run_chunk(m, last) == run_chunk(
            UnpackerModel {
                buf: tail,
                info: ChunkInfoModel {
                    basic_header: ChunkBasicHeader {
                        format: 3,
                        chunk_stream_id: m.info.basic_header.chunk_stream_id,
                    },
                    ..m.info
                },
                state: ChunkReadState::ReadMessagePayload,
                ..m
            },
            UnpackResultModel::Success,
        ),
{
    let csid = m.info.basic_header.chunk_stream_id;
    assert(m.buf =~= basic_header_bytes(3, csid) + (extra + tail));
    lemma_basic_header_roundtrip(m, 3, csid, extra + tail);
    let (m2, r2) = step(m);
    assert(m2.info.basic_header == ChunkBasicHeader { format: 3, chunk_stream_id: csid });
    assert(m2.info.message_header == m.info.message_header);
    assert(m2.info.payload == m.info.payload);
    assert(run_chunk(m, last) == run_chunk(m2, r2->Ok_0));
    let (m3, r3) = step(m2);
    assert(run_chunk(m2, r2->Ok_0) == run_chunk(m3, r3->Ok_0));
    let (m4, r4) = step(m3);
    if m.info.message_header.extended_timestamp_type != ExtendTimestampType::NONE {
        assert(rest_from(m3.buf, 4) =~= tail);
    } else {
        assert(m3.buf =~= tail);
    }
    assert(m4.info =~= ChunkInfoModel {
        basic_header: ChunkBasicHeader { format: 3, chunk_stream_id: csid },
        ..m.info
    });
    assert(run_chunk(m3, r3->Ok_0) == run_chunk(m4, r4->Ok_0));
}

/// The payload step when what is missing fits in one chunk: the message
/// is complete.
pub proof fn lemma_last_piece(m: UnpackerModel, last: UnpackResultModel, p: Seq<u8>, k: int, rest: Seq<u8>)
    requires
        m.state == ChunkReadState::ReadMessagePayload,
        0 <= k <= p.len(),
        p.len() - k <= m.max_chunk_size,
        m.info.payload == p.take(k),
        m.info.message_header.msg_length == p.len(),
        m.buf == p.skip(k) + rest,
    ensures
        run_chunk(m, last).0.buf == rest,
        run_chunk(m, last).0.state == ChunkReadState::ReadBasicHeader,
        run_chunk(m, last).1 == Ok::<UnpackResultModel, crate::chunk::errors::UnpackError>(
            UnpackResultModel::ChunkInfo(ChunkInfoModel { payload: p, ..m.info }),
        ),
{
    let whole = p.len();
    assert(m.info.payload.len() == k);
    assert(vstd::wrapping::usize_specs::wrapping_sub(whole as usize, k as usize) == whole - k);
    assert(payload_need(m) == whole - k);
    assert(m.buf.subrange(0, whole - k) =~= p.skip(k));
    assert(p.take(k) + p.skip(k) =~= p);
    assert(rest_from(m.buf, whole - k) =~= rest);
    let (m1, r1) = step(m);
    assert(m1.state == ChunkReadState::Finish);
    assert(run_chunk(m, last) == run_chunk(m1, r1->Ok_0));
}

/// The payload step when more than one chunk's worth is missing: one
/// chunk's worth is gathered and the next chunk awaited.
pub proof fn lemma_inner_piece(m: UnpackerModel, last: UnpackResultModel, p: Seq<u8>, k: int, tail: Seq<u8>)
    requires
        m.state == ChunkReadState::ReadMessagePayload,
        0 <= k,
        p.len() - k > m.max_chunk_size,
        m.info.payload == p.take(k),
        m.info.message_header.msg_length == p.len(),
        m.buf == p.skip(k).take(m.max_chunk_size as int) + tail,
    ensures
        run_chunk(m, last) == run_chunk(
            UnpackerModel {
                buf: tail,
                info: ChunkInfoModel { payload: p.take(k + m.max_chunk_size), ..m.info },
                state: ChunkReadState::ReadBasicHeader,
                ..m
            },
            UnpackResultModel::Success,
        ),
{
    let max = m.max_chunk_size;
    let whole = p.len();
    assert(m.info.payload.len() == k);
    assert(vstd::wrapping::usize_specs::wrapping_sub(whole as usize, k as usize) == whole - k);
    assert(payload_need(m) == max);
    assert(m.buf.subrange(0, max as int) =~= p.skip(k).take(max as int));
    assert(p.take(k) + p.skip(k).take(max as int) =~= p.take(k + max));
    assert(rest_from(m.buf, max as int) =~= tail);
    let (m1, r1) = step(m);
    assert(run_chunk(m, last) == run_chunk(m1, r1->Ok_0));
}

/// From the payload state, with `k` payload bytes gathered, the rest of
/// the payload pieces are read up to the end of the message.
pub proof fn lemma_payload_pieces_roundtrip(
    m: UnpackerModel,
    last: UnpackResultModel,
    p: Seq<u8>,
    k: int,
    extra: Seq<u8>,
    rest: Seq<u8>,
)
    requires
        m.state == ChunkReadState::ReadMessagePayload,
        0 <= k <= p.len(),
        m.info.payload == p.take(k),
        m.info.message_header.msg_length == p.len(),
        m.max_chunk_size > 0,
        2 <= m.info.basic_header.chunk_stream_id <= 65599,
        continuation_extra_ok(m.info.message_header.extended_timestamp_type, extra),
        m.buf == payload_pieces(
            p.skip(k),
            m.max_chunk_size as nat,
            basic_header_bytes(3, m.info.basic_header.chunk_stream_id) + extra,
        ) + rest,
    ensures
        run_chunk(m, last).0.buf == rest,
        run_chunk(m, last).0.state == ChunkReadState::ReadBasicHeader,
        run_chunk(m, last).1 == Ok::<UnpackResultModel, crate::chunk::errors::UnpackError>(
            UnpackResultModel::ChunkInfo(
                ChunkInfoModel {
                    basic_header: ChunkBasicHeader {
                        format: if p.len() - k <= m.max_chunk_size {
                            m.info.basic_header.format
                        } else {
                            3
                        },
                        chunk_stream_id: m.info.basic_header.chunk_stream_id,
                    },
                    message_header: m.info.message_header,
                    payload: p,
                },
            ),
        ),
    decreases p.len() - k,
{
    let max = m.max_chunk_size;
    let csid = m.info.basic_header.chunk_stream_id;
    let sep = basic_header_bytes(3, csid) + extra;
    let s = p.skip(k);
    if p.len() - k <= max {
        assert(payload_pieces(s, max as nat, sep) == s);
        lemma_last_piece(m, last, p, k, rest);
    } else {
        let tail2 = payload_pieces(s.skip(max as int), max as nat, sep) + rest;
        assert(m.buf =~= s.take(max as int) + (sep + tail2));
        lemma_inner_piece(m, last, p, k, sep + tail2);
        let m1 = UnpackerModel {
            buf: sep + tail2,
            info: ChunkInfoModel { payload: p.take(k + max), ..m.info },
            state: ChunkReadState::ReadBasicHeader,
            ..m
        };
        assert(m1.buf =~= basic_header_bytes(3, csid) + extra + tail2);
        lemma_continuation_headers(m1, UnpackResultModel::Success, extra, tail2);
        let m4 = UnpackerModel {
            buf: tail2,
            info: ChunkInfoModel {
                basic_header: ChunkBasicHeader { format: 3, chunk_stream_id: csid },
                ..m1.info
            },
            state: ChunkReadState::ReadMessagePayload,
            ..m1
        };
        assert(s.skip(max as int) =~= p.skip(k + max));
        lemma_payload_pieces_roundtrip(m4, UnpackResultModel::Success, p, k + max, extra, rest);
    }
}

proof fn lemma_field_ts(m: UnpackerModel, v: u32, tail: Seq<u8>)
    requires
        m.mh_state == MessageHeaderReadState::ReadTimeStamp,
        v < 0x1000000,
        m.buf == be24_bytes(v) + tail,
    ensures
        read_type0_fields(m) == read_type0_fields(
            UnpackerModel {
                buf: tail,
                mh_state: MessageHeaderReadState::ReadMsgLength,
                info: ChunkInfoModel {
                    message_header: ChunkMessageHeader { timestamp: v, ..m.info.message_header },
                    ..m.info
                },
                ..m
            },
        ),
{
    lemma_be24_roundtrip(v);
    assert(rest_from(m.buf, 3) =~= tail);
    assert(m.buf[0] == be24_bytes(v)[0] && m.buf[1] == be24_bytes(v)[1] && m.buf[2]
        == be24_bytes(v)[2]);
}

proof fn lemma_field_len(m: UnpackerModel, v: u32, tail: Seq<u8>)
    requires
        m.mh_state == MessageHeaderReadState::ReadMsgLength,
        v < 0x1000000,
        m.buf == be24_bytes(v) + tail,
    ensures
        read_type0_fields(m) == read_type0_fields(
            UnpackerModel {
                buf: tail,
                mh_state: MessageHeaderReadState::ReadMsgTypeID,
                info: ChunkInfoModel {
                    message_header: ChunkMessageHeader { msg_length: v, ..m.info.message_header },
                    ..m.info
                },
                ..m
            },
        ),
{
    lemma_be24_roundtrip(v);
    assert(rest_from(m.buf, 3) =~= tail);
    assert(m.buf[0] == be24_bytes(v)[0] && m.buf[1] == be24_bytes(v)[1] && m.buf[2]
        == be24_bytes(v)[2]);
}

proof fn lemma_field_type(m: UnpackerModel, v: u8, tail: Seq<u8>)
    requires
        m.mh_state == MessageHeaderReadState::ReadMsgTypeID,
        m.buf == seq![v] + tail,
    ensures
        read_type0_fields(m) == read_type0_fields(
            UnpackerModel {
                buf: tail,
                mh_state: MessageHeaderReadState::ReadMsgStreamID,
                info: ChunkInfoModel {
                    message_header: ChunkMessageHeader { msg_type_id: v, ..m.info.message_header },
                    ..m.info
                },
                ..m
            },
        ),
{
    assert(rest_from(m.buf, 1) =~= tail);
}

proof fn lemma_field_stream(m: UnpackerModel, v: u32, tail: Seq<u8>)
    requires
        m.mh_state == MessageHeaderReadState::ReadMsgStreamID,
        m.buf == le32_bytes(v) + tail,
    ensures
        read_type0_fields(m) == (
            UnpackerModel {
                buf: tail,
                mh_state: MessageHeaderReadState::ReadTimeStamp,
                info: ChunkInfoModel {
                    message_header: ChunkMessageHeader {
                        msg_streamd_id: v,
                        ..m.info.message_header
                    },
                    ..m.info
                },
                ..m
            },
            Ok::<(), crate::chunk::errors::UnpackError>(()),
        ),
{
    lemma_le32_roundtrip(v);
    assert(rest_from(m.buf, 4) =~= tail);
    assert(m.buf[0] == le32_bytes(v)[0] && m.buf[1] == le32_bytes(v)[1] && m.buf[2]
        == le32_bytes(v)[2] && m.buf[3] == le32_bytes(v)[3]);
}

/// A type 0 message header reads back field by field; the timestamp as
/// the 3-byte field carries it.
pub proof fn lemma_type0_fields_roundtrip(m: UnpackerModel, mh: ChunkMessageHeader, tail: Seq<u8>)
    requires
        m.mh_state == MessageHeaderReadState::ReadTimeStamp,
        mh.msg_length < 0x1000000,
        m.buf == message_header_bytes(0, mh) + tail,
    ensures
        read_type0_fields(m) == (
            UnpackerModel {
                buf: tail,
                info: ChunkInfoModel {
                    message_header: ChunkMessageHeader {
                        timestamp: timestamp_field(mh.timestamp),
                        msg_length: mh.msg_length,
                        msg_type_id: mh.msg_type_id,
                        msg_streamd_id: mh.msg_streamd_id,
                        ..m.info.message_header
                    },
                    ..m.info
                },
                ..m
            },
            Ok::<(), crate::chunk::errors::UnpackError>(()),
        ),
{
    let ts = timestamp_field(mh.timestamp);
    let mh0 = m.info.message_header;
    let t3 = le32_bytes(mh.msg_streamd_id) + tail;
    let t2 = seq![mh.msg_type_id] + t3;
    let t1 = be24_bytes(mh.msg_length) + t2;
    assert(m.buf =~= be24_bytes(ts) + t1);
    lemma_field_ts(m, ts, t1);
    let m1 = UnpackerModel {
        buf: t1,
        mh_state: MessageHeaderReadState::ReadMsgLength,
        info: ChunkInfoModel {
            message_header: ChunkMessageHeader { timestamp: ts, ..mh0 },
            ..m.info
        },
        ..m
    };
    lemma_field_len(m1, mh.msg_length, t2);
    let m2 = UnpackerModel {
        buf: t2,
        mh_state: MessageHeaderReadState::ReadMsgTypeID,
        info: ChunkInfoModel {
            message_header: ChunkMessageHeader { timestamp: ts, msg_length: mh.msg_length, ..mh0 },
            ..m.info
        },
        ..m
    };
    lemma_field_type(m2, mh.msg_type_id, t3);
    let m3 = UnpackerModel {
        buf: t3,
        mh_state: MessageHeaderReadState::ReadMsgStreamID,
        info: ChunkInfoModel {
            message_header: ChunkMessageHeader {
                timestamp: ts,
                msg_length: mh.msg_length,
                msg_type_id: mh.msg_type_id,
                ..mh0
            },
            ..m.info
        },
        ..m
    };
    lemma_field_stream(m3, mh.msg_streamd_id, tail);
}

/// Law (chunk codec): a message that the packetizer writes on a chunk
/// stream it holds no header for is read back whole by an unpacketizer
/// that is between messages and uses the same chunk size: same chunk
/// stream, timestamp, length, type id, message stream id and payload. The
/// bytes behind it stay unread.
pub proof fn lemma_chunk_roundtrip(
    p: PacketizerModel,
    bh: ChunkBasicHeader,
    mh: ChunkMessageHeader,
    payload: Seq<u8>,
    m: UnpackerModel,
    rest: Seq<u8>,
)
    requires
        !p.headers.contains_key(bh.chunk_stream_id),
        p.max_chunk_size > 0,
        m.max_chunk_size == p.max_chunk_size,
        m.state == ChunkReadState::ReadBasicHeader,
        m.mh_state == MessageHeaderReadState::ReadTimeStamp,
        m.info.payload.len() == 0,
        2 <= bh.chunk_stream_id <= 65599,
        mh.msg_length == payload.len(),
        payload.len() < 0x1000000,
    ensures
        ({
            let (zb, zm) = zip_header(p.headers, bh, mh);
            let bytes = chunk_bytes(zb, zm, payload, p.max_chunk_size as nat);
            let (m2, r) = run_chunk(
                UnpackerModel { buf: bytes + rest, ..m },
                UnpackResultModel::Empty,
            );
            &&& m2.buf == rest
            &&& m2.state == ChunkReadState::ReadBasicHeader
            &&& r == Ok::<UnpackResultModel, crate::chunk::errors::UnpackError>(
                UnpackResultModel::ChunkInfo(
                    ChunkInfoModel {
                        basic_header: ChunkBasicHeader {
                            format: if payload.len() <= p.max_chunk_size {
                                0
                            } else {
                                3
                            },
                            chunk_stream_id: bh.chunk_stream_id,
                        },
                        message_header: ChunkMessageHeader {
                            timestamp_delta: 0,
                            extended_timestamp_type: extended_kind(
                                mh.timestamp,
                                ExtendTimestampType::FORMAT0,
                            ),
                            ..mh
                        },
                        payload,
                    },
                ),
            )
        }),
{
    let csid = bh.chunk_stream_id;
    let max = p.max_chunk_size;
    let (zb, zm) = zip_header(p.headers, bh, mh);
    assert(zb == ChunkBasicHeader { format: 0, ..bh } && zm == mh);
    let ext = extended_timestamp_bytes(mh.timestamp);
    let pieces = payload_pieces(payload, max as nat, basic_header_bytes(3, csid) + ext);
    let m0 = UnpackerModel { buf: chunk_bytes(zb, zm, payload, max as nat) + rest, ..m };
    let tail1 = message_header_bytes(0, mh) + ext + pieces + rest;
    assert(m0.buf =~= basic_header_bytes(0, csid) + tail1);
    lemma_basic_header_roundtrip(m0, 0, csid, tail1);
    let (m1, r1) = step(m0);
    assert(run_chunk(m0, UnpackResultModel::Empty) == run_chunk(m1, r1->Ok_0));
    assert(m1.info.payload.len() == 0);
    assert(m1.info.basic_header == zb);
    // message header
    let tail2 = ext + pieces + rest;
    assert(m1.buf =~= message_header_bytes(0, mh) + tail2);
    lemma_type0_fields_roundtrip(m1, mh, tail2);
    let (m2, r2) = step(m1);
    assert(run_chunk(m1, r1->Ok_0) == run_chunk(m2, r2->Ok_0));
    let kind = extended_kind(mh.timestamp, ExtendTimestampType::FORMAT0);
    assert(m2.info.message_header.extended_timestamp_type == kind);
    assert(m2.buf == tail2);
    // extended timestamp
    lemma_be32_roundtrip(mh.timestamp);
    let (m3, r3) = step(m2);
    if mh.timestamp >= 0xFFFFFF {
        assert(rest_from(tail2, 4) =~= pieces + rest);
    } else {
        assert(tail2 =~= pieces + rest);
    }
    assert(m3.buf == pieces + rest);
    assert(m3.info.message_header == ChunkMessageHeader {
        timestamp_delta: 0,
        extended_timestamp_type: kind,
        ..mh
    });
    assert(run_chunk(m2, r2->Ok_0) == run_chunk(m3, r3->Ok_0));
    // payload
    assert(payload.take(0) =~= m3.info.payload);
    assert(payload.skip(0) =~= payload);
    lemma_payload_pieces_roundtrip(m3, r3->Ok_0, payload, 0, ext, rest);
}

} // verus!
