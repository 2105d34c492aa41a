//! Splitting a message into chunks (RTMP 5.3.1): one chunk with the full
//! headers, then continuation chunks of type 3, none longer than the
//! chunk size.
use vstd::prelude::*;
use std::collections::HashMap;
use crate::bytes_io::{BytesWriter, be24_bytes, be32_bytes, le32_bytes};
use crate::chunk::{ChunkBasicHeader, ChunkHeader, ChunkInfo, ChunkMessageHeader};
use crate::chunk::define::INIT_CHUNK_SIZE;
use crate::chunk::errors::PackError;

verus! {

broadcast use vstd::std_specs::hash::group_hash_axioms;

#[derive(Debug, Clone, Copy, PartialEq, Eq)]
pub enum PackResult {
    Success,
    NotEnoughBytes,
}

/// Mathematical model of a `ChunkPacketizer`.
pub struct PacketizerModel {
    /// The headers remembered per chunk stream, against which a message's
    /// headers are compressed.
    pub headers: Map<u32, ChunkHeader>,
    pub max_chunk_size: usize,
    /// Everything written so far.
    pub bytes: Seq<u8>,
}

/// Writes messages as RTMP chunks into a byte buffer.
pub struct ChunkPacketizer {
    csid_2_chunk_header: HashMap<u32, ChunkHeader>,
    max_chunk_size: usize,
    bytes: BytesWriter,
}

impl View for ChunkPacketizer {
    type V = PacketizerModel;

    closed spec fn view(&self) -> PacketizerModel {
        PacketizerModel {
            headers: self.csid_2_chunk_header@,
            max_chunk_size: self.max_chunk_size,
            bytes: self.bytes@,
        }
    }
}

/// The headers a message is sent with. A message on a chunk stream whose
/// previous header had the same message stream id is sent as type 1 with
/// a timestamp relative to that header; as type 2 if the type id and the
/// length match as well; as type 3 if then the relative timestamp equals
/// the previous one. Otherwise it is sent as type 0.
pub open spec fn zip_header(
    headers: Map<u32, ChunkHeader>,
    bh: ChunkBasicHeader,
    mh: ChunkMessageHeader,
) -> (ChunkBasicHeader, ChunkMessageHeader) {
    let csid = bh.chunk_stream_id;
    if headers.contains_key(csid) && mh.msg_streamd_id
        == headers[csid].message_header.msg_streamd_id {
        let pre = headers[csid].message_header;
        let ts = (mh.timestamp - pre.timestamp) as u32;
        let fmt: u8 = if mh.msg_type_id == pre.msg_type_id && mh.msg_length == pre.msg_length {
            if ts == pre.timestamp {
                3
            } else {
                2
            }
        } else {
            1
        };
        (ChunkBasicHeader { format: fmt, ..bh }, ChunkMessageHeader { timestamp: ts, ..mh })
    } else {
        (ChunkBasicHeader { format: 0, ..bh }, mh)
    }
}

/// The relative timestamp of a compressed header is not negative.
pub open spec fn zip_defined(
    headers: Map<u32, ChunkHeader>,
    bh: ChunkBasicHeader,
    mh: ChunkMessageHeader,
) -> bool {
    let csid = bh.chunk_stream_id;
    headers.contains_key(csid) && mh.msg_streamd_id == headers[csid].message_header.msg_streamd_id
        ==> mh.timestamp >= headers[csid].message_header.timestamp
}

/// The basic header (5.3.1.1): ids below 64 in one byte, ids below 319 in
/// two bytes (the second is the id less 64), others in three bytes (the id
/// less 64, low byte first).
pub open spec fn basic_header_bytes(fmt: u8, csid: u32) -> Seq<u8> {
    let top = (fmt % 4) * 64;
    if csid >= 64 + 255 {
        let v = (csid - 64) % 0x10000;
        seq![(top + 1) as u8, (v % 256) as u8, (v / 256) as u8]
    } else if csid >= 64 {
        seq![top as u8, (csid - 64) as u8]
    } else {
        seq![(top + csid) as u8]
    }
}

/// The timestamp as the 3-byte field carries it: saturated when it does not
/// fit.
pub open spec fn timestamp_field(ts: u32) -> u32 {
    if ts >= 0xFFFFFF {
        0xFFFFFF
    } else {
        ts
    }
}

/// The message header (5.3.1.2) of the given chunk type.
pub open spec fn message_header_bytes(fmt: u8, mh: ChunkMessageHeader) -> Seq<u8> {
    let ts = be24_bytes(timestamp_field(mh.timestamp));
    if fmt == 0 {
        ts + be24_bytes(mh.msg_length) + seq![mh.msg_type_id] + le32_bytes(mh.msg_streamd_id)
    } else if fmt == 1 {
        ts + be24_bytes(mh.msg_length) + seq![mh.msg_type_id]
    } else if fmt == 2 {
        ts
    } else {
        Seq::empty()
    }
}

/// The extended timestamp (5.3.1.3), present when the 3-byte field is
/// saturated.
pub open spec fn extended_timestamp_bytes(ts: u32) -> Seq<u8> {
    if ts >= 0xFFFFFF {
        be32_bytes(ts)
    } else {
        Seq::empty()
    }
}

/// The payload cut into pieces of at most `max` bytes with `sep` between
/// consecutive pieces.
pub open spec fn payload_pieces(payload: Seq<u8>, max: nat, sep: Seq<u8>) -> Seq<u8>
    decreases payload.len(),
{
    if payload.len() <= max || max == 0 {
        payload
    } else {
        payload.take(max as int) + sep + payload_pieces(payload.skip(max as int), max, sep)
    }
}

/// The bytes of a whole message: first chunk headers, payload pieces, and
/// before each piece after the first a type 3 basic header and, when the
/// timestamp needs it, the extended timestamp again.
pub open spec fn chunk_bytes(
    bh: ChunkBasicHeader,
    mh: ChunkMessageHeader,
    payload: Seq<u8>,
    max: nat,
) -> Seq<u8> {
    let ext = extended_timestamp_bytes(mh.timestamp);
    basic_header_bytes(bh.format, bh.chunk_stream_id) + message_header_bytes(bh.format, mh) + ext
        + payload_pieces(payload, max, basic_header_bytes(3, bh.chunk_stream_id) + ext)
}

impl ChunkPacketizer {
    pub fn new() -> (p: Self)
        ensures
            p@ == (PacketizerModel {
                headers: Map::empty(),
                max_chunk_size: INIT_CHUNK_SIZE as usize,
                bytes: Seq::empty(),
            }),
    {
        ChunkPacketizer {
            csid_2_chunk_header: HashMap::new(),
            max_chunk_size: INIT_CHUNK_SIZE as usize,
            bytes: BytesWriter::new(),
        }
    }

    /// Compresses the headers of `chunk_info` against those remembered for
    /// its chunk stream.
    fn zip_chunk_header(&self, chunk_info: &mut ChunkInfo) -> (r: PackResult)
        requires
            zip_defined(self@.headers, old(chunk_info).basic_header, old(chunk_info).message_header),
        ensures
            (final(chunk_info).basic_header, final(chunk_info).message_header) == zip_header(
                self@.headers,
                old(chunk_info).basic_header,
                old(chunk_info).message_header,
            ),
            final(chunk_info).payload@ == old(chunk_info).payload@,
            r == PackResult::Success,
    {
        chunk_info.basic_header.format = 0;
        match self.csid_2_chunk_header.get(&chunk_info.basic_header.chunk_stream_id) {
            Some(val) => {
                let pre_msg_header = val.message_header;
                if chunk_info.message_header.msg_streamd_id == pre_msg_header.msg_streamd_id {
                    chunk_info.basic_header.format = 1;
                    chunk_info.message_header.timestamp = chunk_info.message_header.timestamp
                        - pre_msg_header.timestamp;
                    if chunk_info.message_header.msg_type_id == pre_msg_header.msg_type_id
                        && chunk_info.message_header.msg_length == pre_msg_header.msg_length {
                        chunk_info.basic_header.format = 2;
                        if chunk_info.message_header.timestamp == pre_msg_header.timestamp {
                            chunk_info.basic_header.format = 3;
                        }
                    }
                }
            },
            None => {},
        }
        PackResult::Success
    }

    /// Writes a basic header (5.3.1.1): the chunk type in the top two bits,
    /// then ids 2 to 63 in the low six bits, ids 64 to 318 in one more byte,
    /// and larger ids in two more bytes, low byte first (counted from 64).
    pub fn write_basic_header(&mut self, fmt: u8, csid: u32)
        ensures
            final(self)@ == (PacketizerModel {
                bytes: old(self)@.bytes + basic_header_bytes(fmt, csid),
                ..old(self)@
            }),
    {
        let top: u8 = (fmt % 4) * 64;
        if csid >= 64 + 255 {
            let v: u32 = (csid - 64) % 0x10000;
            self.bytes.write_u8(top + 1);
            self.bytes.write_u8((v % 256) as u8);
            self.bytes.write_u8((v / 256) as u8);
        } else if csid >= 64 {
            self.bytes.write_u8(top);
            self.bytes.write_u8((csid - 64) as u8);
        } else {
            self.bytes.write_u8(top + csid as u8);
        }
        assert(self@.bytes =~= old(self)@.bytes + basic_header_bytes(fmt, csid));
    }

    fn write_message_header(&mut self, fmt: u8, message_header: &ChunkMessageHeader)
        requires
            fmt <= 1 ==> message_header.msg_length < 0x1000000,
        ensures
            final(self)@ == (PacketizerModel {
                bytes: old(self)@.bytes + message_header_bytes(fmt, *message_header),
                ..old(self)@
            }),
    {
        let timestamp: u32 = if message_header.timestamp >= 0xFFFFFF {
            0xFFFFFF
        } else {
            message_header.timestamp
        };
        if fmt == 0 {
            self.bytes.write_u24_be(timestamp);
            self.bytes.write_u24_be(message_header.msg_length);
            self.bytes.write_u8(message_header.msg_type_id);
            self.bytes.write_u32_le(message_header.msg_streamd_id);
        } else if fmt == 1 {
            self.bytes.write_u24_be(timestamp);
            self.bytes.write_u24_be(message_header.msg_length);
            self.bytes.write_u8(message_header.msg_type_id);
        } else if fmt == 2 {
            self.bytes.write_u24_be(timestamp);
        }
        assert(self@.bytes =~= old(self)@.bytes + message_header_bytes(fmt, *message_header));
    }

    fn write_extened_timestamp(&mut self, timestamp: u32)
        ensures
            final(self)@ == (PacketizerModel {
                bytes: old(self)@.bytes + be32_bytes(timestamp),
                ..old(self)@
            }),
    {
        self.bytes.write_u32_be(timestamp);
    }
    /// Appends `payload[start..end]`.
    fn write_range(&mut self, payload: &Vec<u8>, start: usize, end: usize)
        requires
            start <= end <= payload@.len(),
        ensures
            final(self)@ == (PacketizerModel {
                bytes: old(self)@.bytes + payload@.subrange(start as int, end as int),
                ..old(self)@
            }),
    {
        let mut i: usize = start;
        while i < end
            invariant
                start <= i <= end <= payload@.len(),
                self@ == (PacketizerModel {
                    bytes: old(self)@.bytes + payload@.subrange(start as int, i as int),
                    ..old(self)@
                }),
            decreases end - i,
        {
            self.bytes.write_u8(payload[i]);
            i = i + 1;
            assert(payload@.subrange(start as int, i as int) =~= payload@.subrange(
                start as int,
                i - 1,
            ).push(payload@[i - 1]));
        }
    }

    /// Writes the message as chunks: headers compressed against the
    /// remembered ones, the payload cut to the chunk size. The payload is
    /// taken out of `chunk_info`, which keeps the compressed headers.
    pub fn write_chunk(&mut self, chunk_info: &mut ChunkInfo) -> (r: Result<(), PackError>)
        requires
            old(self)@.max_chunk_size > 0,
            zip_defined(old(self)@.headers, old(chunk_info).basic_header, old(chunk_info).message_header),
            zip_header(
                old(self)@.headers,
                old(chunk_info).basic_header,
                old(chunk_info).message_header,
            ).0.format <= 1 ==> old(chunk_info).message_header.msg_length < 0x1000000,
        ensures
            r is Ok,
            (final(chunk_info).basic_header, final(chunk_info).message_header) == zip_header(
                old(self)@.headers,
                old(chunk_info).basic_header,
                old(chunk_info).message_header,
            ),
            final(chunk_info).payload@ == Seq::<u8>::empty(),
            final(self)@ == (PacketizerModel {
                bytes: old(self)@.bytes + chunk_bytes(
                    final(chunk_info).basic_header,
                    final(chunk_info).message_header,
                    old(chunk_info).payload@,
                    old(self)@.max_chunk_size as nat,
                ),
                ..old(self)@
            }),
    {
        self.zip_chunk_header(chunk_info);
        let fmt = chunk_info.basic_header.format;
        let csid = chunk_info.basic_header.chunk_stream_id;
        let timestamp = chunk_info.message_header.timestamp;
        let max = self.max_chunk_size;
        self.write_basic_header(fmt, csid);
        self.write_message_header(fmt, &chunk_info.message_header);
        let ext = timestamp >= 0xFFFFFF;
        if ext {
            self.write_extened_timestamp(timestamp);
        }
        let mut payload: Vec<u8> = Vec::new();
        std::mem::swap(&mut payload, &mut chunk_info.payload);
        let ghost sep = basic_header_bytes(3, csid) + extended_timestamp_bytes(timestamp);
        let ghost target = old(self)@.bytes + chunk_bytes(
            chunk_info.basic_header,
            chunk_info.message_header,
            payload@,
            max as nat,
        );
        let mut start: usize = 0;
        assert(payload@.skip(0) =~= payload@);
        while start < payload.len()
            invariant
                start <= payload@.len(),
                max == self@.max_chunk_size,
                max > 0,
                self@.headers == old(self)@.headers,
                self@.max_chunk_size == old(self)@.max_chunk_size,
                self@.bytes + payload_pieces(payload@.skip(start as int), max as nat, sep)
                    == target,
                sep == basic_header_bytes(3, csid) + extended_timestamp_bytes(timestamp),
                ext == (timestamp >= 0xFFFFFF),
            decreases payload@.len() - start,
        {
            let ghost before = self@.bytes;
            let ghost s = payload@.skip(start as int);
            let remaining = payload.len() - start;
            let cur = if remaining > max {
                max
            } else {
                remaining
            };
            self.write_range(&payload, start, start + cur);
            start = start + cur;
            if start < payload.len() {
                self.write_basic_header(3, csid);
                if ext {
                    self.write_extened_timestamp(timestamp);
                }
            }
            proof {
                assert(payload@.subrange(start - cur, start as int) =~= s.take(cur as int));
                assert(payload@.skip(start as int) =~= s.skip(cur as int));
                if remaining > max {
                    assert(self@.bytes =~= before + s.take(cur as int) + sep);
                    assert(before + payload_pieces(s, max as nat, sep) =~= self@.bytes
                        + payload_pieces(payload@.skip(start as int), max as nat, sep));
                } else {
                    assert(s.take(cur as int) =~= s);
                    assert(payload@.skip(start as int) =~= Seq::<u8>::empty());
                }
            }
        }
        assert(payload@.skip(start as int) =~= Seq::<u8>::empty());
        Ok(())
    }

    /// Takes everything written so far.
    pub fn extract_current_bytes(&mut self) -> (r: Vec<u8>)
        ensures
            r@ == old(self)@.bytes,
            final(self)@ == (PacketizerModel { bytes: Seq::empty(), ..old(self)@ }),
    {
        self.bytes.extract_current_bytes()
    }
}

} // verus!
