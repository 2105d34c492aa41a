//! Writing FLV (FLV 1.0, E.2 and E.4).
use vstd::prelude::*;
use crate::bytes_io::{BytesWriter, be24_bytes, be32_bytes};

verus! {

pub const TAG_TYPE_AUDIO: u8 = 8;
pub const TAG_TYPE_VIDEO: u8 = 9;
pub const TAG_TYPE_SCRIPT_DATA_AMF: u8 = 18;

/// The length of a tag header.
pub const HEADER_LENGTH: u32 = 11;

/// The FLV header: signature, version 1, the audio (4) and video (1)
/// flags, and the header length 9.
pub open spec fn flv_header_bytes(has_audio: bool, has_video: bool) -> Seq<u8> {
    seq![0x46u8, 0x4C, 0x56, 1, ((if has_audio { 4int } else { 0int }) + (if has_video { 1int } else { 0int })) as u8]
        + be32_bytes(9)
}

/// A tag header: type, data size (3 bytes), timestamp (low 3 bytes, then
/// the high byte), stream id 0 (3 bytes).
pub open spec fn tag_header_bytes(tag_type: u8, data_size: u32, timestamp: u32) -> Seq<u8> {
    seq![tag_type] + be24_bytes(data_size) + be24_bytes(timestamp) + seq![(timestamp / 0x1000000) as u8]
        + be24_bytes(0)
}

/// A whole tag: header, body and the size of the tag just written.
pub open spec fn tag_bytes(tag_type: u8, timestamp: u32, body: Seq<u8>) -> Seq<u8> {
    tag_header_bytes(tag_type, body.len() as u32, timestamp) + body + be32_bytes(
        (body.len() + 11) as u32,
    )
}

/// The low three bytes of a value are those of its remainder by 2^24.
proof fn lemma_be24_low(t: u32)
    ensures
        be24_bytes(t % 0x1000000) == be24_bytes(t),
{
    assert(((t % 0x1000000) / 65536) % 256 == (t / 65536) % 256) by (bit_vector);
    assert(((t % 0x1000000) / 256) % 256 == (t / 256) % 256) by (bit_vector);
    assert((t % 0x1000000) % 256 == t % 256) by (bit_vector);
    assert(be24_bytes(t % 0x1000000) =~= be24_bytes(t));
}

/// Writes FLV into a byte buffer.
pub struct FlvMuxer {
    pub writer: BytesWriter,
}

impl FlvMuxer {
    pub fn new() -> (m: Self)
        ensures
            m.writer@ == Seq::<u8>::empty(),
    {
        FlvMuxer { writer: BytesWriter::new() }
    }

    pub fn write_flv_header(&mut self, has_audio: bool, has_video: bool)
        ensures
            final(self).writer@ == old(self).writer@ + flv_header_bytes(has_audio, has_video),
    {
        self.writer.write_u8(0x46);
        self.writer.write_u8(0x4C);
        self.writer.write_u8(0x56);
        self.writer.write_u8(1);
        let mut flags: u8 = 0;
        if has_audio {
            flags = flags + 4;
        }
        if has_video {
            flags = flags + 1;
        }
        self.writer.write_u8(flags);
        self.writer.write_u32_be(9);
        assert(self.writer@ =~= old(self).writer@ + flv_header_bytes(has_audio, has_video));
    }

    pub fn write_flv_tag_header(&mut self, tag_type: u8, data_size: u32, timestamp: u32)
        requires
            data_size < 0x1000000,
        ensures
            final(self).writer@ == old(self).writer@ + tag_header_bytes(tag_type, data_size, timestamp),
    {
        let ghost w0 = self.writer@;
        self.writer.write_u8(tag_type);
        self.writer.write_u24_be(data_size);
        self.writer.write_u24_be(timestamp % 0x1000000);
        self.writer.write_u8((timestamp / 0x1000000) as u8);
        self.writer.write_u24_be(0);
        proof {
            lemma_be24_low(timestamp);
        }
        assert(self.writer@ =~= w0 + tag_header_bytes(tag_type, data_size, timestamp));
    }

    pub fn write_flv_tag_body(&mut self, body: &Vec<u8>)
        ensures
            final(self).writer@ == old(self).writer@ + body@,
    {
        self.writer.write(body.as_slice());
    }

    pub fn write_previous_tag_size(&mut self, size: u32)
        ensures
            final(self).writer@ == old(self).writer@ + be32_bytes(size),
    {
        self.writer.write_u32_be(size);
    }
}

} // verus!
