//! The FLV audio and video tag headers (FLV 1.0, E.4.2 and E.4.3) at the
//! front of RTMP audio and video messages.
use vstd::prelude::*;
use crate::bytes_io::{BytesReader, BytesReadError};

verus! {

/// Sound format of AAC audio.
pub const SOUND_FORMAT_AAC: u8 = 10;
/// AAC packet type of the AudioSpecificConfig.
pub const AAC_SEQHDR: u8 = 0;
/// Frame type of a key frame.
pub const KEY_FRAME: u8 = 1;
/// Codec id of AVC (H.264).
pub const CODEC_ID_H264: u8 = 7;
/// AVC packet type of the decoder configuration record.
pub const AVC_SEQHDR: u8 = 0;

#[derive(Debug, Clone, Copy, PartialEq, Eq)]
pub struct AudioTagHeader {
    pub sound_format: u8,
    pub sound_rate: u8,
    pub sound_size: u8,
    pub sound_type: u8,
    pub aac_packet_type: u8,
}

#[derive(Debug, Clone, Copy, PartialEq, Eq)]
pub struct VideoTagHeader {
    pub frame_type: u8,
    pub codec_id: u8,
    pub avc_packet_type: u8,
    pub composition_time: u32,
}

/// The audio tag header at the front of `b` and its length: format, rate,
/// size and type packed in one byte, then for AAC the packet type.
pub open spec fn audio_tag_header(b: Seq<u8>) -> Option<(AudioTagHeader, int)> {
    if b.len() < 1 {
        None
    } else {
        let f = b[0];
        let sound_format = (f / 16) as u8;
        if sound_format == SOUND_FORMAT_AAC && b.len() < 2 {
            None
        } else {
            Some(
                (
                    AudioTagHeader {
                        sound_format,
                        sound_rate: ((f / 4) % 4) as u8,
                        sound_size: ((f / 2) % 2) as u8,
                        sound_type: (f % 2) as u8,
                        aac_packet_type: if sound_format == SOUND_FORMAT_AAC {
                            b[1]
                        } else {
                            0
                        },
                    },
                    if sound_format == SOUND_FORMAT_AAC {
                        2int
                    } else {
                        1int
                    },
                ),
            )
        }
    }
}

/// The video tag header at the front of `b` and its length: frame type
/// and codec id in one byte, then for AVC the packet type and the 3-byte
/// composition time.
pub open spec fn video_tag_header(b: Seq<u8>) -> Option<(VideoTagHeader, int)> {
    if b.len() < 1 {
        None
    } else {
        let f = b[0];
        let codec_id = (f % 16) as u8;
        if codec_id == CODEC_ID_H264 {
            if b.len() < 5 {
                None
            } else {
                Some(
                    (
                        VideoTagHeader {
                            frame_type: (f / 16) as u8,
                            codec_id,
                            avc_packet_type: b[1],
                            composition_time: (b[2] * 65536 + b[3] * 256 + b[4]) as u32,
                        },
                        5int,
                    ),
                )
            }
        } else {
            Some(
                (
                    VideoTagHeader {
                        frame_type: (f / 16) as u8,
                        codec_id,
                        avc_packet_type: 0,
                        composition_time: 0,
                    },
                    1int,
                ),
            )
        }
    }
}

impl AudioTagHeader {
    pub fn unmarshal(reader: &mut BytesReader) -> (r: Result<AudioTagHeader, BytesReadError>)
        ensures
            match audio_tag_header(old(reader)@) {
                Some((h, n)) => r == Ok::<AudioTagHeader, BytesReadError>(h) && final(reader)@
                    == old(reader)@.skip(n),
                None => r == Err::<AudioTagHeader, BytesReadError>(BytesReadError::NotEnoughBytes),
            },
    {
        let flags = match reader.read_u8() {
            Ok(b) => b,
            Err(e) => return Err(e),
        };
        let sound_format = flags / 16;
        let mut aac_packet_type: u8 = 0;
        if sound_format == SOUND_FORMAT_AAC {
            aac_packet_type = match reader.read_u8() {
                Ok(b) => b,
                Err(e) => return Err(e),
            };
            assert(old(reader)@.skip(1).skip(1) =~= old(reader)@.skip(2));
        }
        Ok(
            AudioTagHeader {
                sound_format,
                sound_rate: (flags / 4) % 4,
                sound_size: (flags / 2) % 2,
                sound_type: flags % 2,
                aac_packet_type,
            },
        )
    }
}

impl VideoTagHeader {
    pub fn unmarshal(reader: &mut BytesReader) -> (r: Result<VideoTagHeader, BytesReadError>)
        ensures
            match video_tag_header(old(reader)@) {
                Some((h, n)) => r == Ok::<VideoTagHeader, BytesReadError>(h) && final(reader)@
                    == old(reader)@.skip(n),
                None => r is Err,
            },
    {
        let flags = match reader.read_u8() {
            Ok(b) => b,
            Err(e) => return Err(e),
        };
        let codec_id = flags % 16;
        let mut avc_packet_type: u8 = 0;
        let mut composition_time: u32 = 0;
        if codec_id == CODEC_ID_H264 {
            avc_packet_type = match reader.read_u8() {
                Ok(b) => b,
                Err(e) => return Err(e),
            };
            composition_time = match reader.read_u24_be() {
                Ok(v) => v,
                Err(e) => return Err(e),
            };
            proof {
                assert(old(reader)@.skip(1).skip(1).skip(3) =~= old(reader)@.skip(5));
            }
        }
        Ok(
            VideoTagHeader {
                frame_type: flags / 16,
                codec_id,
                avc_packet_type,
                composition_time,
            },
        )
    }
}

} // verus!
