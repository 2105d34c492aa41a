//! The per-stream cache.
use vstd::prelude::*;
use std::collections::VecDeque;
use crate::bytes_io::{BytesReader, BytesReadError};
use crate::cache::frame::{FrameData, FrameModel, copy_bytes};
use crate::cache::gop::{Gop, Gops, GopsModel, gops_after_save, gops_view};
use crate::cache::metadata::{MetaData, is_metadata_body};
use crate::cache::flv_tag::{
    AudioTagHeader, VideoTagHeader, audio_tag_header, video_tag_header, SOUND_FORMAT_AAC,
    AAC_SEQHDR, KEY_FRAME, AVC_SEQHDR,
};

verus! {

#[derive(Debug, Clone, Copy, PartialEq, Eq)]
pub enum CacheErrorValue {
    BytesReadError(BytesReadError),
}

#[derive(Debug, Clone, Copy, PartialEq, Eq)]
pub struct CacheError {
    pub value: CacheErrorValue,
}

/// Mathematical model of a `Cache`.
pub struct CacheModel {
    pub metadata: Seq<u8>,
    pub metadata_timestamp: u32,
    pub video_seq: Seq<u8>,
    pub video_timestamp: u32,
    pub audio_seq: Seq<u8>,
    pub audio_timestamp: u32,
    pub gops: GopsModel,
}

/// An AAC AudioSpecificConfig: AAC with packet type 0 and at least two
/// bytes of configuration.
pub open spec fn is_audio_seq_header(body: Seq<u8>) -> bool {
    match audio_tag_header(body) {
        Some((h, n)) => body.len() - n >= 2 && h.sound_format == SOUND_FORMAT_AAC
            && h.aac_packet_type == AAC_SEQHDR,
        None => false,
    }
}

/// An AVC decoder configuration record: a key frame of packet type 0.
pub open spec fn is_video_seq_header(body: Seq<u8>) -> bool {
    match video_tag_header(body) {
        Some((h, _n)) => h.frame_type == KEY_FRAME && h.avc_packet_type == AVC_SEQHDR,
        None => false,
    }
}

/// Saving an audio message: the frame goes to the GOP cache whatever it
/// holds; an AAC sequence header is kept as well. A message without a
/// tag header fails, after the frame was cached.
pub open spec fn cache_after_audio(m: CacheModel, body: Seq<u8>, timestamp: u32) -> (
    CacheModel,
    bool,
) {
    let m1 = CacheModel {
        gops: gops_after_save(m.gops, FrameModel::Audio { timestamp, data: body }, false),
        ..m
    };
    if audio_tag_header(body) is None {
        (m1, false)
    } else if is_audio_seq_header(body) {
        (CacheModel { audio_seq: body, audio_timestamp: timestamp, ..m1 }, true)
    } else {
        (m1, true)
    }
}

/// Saving a video message: a message without a tag header fails and
/// changes nothing; otherwise the frame goes to the GOP cache (a key frame
/// opens a GOP), and an AVC sequence header is kept as well.
pub open spec fn cache_after_video(m: CacheModel, body: Seq<u8>, timestamp: u32) -> (
    CacheModel,
    bool,
) {
    match video_tag_header(body) {
        None => (m, false),
        Some((h, _n)) => {
            let m1 = CacheModel {
                gops: gops_after_save(
                    m.gops,
                    FrameModel::Video { timestamp, data: body },
                    h.frame_type == KEY_FRAME,
                ),
                ..m
            };
            if is_video_seq_header(body) {
                (CacheModel { video_seq: body, video_timestamp: timestamp, ..m1 }, true)
            } else {
                (m1, true)
            }
        },
    }
}

/// What a stream keeps for late subscribers.
pub struct Cache {
    metadata: MetaData,
    metadata_timestamp: u32,
    video_seq: Vec<u8>,
    video_timestamp: u32,
    audio_seq: Vec<u8>,
    audio_timestamp: u32,
    gops: Gops,
}

impl View for Cache {
    type V = CacheModel;

    closed spec fn view(&self) -> CacheModel {
        CacheModel {
            metadata: self.metadata@,
            metadata_timestamp: self.metadata_timestamp,
            video_seq: self.video_seq@,
            video_timestamp: self.video_timestamp,
            audio_seq: self.audio_seq@,
            audio_timestamp: self.audio_timestamp,
            gops: self.gops@,
        }
    }
}

fn read_error(e: BytesReadError) -> (r: CacheError)
    ensures
        r == (CacheError { value: CacheErrorValue::BytesReadError(e) }),
{
    CacheError { value: CacheErrorValue::BytesReadError(e) }
}

impl Cache {
    /// An empty cache keeping `gop_num` GOPs of the default frame cap.
    pub fn new(gop_num: usize) -> (c: Self)
        ensures
            c@.metadata == Seq::<u8>::empty(),
            c@.metadata_timestamp == 0,
            c@.video_seq == Seq::<u8>::empty(),
            c@.video_timestamp == 0,
            c@.audio_seq == Seq::<u8>::empty(),
            c@.audio_timestamp == 0,
            c@.gops == (GopsModel {
                gops: seq![Seq::<FrameModel>::empty()],
                size: gop_num,
                max_frame_num: crate::cache::gop::DEFAULT_MAX_GOP_FRAME_NUM,
            }),
    {
        Cache {
            metadata: MetaData::default(),
            metadata_timestamp: 0,
            video_seq: Vec::new(),
            video_timestamp: 0,
            audio_seq: Vec::new(),
            audio_timestamp: 0,
            gops: Gops::new(gop_num, None),
        }
    }

    /// Keeps `chunk_body` when it is metadata; the timestamp is taken in
    /// any case.
    pub fn save_metadata(&mut self, chunk_body: &Vec<u8>, timestamp: u32)
        ensures
            final(self)@ == (CacheModel {
                metadata: if is_metadata_body(chunk_body@) {
                    chunk_body@
                } else {
                    old(self)@.metadata
                },
                metadata_timestamp: timestamp,
                ..old(self)@
            }),
    {
        self.metadata.save(copy_bytes(chunk_body));
        self.metadata_timestamp = timestamp;
    }

    /// The metadata, if any was kept.
    pub fn get_metadata(&self) -> (r: Option<FrameData>)
        ensures
            self@.metadata.len() > 0 ==> (r matches Some(f) && f@ == (FrameModel::MetaData {
                timestamp: self@.metadata_timestamp,
                data: self@.metadata,
            })),
            self@.metadata.len() == 0 ==> r is None,
    {
        let data = self.metadata.get_chunk_body();
        if data.len() > 0 {
            Some(FrameData::MetaData { timestamp: self.metadata_timestamp, data })
        } else {
            None
        }
    }

    /// Caches an audio message; see `cache_after_audio`.
    pub fn save_audio_data(&mut self, chunk_body: &Vec<u8>, timestamp: u32) -> (r: Result<
        (),
        CacheError,
    >)
        ensures
            final(self)@ == cache_after_audio(old(self)@, chunk_body@, timestamp).0,
            r is Ok == cache_after_audio(old(self)@, chunk_body@, timestamp).1,
    {
        let channel_data = FrameData::Audio { timestamp, data: copy_bytes(chunk_body) };
        self.gops.save_frame_data(channel_data, false);
        let mut reader = BytesReader::new(copy_bytes(chunk_body));
        let tag_header = match AudioTagHeader::unmarshal(&mut reader) {
            Ok(h) => h,
            Err(e) => return Err(read_error(e)),
        };
        let remain_len = reader.len();
        if remain_len >= 2 && tag_header.sound_format == SOUND_FORMAT_AAC
            && tag_header.aac_packet_type == AAC_SEQHDR {
            self.audio_seq = copy_bytes(chunk_body);
            self.audio_timestamp = timestamp;
        }
        Ok(())
    }

    /// Caches a video message; see `cache_after_video`.
    pub fn save_video_data(&mut self, chunk_body: &Vec<u8>, timestamp: u32) -> (r: Result<
        (),
        CacheError,
    >)
        ensures
            final(self)@ == cache_after_video(old(self)@, chunk_body@, timestamp).0,
            r is Ok == cache_after_video(old(self)@, chunk_body@, timestamp).1,
    {
        let channel_data = FrameData::Video { timestamp, data: copy_bytes(chunk_body) };
        let mut reader = BytesReader::new(copy_bytes(chunk_body));
        let tag_header = match VideoTagHeader::unmarshal(&mut reader) {
            Ok(h) => h,
            Err(e) => return Err(read_error(e)),
        };
        let is_key_frame = tag_header.frame_type == KEY_FRAME;
        self.gops.save_frame_data(channel_data, is_key_frame);
        if is_key_frame && tag_header.avc_packet_type == AVC_SEQHDR {
            self.video_seq = copy_bytes(chunk_body);
            self.video_timestamp = timestamp;
        }
        Ok(())
    }

    /// The kept AAC sequence header, if any.
    pub fn get_audio_seq(&self) -> (r: Option<FrameData>)
        ensures
            self@.audio_seq.len() > 0 ==> (r matches Some(f) && f@ == (FrameModel::Audio {
                timestamp: self@.audio_timestamp,
                data: self@.audio_seq,
            })),
            self@.audio_seq.len() == 0 ==> r is None,
    {
        if self.audio_seq.len() > 0 {
            return Some(
                FrameData::Audio { timestamp: self.audio_timestamp, data: copy_bytes(&self.audio_seq) },
            );
        }
        None
    }

    /// The kept AVC sequence header, if any.
    pub fn get_video_seq(&self) -> (r: Option<FrameData>)
        ensures
            self@.video_seq.len() > 0 ==> (r matches Some(f) && f@ == (FrameModel::Video {
                timestamp: self@.video_timestamp,
                data: self@.video_seq,
            })),
            self@.video_seq.len() == 0 ==> r is None,
    {
        if self.video_seq.len() > 0 {
            return Some(
                FrameData::Video { timestamp: self.video_timestamp, data: copy_bytes(&self.video_seq) },
            );
        }
        None
    }

    /// The cached GOPs, oldest first, unless caching is off.
    pub fn get_gops_data(&self) -> (r: Option<VecDeque<Gop>>)
        ensures
            self@.gops.size != 0 ==> (r matches Some(g) && gops_view(g@) == self@.gops.gops),
            self@.gops.size == 0 ==> r is None,
    {
        if self.gops.setted() {
            Some(self.gops.get_gops())
        } else {
            None
        }
    }
}

/// Law (cache): a late subscriber gets the latest AVC sequence header:
/// after a video message that is one is cached, it is what the cache
/// hands out, with its timestamp.
pub proof fn lemma_video_seq_header_kept(m: CacheModel, body: Seq<u8>, timestamp: u32)
    requires
        is_video_seq_header(body),
    ensures
        cache_after_video(m, body, timestamp).1,
        cache_after_video(m, body, timestamp).0.video_seq == body,
        cache_after_video(m, body, timestamp).0.video_timestamp == timestamp,
{
}

/// Law (cache): a video or audio message that is not a sequence header
/// leaves the kept sequence headers as they were.
pub proof fn lemma_other_frames_keep_seq_headers(m: CacheModel, body: Seq<u8>, timestamp: u32)
    requires
        !is_video_seq_header(body),
        !is_audio_seq_header(body),
    ensures
        cache_after_video(m, body, timestamp).0.video_seq == m.video_seq,
        cache_after_video(m, body, timestamp).0.audio_seq == m.audio_seq,
        cache_after_audio(m, body, timestamp).0.video_seq == m.video_seq,
        cache_after_audio(m, body, timestamp).0.audio_seq == m.audio_seq,
{
}

/// Law (cache): a video key frame opens a new GOP, which it heads, so a
/// late player starts at a key frame; when the cache already holds its
/// GOP count, the oldest GOP is dropped to make room.
pub proof fn lemma_key_frame_opens_gop(m: CacheModel, body: Seq<u8>, timestamp: u32)
    requires
        m.gops.size > 0,
        video_tag_header(body) is Some,
        video_tag_header(body)->Some_0.0.frame_type == KEY_FRAME,
    ensures
        cache_after_video(m, body, timestamp).1,
        cache_after_video(m, body, timestamp).0.gops.gops.last() == seq![
            FrameModel::Video { timestamp, data: body },
        ],
        m.gops.gops.len() == m.gops.size ==> cache_after_video(m, body, timestamp).0.gops.gops
            == m.gops.gops.drop_first().push(seq![FrameModel::Video { timestamp, data: body }]),
        m.gops.gops.len() < m.gops.size ==> cache_after_video(m, body, timestamp).0.gops.gops
            == m.gops.gops.push(seq![FrameModel::Video { timestamp, data: body }]),
{
    let f = FrameModel::Video { timestamp, data: body };
    assert(Seq::<FrameModel>::empty().push(f) =~= seq![f]);
    let r = cache_after_video(m, body, timestamp).0.gops.gops;
    if m.gops.gops.len() == m.gops.size {
        assert(r =~= m.gops.gops.drop_first().push(seq![f]));
    } else if m.gops.gops.len() < m.gops.size {
        assert(r =~= m.gops.gops.push(seq![f]));
    }
}

/// Law (cache): a video frame that is not a key frame joins the latest GOP
/// and opens none.
pub proof fn lemma_inter_frame_joins_gop(m: CacheModel, body: Seq<u8>, timestamp: u32)
    requires
        m.gops.size > 0,
        m.gops.gops.len() > 0,
        video_tag_header(body) is Some,
        video_tag_header(body)->Some_0.0.frame_type != KEY_FRAME,
    ensures
        cache_after_video(m, body, timestamp).0.gops.gops == m.gops.gops.update(
            m.gops.gops.len() - 1,
            m.gops.gops.last().push(FrameModel::Video { timestamp, data: body }),
        ),
{
}

} // verus!
