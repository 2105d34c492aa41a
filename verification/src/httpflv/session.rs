//! One HTTP-FLV player. The frames it receives are held back until it is
//! known which kinds of media the stream has, then the FLV header and the
//! held frames go out, and every later frame at once. The caller sends
//! what is written after each call.
use vstd::prelude::*;
use crate::bytes_io::be32_bytes;
use crate::cache::frame::{FrameData, FrameModel};
use crate::cache::gop::frames_view;
use crate::httpflv::muxer::{
    FlvMuxer, flv_header_bytes, tag_bytes, TAG_TYPE_AUDIO, TAG_TYPE_VIDEO, TAG_TYPE_SCRIPT_DATA_AMF,
    HEADER_LENGTH,
};

verus! {

/// How many frames are waited for before the header goes out with the
/// kinds of media seen so far.
pub const MAX_AV_FRAME_NUM_TO_GUESS_AV: u32 = 10;

/// The tag a frame is sent as: audio and video as they are; metadata
/// without its leading AMF0 string "@setDataFrame" (16 bytes).
pub open spec fn frame_tag(f: FrameModel) -> Seq<u8> {
    match f {
        FrameModel::Audio { timestamp, data } => tag_bytes(TAG_TYPE_AUDIO, timestamp, data),
        FrameModel::Video { timestamp, data } => tag_bytes(TAG_TYPE_VIDEO, timestamp, data),
        FrameModel::MetaData { timestamp, data } => tag_bytes(
            TAG_TYPE_SCRIPT_DATA_AMF,
            timestamp,
            data.skip(16),
        ),
    }
}

pub open spec fn frames_tags(fs: Seq<FrameModel>) -> Seq<u8>
    decreases fs.len(),
{
    if fs.len() == 0 {
        Seq::empty()
    } else {
        frames_tags(fs.drop_last()) + frame_tag(fs.last())
    }
}

/// A frame can be sent: the tag body fits the 3-byte size field, and
/// metadata is long enough to hold "@setDataFrame", which is cut off.
pub open spec fn frame_ok(f: FrameModel) -> bool {
    match f {
        FrameModel::Audio { data, .. } => data.len() < 0x1000000,
        FrameModel::Video { data, .. } => data.len() < 0x1000000,
        FrameModel::MetaData { data, .. } => 16 <= data.len() < 0x1000000 + 16,
    }
}

/// How sending to the player went, as the sending loop sees it.
#[derive(Debug, Clone, Copy, PartialEq, Eq, Structural)]
pub enum SendOutcome {
    /// The frame was written and sent.
    Sent,
    /// The player is gone.
    Disconnected,
    /// Sending failed for another reason.
    Failed,
    /// No frame came from the stream.
    NoData,
}

/// The number of failures in a row after an outcome, or `None` when the
/// sending loop stops: at once when the player is gone, and when more than
/// ten failures came in a row.
pub open spec fn retry_after(retry_count: u32, outcome: SendOutcome) -> Option<u32> {
    match outcome {
        SendOutcome::Sent => Some(0),
        SendOutcome::Disconnected => None,
        _ => if retry_count + 1 > 10 {
            None
        } else {
            Some((retry_count + 1) as u32)
        },
    }
}

pub fn retry_step(retry_count: u32, outcome: SendOutcome) -> (r: Option<u32>)
    requires
        retry_count <= 10,
    ensures
        r == retry_after(retry_count, outcome),
{
    match outcome {
        SendOutcome::Sent => Some(0),
        SendOutcome::Disconnected => None,
        _ => if retry_count + 1 > 10 {
            None
        } else {
            Some(retry_count + 1)
        },
    }
}

/// Mathematical model of an `HttpFlv`.
pub struct HttpFlvModel {
    /// The app and stream played, by which the player subscribes.
    pub app_name: Seq<char>,
    pub stream_name: Seq<char>,
    pub has_audio: bool,
    pub has_video: bool,
    pub has_send_header: bool,
    pub guessed_frames: u32,
    pub cached_frames: Seq<FrameModel>,
    pub out: Seq<u8>,
}

/// The player after a frame: before the header, the frame is held back
/// (noting audio and video); once both were seen, or more than ten frames
/// were held back, the header and the held frames are written. After the
/// header, the frame is written at once.
pub open spec fn after_frame(m: HttpFlvModel, f: FrameModel) -> HttpFlvModel {
    if m.has_send_header {
        HttpFlvModel { out: m.out + frame_tag(f), ..m }
    } else {
        let has_audio = m.has_audio || f is Audio;
        let has_video = m.has_video || f is Video;
        let n = (m.guessed_frames + 1) as u32;
        let cached = m.cached_frames.push(f);
        if (has_audio && has_video) || n > MAX_AV_FRAME_NUM_TO_GUESS_AV {
            HttpFlvModel {
                app_name: m.app_name,
                stream_name: m.stream_name,
                has_audio,
                has_video,
                has_send_header: true,
                guessed_frames: n,
                cached_frames: Seq::empty(),
                out: m.out + flv_header_bytes(has_audio, has_video) + be32_bytes(0) + frames_tags(
                    cached,
                ),
            }
        } else {
            HttpFlvModel { has_audio, has_video, guessed_frames: n, cached_frames: cached, ..m }
        }
    }
}

/// What every player keeps: the held frames can be sent, and no more
/// frames are counted than the header waits for.
pub open spec fn player_wf(m: HttpFlvModel) -> bool {
    &&& forall|i: int| 0 <= i < m.cached_frames.len() ==> frame_ok(#[trigger] m.cached_frames[i])
    &&& m.guessed_frames <= MAX_AV_FRAME_NUM_TO_GUESS_AV + 1
    &&& !m.has_send_header ==> m.guessed_frames <= MAX_AV_FRAME_NUM_TO_GUESS_AV
    &&& m.has_send_header ==> m.cached_frames.len() == 0
}

pub struct HttpFlv {
    app_name: String,
    stream_name: String,
    muxer: FlvMuxer,
    has_audio: bool,
    has_video: bool,
    has_send_header: bool,
    guessed_frames: u32,
    cached_frames: Vec<FrameData>,
}

impl View for HttpFlv {
    type V = HttpFlvModel;

    closed spec fn view(&self) -> HttpFlvModel {
        HttpFlvModel {
            app_name: self.app_name@,
            stream_name: self.stream_name@,
            has_audio: self.has_audio,
            has_video: self.has_video,
            has_send_header: self.has_send_header,
            guessed_frames: self.guessed_frames,
            cached_frames: frames_view(self.cached_frames@),
            out: self.muxer.writer@,
        }
    }
}

/// Writes a frame as an FLV tag: header, body, then the size of both.
fn write_frame_tag(muxer: &mut FlvMuxer, channel_data: &FrameData)
    requires
        frame_ok(channel_data@),
    ensures
        final(muxer).writer@ == old(muxer).writer@ + frame_tag(channel_data@),
{
    let (tag_type, timestamp) = match channel_data {
        FrameData::Audio { timestamp, .. } => (TAG_TYPE_AUDIO, *timestamp),
        FrameData::Video { timestamp, .. } => (TAG_TYPE_VIDEO, *timestamp),
        FrameData::MetaData { timestamp, .. } => (TAG_TYPE_SCRIPT_DATA_AMF, *timestamp),
    };
    let body: Vec<u8> = match channel_data {
        FrameData::Audio { data, .. } => crate::cache::frame::copy_bytes(data),
        FrameData::Video { data, .. } => crate::cache::frame::copy_bytes(data),
        FrameData::MetaData { data, .. } => {
            match crate::cache::metadata::strip_set_data_frame(data) {
                Ok(v) => v,
                Err(_) => Vec::new(),
            }
        },
    };
    let len = body.len() as u32;
    muxer.write_flv_tag_header(tag_type, len, timestamp);
    muxer.write_flv_tag_body(&body);
    muxer.write_previous_tag_size(len + HEADER_LENGTH);
    assert(muxer.writer@ =~= old(muxer).writer@ + frame_tag(channel_data@));
}

/// Writes the given frames as FLV tags, in order.
fn write_frame_tags(muxer: &mut FlvMuxer, frames: &Vec<FrameData>)
    requires
        forall|k: int| 0 <= k < frames@.len() ==> frame_ok(#[trigger] frames@[k]@),
    ensures
        final(muxer).writer@ == old(muxer).writer@ + frames_tags(frames_view(frames@)),
{
    let ghost all = frames_view(frames@);
    let mut i: usize = 0;
    while i < frames.len()
        invariant
            i <= frames@.len(),
            all == frames_view(frames@),
            forall|k: int| 0 <= k < frames@.len() ==> frame_ok(#[trigger] frames@[k]@),
            muxer.writer@ == old(muxer).writer@ + frames_tags(all.take(i as int)),
        decreases frames@.len() - i,
    {
        assert(all[i as int] == frames@[i as int]@);
        write_frame_tag(muxer, &frames[i]);
        proof {
            assert(all.take(i + 1).drop_last() =~= all.take(i as int));
        }
        i = i + 1;
    }
    assert(all.take(frames@.len() as int) =~= all);
}

impl HttpFlv {
    pub fn new(app_name: String, stream_name: String) -> (h: Self)
        ensures
            player_wf(h@),
            h@ == (HttpFlvModel {
                app_name: app_name@,
                stream_name: stream_name@,
                has_audio: false,
                has_video: false,
                has_send_header: false,
                guessed_frames: 0,
                cached_frames: Seq::empty(),
                out: Seq::empty(),
            }),
    {
        let h = HttpFlv {
            app_name,
            stream_name,
            muxer: FlvMuxer::new(),
            has_audio: false,
            has_video: false,
            has_send_header: false,
            guessed_frames: 0,
            cached_frames: Vec::new(),
        };
        assert(frames_view(h.cached_frames@) =~= Seq::<FrameModel>::empty());
        h
    }

    /// Writes a frame as an FLV tag; see `frame_tag`.
    pub fn write_flv_tag(&mut self, channel_data: &FrameData)
        requires
            frame_ok(channel_data@),
        ensures
            final(self)@ == (HttpFlvModel { out: old(self)@.out + frame_tag(channel_data@), ..old(self)@ }),
    {
        write_frame_tag(&mut self.muxer, channel_data);
    }

    /// Takes what was written, to be sent to the player.
    pub fn flush_response_data(&mut self) -> (r: Vec<u8>)
        ensures
            r@ == old(self)@.out,
            final(self)@ == (HttpFlvModel { out: Seq::empty(), ..old(self)@ }),
    {
        self.muxer.writer.extract_current_bytes()
    }

    /// Handles a frame for the player; see `after_frame`.
    pub fn on_frame(&mut self, data: FrameData)
        requires
            player_wf(old(self)@),
            frame_ok(data@),
        ensures
            player_wf(final(self)@),
            final(self)@ == after_frame(old(self)@, data@),
    {
        if self.has_send_header {
            self.write_flv_tag(&data);
            return;
        }
        self.guessed_frames = self.guessed_frames + 1;
        match &data {
            FrameData::Audio { .. } => {
                self.has_audio = true;
            },
            FrameData::Video { .. } => {
                self.has_video = true;
            },
            FrameData::MetaData { .. } => {},
        }
        let ghost c0 = self.cached_frames@;
        self.cached_frames.push(data);
        assert(frames_view(self.cached_frames@) =~= frames_view(c0).push(data@));
        assert forall|k: int| 0 <= k < self.cached_frames@.len() implies frame_ok(
            #[trigger] self.cached_frames@[k]@,
        ) by {
            assert(frames_view(self.cached_frames@)[k] == self.cached_frames@[k]@);
            if k < c0.len() {
                assert(c0 == old(self).cached_frames@);
                assert(frames_view(c0)[k] == c0[k]@);
                assert(frame_ok(old(self)@.cached_frames[k]));
            }
        }
        if (self.has_audio && self.has_video) || self.guessed_frames > MAX_AV_FRAME_NUM_TO_GUESS_AV {
            self.has_send_header = true;
            self.muxer.write_flv_header(self.has_audio, self.has_video);
            self.muxer.write_previous_tag_size(0);
            let mut frames: Vec<FrameData> = Vec::new();
            std::mem::swap(&mut frames, &mut self.cached_frames);
            write_frame_tags(&mut self.muxer, &frames);
            assert(frames_view(self.cached_frames@) =~= Seq::<FrameModel>::empty());
        }
    }
}

/// The player after each of `fs` in turn.
pub open spec fn after_frames(m: HttpFlvModel, fs: Seq<FrameModel>) -> HttpFlvModel
    decreases fs.len(),
{
    if fs.len() == 0 {
        m
    } else {
        after_frame(after_frames(m, fs.drop_last()), fs.last())
    }
}

/// The player as `new` makes it.
pub open spec fn new_player(app_name: Seq<char>, stream_name: Seq<char>) -> HttpFlvModel {
    HttpFlvModel {
        app_name,
        stream_name,
        has_audio: false,
        has_video: false,
        has_send_header: false,
        guessed_frames: 0,
        cached_frames: Seq::empty(),
        out: Seq::empty(),
    }
}

/// No frame is lost or reordered: until the header goes out nothing is
/// written and every frame is held; from then on what was written is the
/// header, followed by every frame received so far, in order.
pub proof fn lemma_frames_kept_in_order(
    app_name: Seq<char>,
    stream_name: Seq<char>,
    fs: Seq<FrameModel>,
)
    ensures
        ({
            let m = after_frames(new_player(app_name, stream_name), fs);
            &&& !m.has_send_header ==> m.out == Seq::<u8>::empty() && m.cached_frames == fs
            &&& m.has_send_header ==> m.out == flv_header_bytes(m.has_audio, m.has_video)
                + be32_bytes(0) + frames_tags(fs)
        }),
    decreases fs.len(),
{
    if fs.len() == 0 {
        assert(fs =~= Seq::<FrameModel>::empty());
    } else {
        let prev = fs.drop_last();
        let f = fs.last();
        lemma_frames_kept_in_order(app_name, stream_name, prev);
        let m = after_frames(new_player(app_name, stream_name), prev);
        assert(frames_tags(fs) == frames_tags(prev) + frame_tag(f));
        if m.has_send_header {
            assert(after_frames(new_player(app_name, stream_name), fs).out =~= flv_header_bytes(m.has_audio, m.has_video)
                + be32_bytes(0) + frames_tags(fs));
        } else {
            assert(m.cached_frames.push(f) =~= fs);
        }
    }
}

} // verus!
