//! Where the FLV-to-HLS remuxer cuts its segments and partial segments.
//! A segment is cut at the first video frame at least the target duration
//! after the previous cut; between segment cuts, a partial segment is cut
//! at the first video frame at least the partial duration after the
//! previous partial cut.
use vstd::prelude::*;

verus! {

/// What the remuxer needs to know of a demuxed frame.
#[derive(Debug, Clone, Copy, PartialEq, Eq)]
pub enum FlvDemuxerData {
    Video { has_data: bool, is_key_frame: bool, pts: i64, dts: i64 },
    Audio { has_data: bool, pts: i64, dts: i64 },
    NoData,
}

/// A partial segment to close before the frame: its duration and whether
/// it holds a key frame.
#[derive(Debug, Clone, Copy, PartialEq, Eq)]
pub struct PartialCut {
    pub duration: i64,
    pub independent: bool,
}

/// A segment to close before the frame: its duration, whether it follows a
/// gap of more than 15 s, and whether it ends the stream.
#[derive(Debug, Clone, Copy, PartialEq, Eq)]
pub struct SegmentCut {
    pub duration: i64,
    pub discontinuity: bool,
    pub is_eof: bool,
}

/// The cuts to make before writing a frame; `write` is false for frames
/// that carry nothing and are dropped.
#[derive(Debug, Clone, Copy, PartialEq, Eq)]
pub struct RemuxActions {
    pub partial: Option<PartialCut>,
    pub segment: Option<SegmentCut>,
    pub write: bool,
}

/// The remuxer's cutting state.
#[derive(Debug, Clone, Copy, PartialEq, Eq)]
pub struct Flv2HlsRemuxer {
    pub last_ts_dts: i64,
    pub last_partial_ts_dts: i64,
    pub last_ts_pts: i64,
    pub last_dts: i64,
    pub last_pts: i64,
    /// Target segment duration in seconds.
    pub duration: i64,
    /// Target partial segment duration in milliseconds.
    pub partial_seg_duration: i64,
    pub segment_has_idr: bool,
}

/// The differences the cutting rules compute fit in 64 bits.
pub open spec fn frame_in_range(r: Flv2HlsRemuxer, dts: i64) -> bool {
    &&& i64::MIN <= r.duration * 1000 <= i64::MAX
    &&& i64::MIN <= dts - r.last_ts_dts <= i64::MAX
    &&& i64::MIN <= dts - r.last_partial_ts_dts <= i64::MAX
    &&& i64::MIN <= r.last_ts_dts + 15000 <= i64::MAX
}

/// The state and the cuts after a frame.
pub open spec fn remux_step(r: Flv2HlsRemuxer, f: FlvDemuxerData) -> (Flv2HlsRemuxer, RemuxActions) {
    let none = RemuxActions { partial: None, segment: None, write: false };
    match f {
        FlvDemuxerData::Video { has_data, is_key_frame, pts, dts } => if !has_data {
            (r, none)
        } else {
            let r1 = Flv2HlsRemuxer {
                segment_has_idr: if is_key_frame {
                    true
                } else {
                    r.segment_has_idr
                },
                ..r
            };
            let need_segment = dts - r.last_ts_dts >= r.duration * 1000;
            let need_partial = !need_segment && dts - r.last_partial_ts_dts
                >= r.partial_seg_duration;
            cut(r1, need_partial, need_segment, pts, dts)
        },
        FlvDemuxerData::Audio { has_data, pts, dts } => if !has_data {
            (r, none)
        } else {
            cut(r, false, false, pts, dts)
        },
        FlvDemuxerData::NoData => (r, none),
    }
}

pub open spec fn cut(r: Flv2HlsRemuxer, need_partial: bool, need_segment: bool, pts: i64, dts: i64) -> (
    Flv2HlsRemuxer,
    RemuxActions,
) {
    let partial = if need_partial {
        Some(
            PartialCut {
                duration: (dts - r.last_partial_ts_dts) as i64,
                independent: r.segment_has_idr,
            },
        )
    } else {
        None
    };
    let r2 = if need_partial {
        Flv2HlsRemuxer { last_partial_ts_dts: dts, segment_has_idr: false, ..r }
    } else {
        r
    };
    let segment = if need_segment {
        Some(
            SegmentCut {
                duration: (dts - r.last_ts_dts) as i64,
                discontinuity: dts > r.last_ts_dts + 15000,
                is_eof: false,
            },
        )
    } else {
        None
    };
    let r3 = if need_segment {
        Flv2HlsRemuxer { last_ts_dts: dts, last_ts_pts: pts, segment_has_idr: false, ..r2 }
    } else {
        r2
    };
    (
        Flv2HlsRemuxer { last_dts: dts, last_pts: pts, ..r3 },
        RemuxActions { partial, segment, write: true },
    )
}

impl Flv2HlsRemuxer {
    pub fn new(duration: i64, partial_seg_duration: i64) -> (r: Self)
        ensures
            r == (Flv2HlsRemuxer {
                last_ts_dts: 0,
                last_partial_ts_dts: 0,
                last_ts_pts: 0,
                last_dts: 0,
                last_pts: 0,
                duration,
                partial_seg_duration,
                segment_has_idr: false,
            }),
    {
        Flv2HlsRemuxer {
            last_ts_dts: 0,
            last_partial_ts_dts: 0,
            last_ts_pts: 0,
            last_dts: 0,
            last_pts: 0,
            duration,
            partial_seg_duration,
            segment_has_idr: false,
        }
    }

    /// Decides the cuts before a frame and records it; see `remux_step`.
    pub fn process_demux_data(&mut self, data: &FlvDemuxerData) -> (a: RemuxActions)
        requires
            match *data {
                FlvDemuxerData::Video { dts, .. } => frame_in_range(*old(self), dts),
                FlvDemuxerData::Audio { dts, .. } => frame_in_range(*old(self), dts),
                FlvDemuxerData::NoData => true,
            },
        ensures
            (*final(self), a) == remux_step(*old(self), *data),
    {
        let mut need_new_segment = false;
        let mut need_new_partial_segment = false;
        let pts: i64;
        let dts: i64;
        match *data {
            FlvDemuxerData::Video { has_data, is_key_frame, pts: p, dts: d } => {
                if !has_data {
                    return RemuxActions { partial: None, segment: None, write: false };
                }
                pts = p;
                dts = d;
                if is_key_frame {
                    self.segment_has_idr = true;
                }
                if dts - self.last_ts_dts >= self.duration * 1000 {
                    need_new_segment = true;
                } else if dts - self.last_partial_ts_dts >= self.partial_seg_duration {
                    need_new_partial_segment = true;
                }
            },
            FlvDemuxerData::Audio { has_data, pts: p, dts: d } => {
                if !has_data {
                    return RemuxActions { partial: None, segment: None, write: false };
                }
                pts = p;
                dts = d;
            },
            FlvDemuxerData::NoData => {
                return RemuxActions { partial: None, segment: None, write: false };
            },
        }
        let mut partial: Option<PartialCut> = None;
        if need_new_partial_segment {
            partial = Some(
                PartialCut {
                    duration: dts - self.last_partial_ts_dts,
                    independent: self.segment_has_idr,
                },
            );
            self.last_partial_ts_dts = dts;
            self.segment_has_idr = false;
        }
        let mut segment: Option<SegmentCut> = None;
        if need_new_segment {
            segment = Some(
                SegmentCut {
                    duration: dts - self.last_ts_dts,
                    discontinuity: dts > self.last_ts_dts + 15 * 1000,
                    is_eof: false,
                },
            );
            self.last_ts_dts = dts;
            self.last_ts_pts = pts;
            self.segment_has_idr = false;
        }
        self.last_dts = dts;
        self.last_pts = pts;
        RemuxActions { partial, segment, write: true }
    }

    /// The last segment, closed when the stream ends.
    pub fn flush_remaining_data(&self) -> (c: SegmentCut)
        requires
            i64::MIN <= self.last_dts - self.last_ts_dts <= i64::MAX,
            self.last_ts_dts + 15000 <= i64::MAX,
        ensures
            c == (SegmentCut {
                duration: (self.last_dts - self.last_ts_dts) as i64,
                discontinuity: self.last_dts > self.last_ts_dts + 15000,
                is_eof: true,
            }),
    {
        SegmentCut {
            duration: self.last_dts - self.last_ts_dts,
            discontinuity: self.last_dts > self.last_ts_dts + 15 * 1000,
            is_eof: true,
        }
    }
}

/// Law (HLS cutting): a partial segment and a segment are never cut
/// before the same frame, and audio frames cut nothing.
pub proof fn lemma_cuts_exclusive(r: Flv2HlsRemuxer, f: FlvDemuxerData)
    ensures
        !(remux_step(r, f).1.partial is Some && remux_step(r, f).1.segment is Some),
        f is Audio ==> remux_step(r, f).1.partial is None && remux_step(r, f).1.segment is None,
{
}

/// Law (HLS cutting): a segment cut restarts the segment's clock at the
/// frame, and no segment is cut before its target duration has passed.
pub proof fn lemma_segment_cut_at_duration(r: Flv2HlsRemuxer, f: FlvDemuxerData)
    ensures
        remux_step(r, f).1.segment matches Some(c) ==> f matches FlvDemuxerData::Video {
            dts,
            ..
        } && dts - r.last_ts_dts >= r.duration * 1000 && remux_step(r, f).0.last_ts_dts == dts
            && c.duration == (dts - r.last_ts_dts) as i64,
{
}

/// Law (HLS cutting): a partial segment lasts from the previous partial
/// cut to the frame it is cut before, and the next partial segment is
/// measured from that frame. Only video frames cut partial segments.
pub proof fn lemma_partial_cut_duration(r: Flv2HlsRemuxer, f: FlvDemuxerData)
    requires
        match f {
            FlvDemuxerData::Video { dts, .. } => frame_in_range(r, dts),
            _ => true,
        },
    ensures
        match f {
            FlvDemuxerData::Video { dts, .. } => remux_step(r, f).1.partial matches Some(p) ==> p.duration
                == dts - r.last_partial_ts_dts && remux_step(r, f).0.last_partial_ts_dts == dts,
            _ => remux_step(r, f).1.partial is None,
        },
        remux_step(r, f).1.partial is None ==> remux_step(r, f).0.last_partial_ts_dts
            == r.last_partial_ts_dts,
{
}

/// Law (HLS cutting): a partial segment is independent exactly when a
/// video key frame came since the previous cut, the frame cut before
/// included. A frame that cuts nothing never clears that mark, a key
/// frame sets it, and every cut clears it.
pub proof fn lemma_independent_since_key_frame(r: Flv2HlsRemuxer, f: FlvDemuxerData)
    requires
        match f {
            FlvDemuxerData::Video { dts, .. } => frame_in_range(r, dts),
            _ => true,
        },
    ensures
        match f {
            FlvDemuxerData::Video { has_data: true, is_key_frame, .. } => {
                &&& remux_step(r, f).1.partial matches Some(p) ==> p.independent == (
                r.segment_has_idr || is_key_frame)
                &&& remux_step(r, f).1.partial is None && remux_step(r, f).1.segment is None
                    ==> remux_step(r, f).0.segment_has_idr == (r.segment_has_idr || is_key_frame)
            },
            _ => remux_step(r, f).0.segment_has_idr == r.segment_has_idr,
        },
        remux_step(r, f).1.partial is Some || remux_step(r, f).1.segment is Some
            ==> !remux_step(r, f).0.segment_has_idr,
{
}

/// The remuxer after each frame of `fs` in turn.
pub open spec fn remux_steps(r: Flv2HlsRemuxer, fs: Seq<FlvDemuxerData>) -> Flv2HlsRemuxer
    decreases fs.len(),
{
    if fs.len() == 0 {
        r
    } else {
        remux_step(remux_steps(r, fs.drop_last()), fs.last()).0
    }
}

pub open spec fn is_key_video(f: FlvDemuxerData) -> bool {
    f matches FlvDemuxerData::Video { has_data: true, is_key_frame: true, .. }
}

pub open spec fn frame_dts_in_range(r: Flv2HlsRemuxer, f: FlvDemuxerData) -> bool {
    match f {
        FlvDemuxerData::Video { dts, .. } => frame_in_range(r, dts),
        _ => true,
    }
}

/// Law (HLS cutting): over a run of frames that cut nothing, the remuxer
/// remembers whether any of them was a video key frame: the mark after
/// the run is the mark before it, or a key frame in the run. So the next
/// partial cut is independent exactly when a key frame came since the
/// previous cut.
pub proof fn lemma_key_frame_remembered(r: Flv2HlsRemuxer, fs: Seq<FlvDemuxerData>)
    requires
        forall|i: int| 0 <= i < fs.len() ==> frame_dts_in_range(r, #[trigger] fs[i]),
        forall|i: int|
            0 <= i < fs.len() ==> {
                let a = remux_step(remux_steps(r, #[trigger] fs.take(i)), fs[i]).1;
                a.partial is None && a.segment is None
            },
    ensures
        remux_steps(r, fs).segment_has_idr == (r.segment_has_idr || exists|i: int|
            0 <= i < fs.len() && is_key_video(#[trigger] fs[i])),
        remux_steps(r, fs).last_ts_dts == r.last_ts_dts,
        remux_steps(r, fs).last_partial_ts_dts == r.last_partial_ts_dts,
        remux_steps(r, fs).duration == r.duration,
    decreases fs.len(),
{
    if fs.len() > 0 {
        let prev = fs.drop_last();
        let f = fs.last();
        assert forall|i: int| 0 <= i < prev.len() implies frame_dts_in_range(r, #[trigger] prev[i]) by {
            assert(prev[i] == fs[i]);
        }
        assert forall|i: int| 0 <= i < prev.len() implies {
            let a = remux_step(remux_steps(r, #[trigger] prev.take(i)), prev[i]).1;
            a.partial is None && a.segment is None
        } by {
            assert(prev.take(i) =~= fs.take(i));
            assert(prev[i] == fs[i]);
        }
        lemma_key_frame_remembered(r, prev);
        let m = remux_steps(r, prev);
        assert(fs.take(prev.len() as int) =~= prev);
        assert(frame_dts_in_range(r, fs[prev.len() as int]));
        let a = remux_step(m, f).1;
        assert(a.partial is None && a.segment is None);
        lemma_independent_since_key_frame(m, f);
        if exists|i: int| 0 <= i < fs.len() && is_key_video(#[trigger] fs[i]) {
            let i = choose|i: int| 0 <= i < fs.len() && is_key_video(#[trigger] fs[i]);
            if i < prev.len() {
                assert(is_key_video(prev[i]));
            }
        }
        if exists|i: int| 0 <= i < prev.len() && is_key_video(#[trigger] prev[i]) {
            let i = choose|i: int| 0 <= i < prev.len() && is_key_video(#[trigger] prev[i]);
            assert(is_key_video(fs[i]));
        }
        if is_key_video(f) {
            assert(is_key_video(fs[prev.len() as int]));
        }
    }
}

} // verus!
