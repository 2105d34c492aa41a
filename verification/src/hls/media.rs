//! Where a plain HLS stream (no partial segments) cuts its segments: only
//! before a video key frame, once the segment has lasted its duration.
use vstd::prelude::*;
use crate::hls::remuxer::{FlvDemuxerData, RemuxActions, SegmentCut};

verus! {

/// The clocks of the segment being written, in milliseconds.
#[derive(Debug, Clone, Copy, PartialEq, Eq)]
pub struct MediaCutState {
    pub last_ts_dts: i64,
    pub last_ts_pts: i64,
    pub last_dts: i64,
    pub last_pts: i64,
    /// The segment duration, in seconds.
    pub duration: i64,
}

/// The arithmetic of a frame at `dts` stays within `i64`.
pub open spec fn media_in_range(r: MediaCutState, dts: i64) -> bool {
    &&& i64::MIN <= r.duration * 1000 <= i64::MAX
    &&& i64::MIN <= dts - r.last_ts_dts <= i64::MAX
    &&& r.last_ts_dts + 15000 <= i64::MAX
}

/// Before a frame with data: a video key frame at least `duration`
/// seconds after the segment began closes the segment (discontinuous when
/// more than 15 s passed) and starts a new one at the frame; every frame
/// with data is written and becomes the latest. Frames without data, and
/// what is neither audio nor video, change nothing.
pub open spec fn media_cut_spec(r: MediaCutState, f: FlvDemuxerData) -> (MediaCutState, RemuxActions) {
    let none = RemuxActions { partial: None, segment: None, write: false };
    match f {
        FlvDemuxerData::Video { has_data, is_key_frame, pts, dts } => if !has_data {
            (r, none)
        } else if is_key_frame && dts - r.last_ts_dts >= r.duration * 1000 {
            (
                MediaCutState { last_ts_dts: dts, last_ts_pts: pts, last_dts: dts, last_pts: pts, ..r },
                RemuxActions {
                    partial: None,
                    segment: Some(
                        SegmentCut {
                            duration: (dts - r.last_ts_dts) as i64,
                            discontinuity: dts > r.last_ts_dts + 15000,
                            is_eof: false,
                        },
                    ),
                    write: true,
                },
            )
        } else {
            (
                MediaCutState { last_dts: dts, last_pts: pts, ..r },
                RemuxActions { partial: None, segment: None, write: true },
            )
        },
        FlvDemuxerData::Audio { has_data, pts, dts } => if !has_data {
            (r, none)
        } else {
            (
                MediaCutState { last_dts: dts, last_pts: pts, ..r },
                RemuxActions { partial: None, segment: None, write: true },
            )
        },
        FlvDemuxerData::NoData => (r, none),
    }
}

impl MediaCutState {
    pub fn new(duration: i64) -> (r: Self)
        ensures
            r == (MediaCutState {
                last_ts_dts: 0,
                last_ts_pts: 0,
                last_dts: 0,
                last_pts: 0,
                duration,
            }),
    {
        MediaCutState { last_ts_dts: 0, last_ts_pts: 0, last_dts: 0, last_pts: 0, duration }
    }
}

/// Decides the cut before a frame and records it; see `media_cut_spec`.
pub fn media_cut(r: &mut MediaCutState, data: &FlvDemuxerData) -> (a: RemuxActions)
    requires
        match *data {
            FlvDemuxerData::Video { dts, .. } => media_in_range(*old(r), dts),
            _ => true,
        },
    ensures
        (*final(r), a) == media_cut_spec(*old(r), *data),
{
    let none = RemuxActions { partial: None, segment: None, write: false };
    match *data {
        FlvDemuxerData::Video { has_data, is_key_frame, pts, dts } => {
            if !has_data {
                return none;
            }
            let mut segment: Option<SegmentCut> = None;
            if is_key_frame && dts - r.last_ts_dts >= r.duration * 1000 {
                segment = Some(
                    SegmentCut {
                        duration: dts - r.last_ts_dts,
                        discontinuity: dts > r.last_ts_dts + 15 * 1000,
                        is_eof: false,
                    },
                );
                r.last_ts_dts = dts;
                r.last_ts_pts = pts;
            }
            r.last_dts = dts;
            r.last_pts = pts;
            RemuxActions { partial: None, segment, write: true }
        },
        FlvDemuxerData::Audio { has_data, pts, dts } => {
            if !has_data {
                return none;
            }
            r.last_dts = dts;
            r.last_pts = pts;
            RemuxActions { partial: None, segment: None, write: true }
        },
        FlvDemuxerData::NoData => none,
    }
}

/// Law (plain HLS cutting): a segment is cut only before a video key
/// frame with data, at least `duration` seconds after the segment began;
/// it lasts from the segment's start to that frame, is discontinuous
/// exactly when more than 15 s passed, and the next segment starts at the
/// frame.
pub proof fn lemma_media_cut_rules(r: MediaCutState, f: FlvDemuxerData)
    requires
        match f {
            FlvDemuxerData::Video { dts, .. } => media_in_range(r, dts),
            _ => true,
        },
    ensures
        match f {
            FlvDemuxerData::Video { has_data, is_key_frame, pts, dts } => {
                &&& media_cut_spec(r, f).1.segment is Some <==> (has_data && is_key_frame && dts
                    - r.last_ts_dts >= r.duration * 1000)
                &&& media_cut_spec(r, f).1.segment matches Some(c) ==> {
                    &&& c.duration == dts - r.last_ts_dts
                    &&& c.discontinuity == (dts > r.last_ts_dts + 15000)
                    &&& !c.is_eof
                    &&& media_cut_spec(r, f).0.last_ts_dts == dts
                    &&& media_cut_spec(r, f).0.last_ts_pts == pts
                }
                &&& media_cut_spec(r, f).1.segment is None ==> media_cut_spec(r, f).0.last_ts_dts
                    == r.last_ts_dts
            },
            _ => media_cut_spec(r, f).1.segment is None && media_cut_spec(r, f).0.last_ts_dts
                == r.last_ts_dts,
        },
{
}

} // verus!
