use xiu::cache::frame::FrameData;
use xiu::cache::gop::{Gops, DEFAULT_MAX_GOP_FRAME_NUM};

fn audio_frame() -> FrameData {
    FrameData::Audio {
        timestamp: 0,
        data: Vec::new(),
    }
}

// Key-frame-ness is carried by the `is_key_frame` flag passed to
// save_frame_data, not by the payload, so a key frame and an inter frame
// build the same FrameData::Video and differ only in that flag.
fn video_key_frame() -> FrameData {
    FrameData::Video {
        timestamp: 0,
        data: Vec::new(),
    }
}

fn video_inter_frame() -> FrameData {
    FrameData::Video {
        timestamp: 0,
        data: Vec::new(),
    }
}

fn total_frames(gops: &Gops) -> usize {
    gops.get_gops().iter().map(|gop| gop.len()).sum()
}

#[test]
fn audio_only_stream_is_bounded() {
    let mut gops = Gops::new(1, None);
    for _ in 0..(DEFAULT_MAX_GOP_FRAME_NUM * 5) {
        gops.save_frame_data(audio_frame(), false);
    }
    assert!(total_frames(&gops) <= DEFAULT_MAX_GOP_FRAME_NUM);
}

#[test]
fn configured_cap_is_respected() {
    let cap = 10;
    let mut gops = Gops::new(1, Some(cap));
    for _ in 0..(cap * 10) {
        gops.save_frame_data(audio_frame(), false);
    }
    assert!(total_frames(&gops) <= cap);
}

#[test]
fn zero_cap_falls_back_to_default() {
    let mut gops = Gops::new(1, Some(0));
    for _ in 0..(DEFAULT_MAX_GOP_FRAME_NUM * 2) {
        gops.save_frame_data(audio_frame(), false);
    }
    let frames = total_frames(&gops);
    assert!(frames > 1 && frames <= DEFAULT_MAX_GOP_FRAME_NUM);
}

#[test]
fn key_frame_rotation_bounds_gop_count() {
    let size = 3;
    let mut gops = Gops::new(size, None);
    for _ in 0..10 {
        gops.save_frame_data(video_key_frame(), true);
        for _ in 0..5 {
            gops.save_frame_data(audio_frame(), false);
        }
    }
    assert!(gops.get_gops().len() <= size);
}

#[test]
fn video_gop_is_not_split_by_frame_cap() {
    let cap = 10;
    let mut gops = Gops::new(1, Some(cap));
    gops.save_frame_data(video_key_frame(), true);
    for _ in 0..(cap * 5) {
        gops.save_frame_data(video_inter_frame(), false);
    }
    assert_eq!(gops.get_gops().len(), 1);
    assert_eq!(total_frames(&gops), cap * 5 + 1);
}

#[test]
fn disabled_cache_stores_nothing() {
    let mut gops = Gops::new(0, None);
    gops.save_frame_data(audio_frame(), false);
    gops.save_frame_data(video_key_frame(), true);
    assert_eq!(total_frames(&gops), 0);
}

#[test]
fn key_frame_heads_its_gop() {
    let mut gops = Gops::new(2, None);
    gops.save_frame_data(audio_frame(), false);
    gops.save_frame_data(
        FrameData::Video {
            timestamp: 40,
            data: vec![0x17, 1],
        },
        true,
    );
    gops.save_frame_data(video_inter_frame(), false);
    let all = gops.get_gops();
    assert_eq!(all.len(), 2);
    assert_eq!(all[0].len(), 1);
    let latest = all[1].copy().get_frame_data();
    assert_eq!(latest.len(), 2);
    assert_eq!(
        latest[0],
        FrameData::Video {
            timestamp: 40,
            data: vec![0x17, 1]
        }
    );
    assert!(gops.setted());
}

#[test]
fn interleaved_audio_never_splits_a_video_gop() {
    let mut gops = Gops::new(1, Some(10));
    gops.save_frame_data(
        FrameData::Video { timestamp: 0, data: vec![0x17] },
        true,
    );
    for _ in 0..50 {
        gops.save_frame_data(video_inter_frame(), false);
        gops.save_frame_data(audio_frame(), false);
    }
    let all = gops.get_gops();
    assert_eq!(all.len(), 1);
    assert_eq!(total_frames(&gops), 101);
    let frames = all[0].copy().get_frame_data();
    assert_eq!(frames[0], FrameData::Video { timestamp: 0, data: vec![0x17] });
    assert!(all[0].has_video());
}

#[test]
fn cached_frames_are_the_latest_in_order() {
    let mut gops = Gops::new(2, Some(3));
    for i in 0..20u32 {
        gops.save_frame_data(FrameData::Audio { timestamp: i, data: Vec::new() }, false);
    }
    let kept: Vec<u32> = gops
        .get_gops()
        .iter()
        .flat_map(|g| g.copy().get_frame_data())
        .map(|f| match f {
            FrameData::Audio { timestamp, .. } => timestamp,
            _ => u32::MAX,
        })
        .collect();
    assert_eq!(kept, vec![15, 16, 17, 18, 19]);
}
