use xiu::hls::media::{media_cut, MediaCutState};
use xiu::hls::request::sequence_announced;
use xiu::hls::m3u8::{M3u8, Ts};
use xiu::hls::remuxer::{Flv2HlsRemuxer, FlvDemuxerData, PartialCut, SegmentCut};

#[test]
fn ts_files_are_numbered() {
    let mut ts = Ts::new(String::from("./live/cam"));
    assert_eq!(ts.next_file(), (String::from("0.ts"), String::from("./live/cam/0.ts")));
    assert_eq!(ts.next_file(), (String::from("1.ts"), String::from("./live/cam/1.ts")));
}

#[test]
fn playlist_after_partials_and_a_segment() {
    let mut m = M3u8::new(
        5000,
        3,
        String::from("cam.m3u8"),
        String::from("live"),
        String::from("cam"),
    );
    assert_eq!(m.m3u8_path(), "./live/cam/cam.m3u8");
    let (p0, path0) = m.add_partial_segment(1000, true);
    assert_eq!(p0, "0.ts");
    assert_eq!(path0, "./live/cam/0.ts");
    let (p1, _) = m.add_partial_segment(500, false);
    assert_eq!(p1, "1.ts");
    let text = m.refresh_playlist();
    assert_eq!(
        text,
        "#EXTM3U\n#EXT-X-VERSION:6\n#EXT-X-TARGETDURATION:5\n\
#EXT-X-SERVER-CONTROL:CAN-BLOCK-RELOAD=YES,PART-HOLD-BACK=1.5\n#EXT-X-MEDIA-SEQUENCE:0\n\
#EXT-X-PART:DURATION=1.000,URI=\"0.ts\",INDEPENDENT=YES\n#EXT-X-PART:DURATION=0.500,URI=\"1.ts\"\n"
    );
    let (s, spath) = m.add_segment(6000, false, false);
    assert_eq!(s, "2.ts");
    assert_eq!(spath, "./live/cam/2.ts");
    assert_eq!(m.sequence_no(), 1);
    let text = m.refresh_playlist();
    assert_eq!(
        text,
        "#EXTM3U\n#EXT-X-VERSION:6\n#EXT-X-TARGETDURATION:6\n\
#EXT-X-SERVER-CONTROL:CAN-BLOCK-RELOAD=YES,PART-HOLD-BACK=1.5\n#EXT-X-MEDIA-SEQUENCE:1\n\
#EXTINF:1.000,\n0.ts\n"
    );
    let files = m.clear();
    assert_eq!(files, vec![String::from("./live/cam/0.ts"), String::from("./live/cam/cam.m3u8")]);
}

#[test]
fn remuxer_cuts_partials_then_segments() {
    let mut r = Flv2HlsRemuxer::new(2, 500);
    let a = r.process_demux_data(&FlvDemuxerData::Video {
        has_data: true,
        is_key_frame: true,
        pts: 0,
        dts: 0,
    });
    assert!(a.segment.is_none());
    assert!(a.partial.is_none());
    assert!(a.write);
    let a = r.process_demux_data(&FlvDemuxerData::Video {
        has_data: true,
        is_key_frame: true,
        pts: 600,
        dts: 600,
    });
    assert_eq!(a.partial, Some(PartialCut { duration: 600, independent: true }));
    assert!(a.segment.is_none());
    let a = r.process_demux_data(&FlvDemuxerData::Audio { has_data: true, pts: 700, dts: 700 });
    assert!(a.partial.is_none() && a.segment.is_none() && a.write);
    let a = r.process_demux_data(&FlvDemuxerData::Video {
        has_data: true,
        is_key_frame: false,
        pts: 20000,
        dts: 20000,
    });
    assert_eq!(a.segment, Some(SegmentCut { duration: 20000, discontinuity: true, is_eof: false }));
    let a = r.process_demux_data(&FlvDemuxerData::NoData);
    assert!(!a.write);
    let last = r.flush_remaining_data();
    assert!(last.is_eof);
}

#[test]
fn live_playlist_keeps_a_bounded_window() {
    let mut m = M3u8::new(2000, 2, String::from("s.m3u8"), String::from("a"), String::from("s"));
    for _ in 0..6 {
        m.add_partial_segment(1000, true);
        m.add_partial_segment(1000, false);
        // at most two complete segments and the one being built
        assert!(m.clear().len() <= 2 + 1 + 1);
        m.add_segment(2000, false, false);
        assert!(m.clear().len() <= 2 + 1);
    }
    assert_eq!(m.sequence_no(), 6);
}

#[test]
fn plain_hls_cuts_only_before_key_frames() {
    let mut r = MediaCutState::new(2);
    let v = |k: bool, t: i64| FlvDemuxerData::Video { has_data: true, is_key_frame: k, pts: t, dts: t };
    assert!(media_cut(&mut r, &v(true, 0)).segment.is_none());
    assert!(media_cut(&mut r, &v(false, 5000)).segment.is_none());
    let a = media_cut(&mut r, &v(true, 6000));
    assert_eq!(a.segment, Some(SegmentCut { duration: 6000, discontinuity: false, is_eof: false }));
    assert_eq!(r.last_ts_dts, 6000);
    let a = media_cut(&mut r, &FlvDemuxerData::Audio { has_data: true, pts: 9000, dts: 9000 });
    assert!(a.segment.is_none() && a.write);
    assert_eq!(r.last_dts, 9000);
}

#[test]
fn sequence_event_ends_the_wait_only_for_its_segment() {
    assert!(sequence_announced(7, 7));
    assert!(!sequence_announced(8, 7));
}
