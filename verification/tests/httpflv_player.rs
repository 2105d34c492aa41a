use xiu::cache::frame::FrameData;
use xiu::httpflv::path::{flv_request, FlvRequest};
use xiu::httpflv::session::{retry_step, HttpFlv, SendOutcome};

fn header(audio: bool, video: bool) -> Vec<u8> {
    let flags = (if audio { 4 } else { 0 }) + (if video { 1 } else { 0 });
    vec![0x46, 0x4C, 0x56, 1, flags, 0, 0, 0, 9, 0, 0, 0, 0]
}

fn tag(tag_type: u8, ts: u32, body: &[u8]) -> Vec<u8> {
    let n = body.len() as u32;
    let mut v = vec![
        tag_type,
        (n >> 16) as u8,
        (n >> 8) as u8,
        n as u8,
        (ts >> 16) as u8,
        (ts >> 8) as u8,
        ts as u8,
        (ts >> 24) as u8,
        0,
        0,
        0,
    ];
    v.extend_from_slice(body);
    v.extend_from_slice(&(n + 11).to_be_bytes());
    v
}

#[test]
fn header_waits_for_audio_and_video() {
    let mut p = HttpFlv::new(String::from("live"), String::from("cam"));
    p.on_frame(FrameData::Video { timestamp: 0, data: vec![0x17, 0] });
    assert!(p.flush_response_data().is_empty());
    p.on_frame(FrameData::Audio { timestamp: 1, data: vec![0xAF, 0] });
    let mut expected = header(true, true);
    expected.extend(tag(9, 0, &[0x17, 0]));
    expected.extend(tag(8, 1, &[0xAF, 0]));
    assert_eq!(p.flush_response_data(), expected);
    p.on_frame(FrameData::Video { timestamp: 0x0100_0002, data: vec![0x27, 1, 2] });
    assert_eq!(p.flush_response_data(), tag(9, 0x0100_0002, &[0x27, 1, 2]));
}

#[test]
fn header_goes_out_after_eleven_frames_of_one_kind() {
    let mut p = HttpFlv::new(String::from("live"), String::from("radio"));
    for i in 0..10u32 {
        p.on_frame(FrameData::Audio { timestamp: i, data: vec![0xAF, 1] });
        assert!(p.flush_response_data().is_empty());
    }
    p.on_frame(FrameData::Audio { timestamp: 10, data: vec![0xAF, 1] });
    let out = p.flush_response_data();
    assert_eq!(&out[..13], &header(true, false)[..]);
    assert_eq!(out.len(), 13 + 11 * (11 + 2 + 4));
}

#[test]
fn metadata_is_sent_without_set_data_frame() {
    let mut p = HttpFlv::new(String::from("live"), String::from("cam"));
    let mut body = vec![2, 0, 13];
    body.extend_from_slice(b"@setDataFrame");
    body.extend_from_slice(&[2, 0, 2, b'o', b'n']);
    p.write_flv_tag(&FrameData::MetaData { timestamp: 0, data: body });
    assert_eq!(p.flush_response_data(), tag(18, 0, &[2, 0, 2, b'o', b'n']));
}

#[test]
fn flv_request_paths() {
    match flv_request("/live/cam.flv") {
        FlvRequest::Play { app_name, stream_name } => {
            assert_eq!(app_name, "live");
            assert_eq!(stream_name, "cam");
        }
        _ => panic!("expected a stream"),
    }
    match flv_request("/live/cam/extra.flv?x=1") {
        FlvRequest::Play { app_name, stream_name } => {
            assert_eq!(app_name, "live");
            assert_eq!(stream_name, "cam");
        }
        _ => panic!("expected a stream"),
    }
    assert!(matches!(flv_request("/live/cam.mp4"), FlvRequest::NotFound));
    assert!(matches!(flv_request(".flv"), FlvRequest::NotFound));
    assert!(matches!(flv_request("/cam.flv"), FlvRequest::Malformed));
}

#[test]
fn sending_stops_after_eleven_failures_or_a_disconnect() {
    let mut count = 0u32;
    for _ in 0..10 {
        count = retry_step(count, SendOutcome::Failed).unwrap();
    }
    assert_eq!(count, 10);
    assert_eq!(retry_step(count, SendOutcome::NoData), None);
    assert_eq!(retry_step(count, SendOutcome::Sent), Some(0));
    assert_eq!(retry_step(0, SendOutcome::Disconnected), None);
}

#[test]
fn largest_tag_body_is_sent() {
    let mut p = HttpFlv::new(String::from("live"), String::from("cam"));
    let body = vec![0u8; 0xFF_FFFF];
    p.write_flv_tag(&FrameData::Video { timestamp: 0, data: body });
    let out = p.flush_response_data();
    assert_eq!(&out[1..4], &[0xFF, 0xFF, 0xFF]);
    assert_eq!(out.len(), 11 + 0xFF_FFFF + 4);
    assert_eq!(&out[out.len() - 4..], &(0xFF_FFFFu32 + 11).to_be_bytes());
}
